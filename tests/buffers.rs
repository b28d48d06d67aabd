use comacode::batching::SmartBatcher;
use comacode::config::BufferConfig;
use comacode::snapshot::SnapshotBuffer;

#[test]
fn test_push_and_get_snapshot() {
    let mut buf = SnapshotBuffer::new(100);
    assert!(buf.is_empty());
    buf.push(b"hello");
    assert_eq!(buf.len(), 5);
    assert_eq!(buf.get_snapshot(), b"hello");
    buf.push(b" world");
    assert_eq!(buf.len(), 11);
    assert_eq!(buf.get_snapshot(), b"hello world");
}

#[test]
fn test_buffer_eviction_when_full() {
    let mut buf = SnapshotBuffer::new(10);
    buf.push(b"0123456789");
    assert_eq!(buf.len(), 10);
    buf.push(b"AB");
    assert_eq!(buf.len(), 10);
    let snapshot = buf.get_snapshot();
    assert_eq!(snapshot, b"23456789AB");
}

#[test]
fn test_clear() {
    let mut buf = SnapshotBuffer::new(100);
    buf.push(b"data");
    assert_eq!(buf.len(), 4);
    buf.clear();
    assert!(buf.is_empty());
    assert_eq!(buf.len(), 0);
}

#[test]
fn test_preserve_ansi_codes() {
    let mut buf = SnapshotBuffer::new(100);
    let output = b"\x1b[31mRed text\x1b[0mNormal text";
    buf.push(output);
    assert_eq!(buf.get_snapshot(), output);
}

#[test]
fn test_large_output_eviction() {
    let mut buf = SnapshotBuffer::new(20);
    buf.push(b"AAAABBBB");
    buf.push(b"CCCCDDDD");
    buf.push(b"EEEEFFFF");
    assert_eq!(buf.len(), 20);
    let snapshot = buf.get_snapshot();
    assert_eq!(snapshot, b"BBBBCCCCDDDDEEEEFFFF");
}

#[test]
fn zero_capacity_keeps_last_byte() {
    let mut buf = SnapshotBuffer::new(0);
    buf.push(b"xyz");
    assert_eq!(buf.get_snapshot(), b"z");
    assert_eq!(buf.capacity(), 0);
}

#[test]
fn newline_flushes_immediately() {
    let mut b = SmartBatcher::new(BufferConfig::interactive());
    assert_eq!(b.deadline(), None);
    let out = b.on_chunk(b"ls", 100);
    assert!(out.is_empty());
    assert_eq!(b.deadline(), Some(105));
    let out = b.on_chunk(b"\n", 101);
    assert_eq!(out, vec![b"ls\n".to_vec()]);
    assert_eq!(b.deadline(), None);
}

#[test]
fn timer_counts_from_first_byte() {
    let mut b = SmartBatcher::new(BufferConfig::bulk());
    b.on_chunk(b"a", 1000);
    b.on_chunk(b"b", 1040);
    assert_eq!(b.deadline(), Some(1050));
    assert_eq!(b.on_tick(1049), None);
    assert_eq!(b.on_tick(1050), Some(b"ab".to_vec()));
    assert_eq!(b.deadline(), None);
}

#[test]
fn full_batch_flushes_and_restarts() {
    let cfg = BufferConfig { max_batch_size: 4, max_flush_delay_ms: 10, flush_on_newline: false };
    let mut b = SmartBatcher::new(cfg);
    assert!(b.on_chunk(b"abc", 0).is_empty());
    let out = b.on_chunk(b"de", 3);
    assert_eq!(out, vec![b"abc".to_vec()]);
    assert_eq!(b.deadline(), Some(13));
    let out = b.on_chunk(b"fghij", 4);
    assert_eq!(out, vec![b"de".to_vec(), b"fghij".to_vec()]);
    assert_eq!(b.on_eof(), None);
}

#[test]
fn eof_returns_pending() {
    let mut b = SmartBatcher::new(BufferConfig::default());
    b.on_chunk(b"tail", 0);
    assert_eq!(b.on_eof(), Some(b"tail".to_vec()));
    assert_eq!(b.on_eof(), None);
}

#[test]
fn empty_push_keeps_contents() {
    let mut buf = SnapshotBuffer::new(4);
    buf.push(b"abc");
    buf.push(b"");
    assert_eq!(buf.get_snapshot(), b"abc");
}
