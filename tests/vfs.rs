use comacode::CoreError;
use comacode::types::{DirEntry, NetworkMessage};
use comacode::vfs::{chunk_entries, dir_chunk_messages, path_within, sort_entries, validate_path, VfsError};

fn entry(name: &str) -> DirEntry {
    DirEntry {
        name: name.to_string(),
        path: format!("/{}", name),
        is_dir: false,
        is_symlink: false,
        size: Some(100),
        modified: None,
        permissions: None,
    }
}

#[test]
fn test_validate_path_valid() {
    assert!(validate_path("/var/run", "/var/run").is_ok(), "Base path should be valid");
}

#[test]
fn test_validate_path_traversal() {
    assert!(validate_path("/tmp/../etc", "/tmp").is_err());
    assert!(validate_path("../etc", "/tmp").is_err());
}

#[test]
fn test_chunk_entries() {
    let entries = vec![entry("a"); 10];
    let chunks = chunk_entries(entries, 3);
    assert_eq!(chunks.len(), 4);
    assert_eq!(chunks[0].len(), 3);
    assert_eq!(chunks[3].len(), 1);
}

#[test]
fn missing_path_is_not_found() {
    assert!(matches!(
        validate_path("/definitely/not/here/at/all", "/"),
        Err(VfsError::PathNotFound(p)) if p == "/definitely/not/here/at/all"
    ));
}

#[test]
fn path_within_compares_components() {
    assert!(path_within("/tmp", "/tmp"));
    assert!(path_within("/tmp/a/b", "/tmp"));
    assert!(!path_within("/tmpx", "/tmp"));
    assert!(!path_within("/etc", "/tmp"));
    assert!(path_within("/etc", "/"));
    assert!(path_within("/tmp/a", "/tmp/"));
}

#[test]
fn empty_listing_sends_one_empty_chunk() {
    let msgs = dir_chunk_messages(Vec::new());
    assert_eq!(msgs.len(), 1);
    assert!(matches!(
        &msgs[0],
        NetworkMessage::DirChunk { chunk_index: 0, total_chunks: 1, entries, has_more: false } if entries.is_empty()
    ));
}

#[test]
fn listing_is_chunked_by_150() {
    let entries: Vec<DirEntry> = (0..301).map(|i| entry(&format!("f{}", i))).collect();
    let msgs = dir_chunk_messages(entries);
    assert_eq!(msgs.len(), 3);
    for (i, m) in msgs.iter().enumerate() {
        match m {
            NetworkMessage::DirChunk { chunk_index, total_chunks, entries, has_more } => {
                assert_eq!(*chunk_index as usize, i);
                assert_eq!(*total_chunks, 3);
                assert_eq!(*has_more, i < 2);
                assert_eq!(entries.len(), if i < 2 { 150 } else { 1 });
                assert_eq!(entries[0].name, format!("f{}", i * 150));
            }
            _ => panic!("not a chunk"),
        }
    }
}

#[test]
fn listing_is_capped() {
    let entries = vec![entry("x"); 10_001];
    let msgs = dir_chunk_messages(entries);
    assert_eq!(msgs.len(), 67);
}

#[test]
fn listing_order_puts_directories_first() {
    let mut d1 = entry("zeta");
    d1.is_dir = true;
    let mut d2 = entry("Alpha");
    d2.is_dir = true;
    let sorted = sort_entries(vec![entry("b"), d1, entry("a"), entry("\u{e9}"), d2, entry("B")]);
    let names: Vec<&str> = sorted.iter().map(|e| e.name.as_str()).collect();
    assert_eq!(names, vec!["Alpha", "zeta", "B", "a", "b", "\u{e9}"]);
}

#[test]
fn vfs_errors_map_to_core_errors() {
    assert_eq!(CoreError::from(VfsError::PathNotFound("/x".to_string())), CoreError::PathNotFound("/x".to_string()));
    assert_eq!(CoreError::from(VfsError::IoError("e".to_string())), CoreError::VfsIoError("e".to_string()));
}
