use comacode::history::LineCapture;
use comacode::session::SessionTable;
use comacode::status::{ConnectionStatus, HtmlTemplate};

#[test]
fn ids_increase() {
    let mut t = SessionTable::new();
    assert_eq!(t.allocate_id(), Some(1));
    assert_eq!(t.allocate_id(), Some(2));
}

#[test]
fn history_keeps_last_hundred_lines() {
    let mut t = SessionTable::new();
    let id = "S".to_string();
    t.insert_session(id.clone(), 1, "/".to_string());
    for i in 0..105 {
        t.add_history_line(&id, format!("line {}", i));
    }
    let h = t.get_history(&id);
    assert_eq!(h.len(), 100);
    assert_eq!(h[0], "line 5");
    assert_eq!(h[99], "line 104");
    assert!(t.get_history(&"other".to_string()).is_empty());
}

#[test]
fn output_is_handed_out_once() {
    let mut t = SessionTable::new();
    let id = "S".to_string();
    t.insert_session(id.clone(), 4, "/".to_string());
    assert_eq!(t.take_output(&id), Some(4));
    assert_eq!(t.take_output(&id), None);
    t.insert_legacy(8);
    assert!(t.take_legacy_output(8));
    assert!(!t.take_legacy_output(8));
}

#[test]
fn remove_and_list() {
    let mut t = SessionTable::new();
    t.insert_session("A".to_string(), 1, "/a".to_string());
    t.insert_session("B".to_string(), 2, "/b".to_string());
    assert_eq!(t.insert_session("A".to_string(), 3, "/a".to_string()), Some(1));
    assert_eq!(t.list_sessions(), vec!["A".to_string(), "B".to_string()]);
    assert_eq!(t.session_count(), 2);
    assert_eq!(t.remove_session(&"A".to_string()), Some(3));
    assert_eq!(t.remove_session(&"A".to_string()), None);
    assert!(!t.session_exists(&"A".to_string()));
    assert!(t.session_exists(&"B".to_string()));
    t.insert_legacy(5);
    t.insert_legacy(6);
    assert_eq!(t.legacy_count(), 2);
    assert!(t.remove_legacy(5));
    assert_eq!(t.legacy_ids(), vec![6]);
}

#[test]
fn status_texts() {
    assert_eq!(ConnectionStatus::Waiting.class(), "waiting");
    assert_eq!(ConnectionStatus::Disconnected.message(), "Disconnected");
    let c = ConnectionStatus::Connected { peer: "10.0.0.2:5000".to_string(), session_id: 1 };
    assert_eq!(c.class(), "connected");
    assert_eq!(c.message(), "Connected to 10.0.0.2:5000");
    let html = HtmlTemplate::render("<svg/>", &c);
    assert!(html.starts_with("<!DOCTYPE html>"));
    assert!(html.contains("<div class=\"qr-container\"><svg/></div>"));
    assert!(html.contains("<div id=\"status\" class=\"status connected\">Connected to 10.0.0.2:5000</div>"));
    assert!(html.contains("function connectSSE() {"));
}

#[test]
fn reaper_drops_dead_terminals() {
    let mut t = SessionTable::new();
    t.insert_session("A".to_string(), 1, "/a".to_string());
    t.insert_session("B".to_string(), 2, "/b".to_string());
    t.insert_legacy(3);
    t.insert_legacy(4);
    let mut gone = t.remove_dead(&vec![1, 3]);
    gone.sort();
    assert_eq!(gone, vec![1, 3]);
    assert!(!t.session_exists(&"A".to_string()));
    assert!(t.session_exists(&"B".to_string()));
    assert_eq!(t.legacy_ids(), vec![4]);
}

#[test]
fn lines_are_captured_across_chunks() {
    let mut c = LineCapture::new();
    assert_eq!(c.feed(b"ab\ncd"), vec!["ab".to_string()]);
    assert_eq!(c.feed(b"e\n"), vec!["cde".to_string()]);
    assert!(c.feed(b"").is_empty());
}

#[test]
fn split_character_waits_for_its_rest() {
    let mut c = LineCapture::new();
    assert!(c.feed(&[b'x', 0xc3]).is_empty());
    assert_eq!(c.feed(&[0xa9, b'\n', b'y']), vec!["x\u{e9}".to_string()]);
    assert_eq!(c.feed(b"\n\n"), vec!["y".to_string(), String::new()]);
}

#[test]
fn undecodable_flood_is_dropped() {
    let mut c = LineCapture::new();
    assert!(c.feed(&vec![0xffu8; 10_001]).is_empty());
    assert_eq!(c.feed(b"a\n"), vec!["a".to_string()]);
}

#[test]
fn released_output_can_be_taken_again() {
    let mut t = SessionTable::new();
    let id = "S".to_string();
    t.insert_session(id.clone(), 7, "/".to_string());
    assert_eq!(t.pty_of(&id), Some(7));
    assert_eq!(t.take_output(&id), Some(7));
    t.release_output(&id);
    assert_eq!(t.take_output(&id), Some(7));
    t.insert_legacy(9);
    assert!(t.take_legacy_output(9));
    t.release_legacy_output(9);
    assert!(t.take_legacy_output(9));
}

#[test]
fn endless_line_is_dropped_past_the_limit() {
    let mut c = LineCapture::new();
    assert!(c.feed(&vec![b'a'; 10_001]).is_empty());
    assert_eq!(c.feed(b"b\n"), vec!["b".to_string()]);
    assert!(c.feed(&vec![b'c'; 6_000]).is_empty());
    assert_eq!(c.feed(b"d\n"), vec![format!("{}d", "c".repeat(6_000))]);
}
