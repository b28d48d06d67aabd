use comacode::auth::AuthToken;
use comacode::connection::{Action, Connection, CreateOutcome, PumpKind, SessionKey};
use comacode::ratelimit::RateLimiterStore;
use comacode::session::SessionTable;
use comacode::token_store::TokenStore;
use comacode::types::{NetworkMessage, SessionMessage, TerminalCommand, TerminalEvent};
use comacode::CoreError;

const NOW: u64 = 1_000_000;
const PEER: u128 = 0xffff_0a00_0001;

struct Host {
    tokens: TokenStore,
    limiter: RateLimiterStore,
    sessions: SessionTable,
    token: AuthToken,
}

fn host() -> Host {
    let mut tokens = TokenStore::new();
    let token = tokens.generate_token(NOW);
    Host { tokens, limiter: RateLimiterStore::new(), sessions: SessionTable::new(), token }
}

fn hello(token: Option<AuthToken>) -> NetworkMessage {
    NetworkMessage::hello(token)
}

fn step(c: &mut Connection, h: &mut Host, msg: NetworkMessage) -> Vec<Action> {
    c.on_message(msg, &mut h.tokens, &mut h.limiter, &h.sessions, PEER, NOW)
}

fn is_server_hello(a: &Action) -> bool {
    matches!(a, Action::Send(NetworkMessage::Hello { protocol_version: 1, auth_token: None, .. }))
}

fn session(id: &str) -> NetworkMessage {
    NetworkMessage::Session(SessionMessage::SwitchSession { session_id: id.to_string() })
}

#[test]
fn auth_success_then_input_reaches_pty() {
    let mut h = host();
    let mut c = Connection::new(false, "/bin/sh".to_string());
    let token = h.token;
    let acts = step(&mut c, &mut h, hello(Some(token)));
    assert_eq!(acts.len(), 1);
    assert!(is_server_hello(&acts[0]));
    let acts = step(&mut c, &mut h, NetworkMessage::Input { data: b"ls\n".to_vec() });
    assert_eq!(acts.len(), 1);
    match &acts[0] {
        Action::SpawnLegacy(cfg) => {
            assert_eq!(cfg.shell, "/bin/sh");
            assert_eq!((cfg.rows, cfg.cols), (24, 80));
        }
        other => panic!("unexpected {:?}", other),
    }
    let acts = c.on_legacy_spawned(Some(1));
    assert_eq!(acts.len(), 2);
    assert!(matches!(&acts[0], Action::StartPump { target: SessionKey::Legacy(1), kind: PumpKind::Basic }));
    assert!(matches!(&acts[1], Action::WriteLegacy { id: 1, data } if data == b"ls\n"));
}

#[test]
fn three_failed_hellos_ban_the_peer() {
    let mut h = host();
    let wrong = AuthToken::from_bytes([0; 32]);
    for _ in 0..3 {
        assert!(h.limiter.check(PEER).is_ok());
        let mut c = Connection::new(false, "/bin/sh".to_string());
        let acts = step(&mut c, &mut h, hello(Some(wrong)));
        assert!(is_server_hello(&acts[0]));
        assert!(matches!(acts.last(), Some(Action::Finish)));
    }
    assert!(h.limiter.is_banned(PEER));
    assert!(matches!(h.limiter.check(PEER), Err(CoreError::IpBanned { .. })));
}

#[test]
fn missing_token_counts_as_failure() {
    let mut h = host();
    let mut c = Connection::new(false, "/bin/sh".to_string());
    let acts = step(&mut c, &mut h, hello(None));
    assert!(is_server_hello(&acts[0]));
    assert!(matches!(acts.last(), Some(Action::Finish)));
    assert_eq!(h.limiter.auth_failure_count(PEER), 1);
}

#[test]
fn wrong_protocol_version_is_closed_without_counting() {
    let mut h = host();
    let mut c = Connection::new(false, "/bin/sh".to_string());
    let msg = NetworkMessage::Hello {
        protocol_version: 2,
        app_version: "x".to_string(),
        capabilities: 0,
        auth_token: Some(h.token),
    };
    let acts = step(&mut c, &mut h, msg);
    assert_eq!(acts.len(), 2);
    assert!(is_server_hello(&acts[0]));
    assert!(matches!(acts[1], Action::Finish));
    assert_eq!(h.limiter.auth_failure_count(PEER), 0);
}

#[test]
fn nothing_before_hello() {
    let mut h = host();
    let mut c = Connection::new(false, "/bin/sh".to_string());
    let acts = step(&mut c, &mut h, NetworkMessage::Input { data: b"x".to_vec() });
    assert_eq!(acts.len(), 1);
    assert!(matches!(acts[0], Action::Finish));
    let token = h.token;
    assert!(step(&mut c, &mut h, hello(Some(token))).is_empty());
}

#[test]
fn explicit_session_bootstrap() {
    let mut h = host();
    let mut c = Connection::new(true, "/bin/sh".to_string());
    let token = h.token;
    step(&mut c, &mut h, hello(Some(token)));
    assert!(step(&mut c, &mut h, NetworkMessage::Input { data: b"early".to_vec() }).is_empty());
    let acts = step(&mut c, &mut h, NetworkMessage::request_pty(30, 100));
    match &acts[..] {
        [Action::AllocatePty(cfg)] => {
            assert_eq!((cfg.rows, cfg.cols), (30, 100));
            assert!(cfg.env.contains(&("COLUMNS".to_string(), "100".to_string())));
            assert!(cfg.env.contains(&("LINES".to_string(), "30".to_string())));
            assert!(cfg.env.contains(&("TERM".to_string(), "xterm-256color".to_string())));
        }
        other => panic!("unexpected {:?}", other),
    }
    assert!(step(&mut c, &mut h, NetworkMessage::request_pty(10, 10)).is_empty());
    assert!(c.on_pty_allocated(Some(7)).is_empty());
    let acts = step(&mut c, &mut h, NetworkMessage::start_shell());
    assert_eq!(acts.len(), 1);
    assert!(matches!(&acts[0], Action::StartPump { target: SessionKey::Legacy(7), kind: PumpKind::Interactive }));
    let acts = step(&mut c, &mut h, NetworkMessage::resize(40, 120));
    assert!(matches!(&acts[..], [Action::ResizeLegacy { id: 7, rows: 40, cols: 120 }]));
}

#[test]
fn multi_session_switch() {
    let mut h = host();
    let mut c = Connection::new(false, "/bin/sh".to_string());
    let token = h.token;
    step(&mut c, &mut h, hello(Some(token)));
    for (id, pty) in [("A", 11u64), ("B", 12u64)] {
        let msg = NetworkMessage::Session(SessionMessage::CreateSession {
            project_path: "/p/a".to_string(),
            session_id: id.to_string(),
        });
        let acts = step(&mut c, &mut h, msg);
        match &acts[..] {
            [Action::CreateSession { session_id, project_path, config }] => {
                assert_eq!(session_id, id);
                assert_eq!(project_path, "/p/a");
                assert_eq!(config.shell, "cd /p/a && /bin/sh");
            }
            other => panic!("unexpected {:?}", other),
        }
        h.sessions.insert_session(id.to_string(), pty, "/p/a".to_string());
        let acts = c.on_session_created(id.to_string(), "/p/a".to_string(), CreateOutcome::Created);
        assert!(matches!(&acts[..],
            [Action::Send(NetworkMessage::Event(TerminalEvent::SessionCreated { session_id }))] if session_id == id));
    }
    h.sessions.add_history_line(&"A".to_string(), "hello".to_string());
    let acts = step(&mut c, &mut h, session("A"));
    assert_eq!(acts.len(), 3);
    assert!(matches!(&acts[0], Action::Send(NetworkMessage::SessionHistory { session_id, lines })
        if session_id == "A" && lines == &vec!["hello".to_string()]));
    assert!(matches!(&acts[1], Action::StartPump { target: SessionKey::Uuid(s), kind: PumpKind::Tagged } if s == "A"));
    assert!(matches!(&acts[2], Action::Send(NetworkMessage::Event(TerminalEvent::SessionSwitched { session_id })) if session_id == "A"));
    let acts = step(&mut c, &mut h, NetworkMessage::Input { data: b"pwd\n".to_vec() });
    assert!(matches!(&acts[..], [Action::WriteSession { session_id, data }] if session_id == "A" && data == b"pwd\n"));
    let acts = step(&mut c, &mut h, session("B"));
    assert_eq!(acts.len(), 4);
    assert!(matches!(acts[0], Action::StopPump));
    assert!(matches!(&acts[1], Action::Send(NetworkMessage::SessionHistory { session_id, lines }) if session_id == "B" && lines.is_empty()));
    assert!(matches!(&acts[2], Action::StartPump { target: SessionKey::Uuid(s), .. } if s == "B"));
    assert!(matches!(&acts[3], Action::Send(NetworkMessage::Event(TerminalEvent::SessionSwitched { session_id })) if session_id == "B"));
}

#[test]
fn check_and_switch_unknown_session() {
    let mut h = host();
    let mut c = Connection::new(false, "/bin/sh".to_string());
    let token = h.token;
    step(&mut c, &mut h, hello(Some(token)));
    let acts = step(&mut c, &mut h, NetworkMessage::Session(SessionMessage::CheckSession { session_id: "Z".to_string() }));
    assert!(matches!(&acts[..], [Action::Send(NetworkMessage::Event(TerminalEvent::SessionNotFound { .. }))]));
    let acts = step(&mut c, &mut h, session("Z"));
    assert!(matches!(&acts[..], [Action::Send(NetworkMessage::Event(TerminalEvent::SessionNotFound { .. }))]));
    h.sessions.insert_session("Z".to_string(), 3, "/".to_string());
    let acts = step(&mut c, &mut h, NetworkMessage::Session(SessionMessage::CheckSession { session_id: "Z".to_string() }));
    assert!(matches!(&acts[..], [Action::Send(NetworkMessage::Event(TerminalEvent::SessionReAttach { .. }))]));
}

#[test]
fn close_active_session_stops_its_pump() {
    let mut h = host();
    let mut c = Connection::new(false, "/bin/sh".to_string());
    let token = h.token;
    step(&mut c, &mut h, hello(Some(token)));
    h.sessions.insert_session("A".to_string(), 3, "/".to_string());
    step(&mut c, &mut h, session("A"));
    let acts = step(&mut c, &mut h, NetworkMessage::Session(SessionMessage::CloseSession { session_id: "A".to_string() }));
    assert!(matches!(&acts[..], [Action::StopPump, Action::CloseSession { session_id }] if session_id == "A"));
    let acts = c.on_session_closed("A".to_string(), Ok(()));
    assert!(matches!(&acts[..], [Action::Send(NetworkMessage::Event(TerminalEvent::SessionClosed { .. }))]));
    let acts = step(&mut c, &mut h, NetworkMessage::Input { data: b"x".to_vec() });
    assert!(matches!(&acts[..], [Action::SpawnLegacy(_)]));
}

#[test]
fn list_sessions_text() {
    let mut h = host();
    let mut c = Connection::new(false, "/bin/sh".to_string());
    let token = h.token;
    step(&mut c, &mut h, hello(Some(token)));
    h.sessions.insert_session("A".to_string(), 1, "/".to_string());
    h.sessions.insert_session("B".to_string(), 2, "/".to_string());
    let acts = step(&mut c, &mut h, NetworkMessage::Session(SessionMessage::ListSessions));
    assert!(matches!(&acts[..], [Action::Send(NetworkMessage::Event(TerminalEvent::Output { data }))]
        if data == b"Active sessions:\nA\nB"));
}

#[test]
fn ping_is_answered_with_same_timestamp() {
    let mut h = host();
    let mut c = Connection::new(false, "/bin/sh".to_string());
    let token = h.token;
    step(&mut c, &mut h, hello(Some(token)));
    let acts = step(&mut c, &mut h, NetworkMessage::Ping { timestamp: 42 });
    assert!(matches!(&acts[..], [Action::Send(NetworkMessage::Pong { timestamp: 42 })]));
}

#[test]
fn graceful_close_then_fresh_stream() {
    let mut h = host();
    let mut c = Connection::new(false, "/bin/sh".to_string());
    let token = h.token;
    step(&mut c, &mut h, hello(Some(token)));
    step(&mut c, &mut h, NetworkMessage::resize(50, 160));
    let acts = step(&mut c, &mut h, NetworkMessage::Command(TerminalCommand::new("echo hi\n".to_string())));
    match &acts[..] {
        [Action::SpawnLegacy(cfg)] => {
            assert_eq!((cfg.rows, cfg.cols), (50, 160));
            assert!(cfg.env.contains(&("PROMPT_EOL_MARK".to_string(), String::new())));
        }
        other => panic!("unexpected {:?}", other),
    }
    let acts = c.on_legacy_spawned(Some(5));
    assert!(matches!(&acts[0], Action::ResizeLegacy { id: 5, rows: 50, cols: 160 }));
    let acts = step(&mut c, &mut h, NetworkMessage::Close);
    assert!(matches!(&acts[..], [Action::StopPump, Action::CloseLegacy { id: 5 }, Action::Finish]));
    assert!(step(&mut c, &mut h, NetworkMessage::Ping { timestamp: 1 }).is_empty());
    let mut c2 = Connection::new(false, "/bin/sh".to_string());
    let acts = step(&mut c2, &mut h, hello(Some(token)));
    assert_eq!(acts.len(), 1);
    assert!(is_server_hello(&acts[0]));
}

#[test]
fn end_of_stream_cleans_up() {
    let mut h = host();
    let mut c = Connection::new(false, "/bin/sh".to_string());
    let token = h.token;
    step(&mut c, &mut h, hello(Some(token)));
    step(&mut c, &mut h, NetworkMessage::Input { data: b"a".to_vec() });
    step(&mut c, &mut h, NetworkMessage::Input { data: b"b".to_vec() });
    let acts = c.on_legacy_spawned(Some(9));
    assert!(matches!(&acts[..], [Action::StartPump { .. }, Action::WriteLegacy { id: 9, data }] if data == b"ab"));
    let acts = c.on_end();
    assert!(matches!(&acts[..], [Action::StopPump, Action::CloseLegacy { id: 9 }, Action::Finish]));
    assert!(c.on_end().is_empty());
}

#[test]
fn missing_project_path_ends_stream() {
    let mut h = host();
    let mut c = Connection::new(false, "/bin/sh".to_string());
    let token = h.token;
    step(&mut c, &mut h, hello(Some(token)));
    let acts = c.on_session_created("A".to_string(), "/nope".to_string(), CreateOutcome::PathMissing);
    assert!(matches!(&acts[0], Action::Send(NetworkMessage::Event(TerminalEvent::Error { message }))
        if message == "Project path not found: /nope"));
    assert!(matches!(acts.last(), Some(Action::Finish)));
}

#[test]
fn watch_dir_gets_watcher_id() {
    let mut h = host();
    let mut c = Connection::new(false, "/bin/sh".to_string());
    let token = h.token;
    step(&mut c, &mut h, hello(Some(token)));
    let acts = step(&mut c, &mut h, NetworkMessage::WatchDir { path: "/tmp".to_string() });
    assert!(matches!(&acts[..], [Action::WatchDir { watcher_id, .. }] if watcher_id == "watch_0"));
}

#[test]
fn unrequested_terminal_is_closed() {
    let mut h = host();
    let mut c = Connection::new(false, "/bin/sh".to_string());
    let token = h.token;
    step(&mut c, &mut h, hello(Some(token)));
    let acts = c.on_legacy_spawned(Some(4));
    assert!(matches!(&acts[..], [Action::CloseLegacy { id: 4 }]));
}

#[test]
fn failed_spawn_is_reported() {
    let mut h = host();
    let mut c = Connection::new(false, "/bin/sh".to_string());
    let token = h.token;
    step(&mut c, &mut h, hello(Some(token)));
    step(&mut c, &mut h, NetworkMessage::Input { data: b"x".to_vec() });
    let acts = c.on_legacy_spawned(None);
    assert!(matches!(&acts[..], [Action::Send(NetworkMessage::Event(TerminalEvent::Error { .. }))]));
}

#[test]
fn close_also_closes_the_active_session() {
    let mut h = host();
    let mut c = Connection::new(false, "/bin/sh".to_string());
    let token = h.token;
    step(&mut c, &mut h, hello(Some(token)));
    h.sessions.insert_session("A".to_string(), 3, "/".to_string());
    step(&mut c, &mut h, session("A"));
    let acts = step(&mut c, &mut h, NetworkMessage::Close);
    assert!(matches!(&acts[..], [Action::StopPump, Action::CloseSession { session_id }, Action::Finish] if session_id == "A"));
}

#[test]
fn command_text_is_routed_like_input() {
    let mut h = host();
    let mut c = Connection::new(false, "/bin/sh".to_string());
    let token = h.token;
    step(&mut c, &mut h, hello(Some(token)));
    h.sessions.insert_session("A".to_string(), 3, "/".to_string());
    step(&mut c, &mut h, session("A"));
    let cmd = TerminalCommand { id: 1, text: "ls\n".to_string(), timestamp: 2 };
    let acts = step(&mut c, &mut h, NetworkMessage::Command(cmd));
    assert!(matches!(&acts[..], [Action::WriteSession { session_id, data }] if session_id == "A" && data == b"ls\n"));
}

#[test]
fn refused_stream_looks_like_failed_hello() {
    let mut c = Connection::new(false, "/bin/sh".to_string());
    let acts = c.refuse();
    assert_eq!(acts.len(), 2);
    assert!(is_server_hello(&acts[0]));
    assert!(matches!(acts[1], Action::Finish));
}

#[test]
fn failed_hello_emits_nothing_else() {
    let mut h = host();
    let mut c = Connection::new(false, "/bin/sh".to_string());
    let acts = step(&mut c, &mut h, hello(Some(AuthToken::from_bytes([9; 32]))));
    assert_eq!(acts.len(), 2);
    match &acts[0] {
        Action::Send(NetworkMessage::Hello { protocol_version, app_version, capabilities, auth_token }) => {
            assert_eq!((*protocol_version, app_version.as_str(), *capabilities), (1, "0.1.0-mvp", 0));
            assert!(auth_token.is_none());
        }
        other => panic!("unexpected {:?}", other),
    }
    assert!(matches!(acts[1], Action::Finish));
}

#[test]
fn start_shell_only_once_and_allocation_failure_reported() {
    let mut h = host();
    let mut c = Connection::new(true, "/bin/sh".to_string());
    let token = h.token;
    step(&mut c, &mut h, hello(Some(token)));
    assert!(step(&mut c, &mut h, NetworkMessage::start_shell()).is_empty());
    step(&mut c, &mut h, NetworkMessage::request_pty(30, 100));
    let acts = c.on_pty_allocated(None);
    assert!(matches!(&acts[..], [Action::Send(NetworkMessage::Event(TerminalEvent::Error { .. }))]));
    assert!(step(&mut c, &mut h, NetworkMessage::start_shell()).is_empty());
}

#[test]
fn input_queued_during_spawn_is_written() {
    let mut h = host();
    let mut c = Connection::new(false, "/bin/sh".to_string());
    let token = h.token;
    step(&mut c, &mut h, hello(Some(token)));
    step(&mut c, &mut h, NetworkMessage::resize(40, 120));
    step(&mut c, &mut h, NetworkMessage::Input { data: b"ls".to_vec() });
    assert!(step(&mut c, &mut h, NetworkMessage::Input { data: b"\n".to_vec() }).is_empty());
    let acts = c.on_legacy_spawned(Some(2));
    assert!(matches!(&acts[..], [
        Action::ResizeLegacy { id: 2, rows: 40, cols: 120 },
        Action::StartPump { target: SessionKey::Legacy(2), kind: PumpKind::Basic },
        Action::WriteLegacy { id: 2, data },
    ] if data == b"ls\n"));
}
