use comacode::auth::AuthToken;
use comacode::types::{NetworkMessage, QrPayload, TerminalCommand, TerminalEvent};
use comacode::{CoreError, APP_VERSION_STRING, PROTOCOL_VERSION};

#[test]
fn test_version_constants_defined() {
    assert_eq!(PROTOCOL_VERSION, 1);
    assert!(APP_VERSION_STRING.starts_with("0.1.0"));
}

#[test]
fn test_command_creation() {
    let cmd = TerminalCommand::new("ls -la".to_string());
    assert_eq!(cmd.text, "ls -la");
    assert!(cmd.id > 0);
    assert!(cmd.timestamp > 0);
}

#[test]
fn test_event_output() {
    let event = TerminalEvent::output_str("Hello, World!");
    assert_eq!(event, TerminalEvent::Output { data: b"Hello, World!".to_vec() });
}

#[test]
fn test_message_creation() {
    let msg = NetworkMessage::hello(None);
    assert!(matches!(msg, NetworkMessage::Hello { .. }));
}

#[test]
fn test_message_with_token() {
    let token = AuthToken::generate();
    let msg = NetworkMessage::hello(Some(token));
    assert!(matches!(msg, NetworkMessage::Hello { .. }));
}

#[test]
fn test_handshake_validation_valid() {
    let msg = NetworkMessage::hello(None);
    assert!(msg.validate_handshake().is_ok());
}

#[test]
fn test_handshake_validation_invalid_version() {
    let msg = NetworkMessage::Hello {
        protocol_version: 999,
        app_version: "0.0.0".to_string(),
        capabilities: 0,
        auth_token: None,
    };
    let result = msg.validate_handshake();
    assert!(result.is_err());
    match result.unwrap_err() {
        CoreError::ProtocolVersionMismatch { expected, got } => {
            assert_eq!(expected, 1);
            assert_eq!(got, 999);
        }
        _ => panic!("Expected ProtocolVersionMismatch error"),
    }
}

#[test]
fn test_handshake_validation_invalid_message_type() {
    let msg = NetworkMessage::Ping { timestamp: 0 };
    let result = msg.validate_handshake();
    assert!(matches!(result.unwrap_err(), CoreError::InvalidHandshake));
}

#[test]
fn test_request_snapshot() {
    let msg = NetworkMessage::request_snapshot();
    assert!(matches!(msg, NetworkMessage::RequestSnapshot));
}

#[test]
fn test_snapshot_messages() {
    let data = vec![1, 2, 3, 4];
    let msg = NetworkMessage::snapshot(data.clone(), 24, 80);
    assert!(matches!(msg, NetworkMessage::Snapshot { .. }));
    assert_eq!(msg, NetworkMessage::Snapshot { data, rows: 24, cols: 80 });
}

#[test]
fn test_request_pty_message() {
    let msg = NetworkMessage::request_pty(24, 80);
    assert!(matches!(msg, NetworkMessage::RequestPty { rows: 24, cols: 80, shell: None, .. }));
}

#[test]
fn test_request_pty_with_config_message() {
    let shell = Some("/bin/bash".to_string());
    let env = vec![("TERM".to_string(), "xterm-256color".to_string())];
    let msg = NetworkMessage::request_pty_with_config(24, 80, shell, env);
    assert!(matches!(msg, NetworkMessage::RequestPty { rows: 24, cols: 80, .. }));
}

#[test]
fn test_start_shell_message() {
    let msg = NetworkMessage::start_shell();
    assert!(matches!(msg, NetworkMessage::StartShell));
}

#[test]
fn test_qr_payload_creation() {
    let payload = QrPayload::new(
        "192.168.1.1".to_string(),
        8443,
        "AA:BB:CC:DD".to_string(),
        "deadbeef".to_string(),
    );
    assert_eq!(payload.ip, "192.168.1.1");
    assert_eq!(payload.port, 8443);
    assert_eq!(payload.fingerprint, "AA:BB:CC:DD");
    assert_eq!(payload.token, "deadbeef");
    assert_eq!(payload.protocol_version, PROTOCOL_VERSION);
}

#[test]
fn hello_carries_protocol_and_app_version() {
    match NetworkMessage::hello(None) {
        NetworkMessage::Hello { protocol_version, app_version, capabilities, auth_token } => {
            assert_eq!(protocol_version, 1);
            assert_eq!(app_version, "0.1.0-mvp");
            assert_eq!(capabilities, 0);
            assert!(auth_token.is_none());
        }
        _ => panic!("not a hello"),
    }
}

#[test]
fn pong_echoes_timestamp() {
    assert_eq!(NetworkMessage::pong(42), NetworkMessage::Pong { timestamp: 42 });
}

#[test]
fn event_constructors() {
    assert_eq!(TerminalEvent::exit(3), TerminalEvent::Exit { code: 3 });
    assert_eq!(TerminalEvent::resized(40, 120), TerminalEvent::Resized { rows: 40, cols: 120 });
    assert_eq!(
        TerminalEvent::session_switched("A".to_string()),
        TerminalEvent::SessionSwitched { session_id: "A".to_string() }
    );
    assert_eq!(
        TerminalEvent::error("boom".to_string()),
        TerminalEvent::Error { message: "boom".to_string() }
    );
}

#[test]
fn ping_is_stamped() {
    assert!(matches!(NetworkMessage::ping(), NetworkMessage::Ping { timestamp } if timestamp > 0));
}
