use comacode::config::{reconnect_config, BufferConfig, ReconnectConfig, TerminalConfig};
use comacode::terminal::{MockTerminal, Terminal};
use std::time::Duration;

#[test]
fn test_terminal_config() {
    let config = TerminalConfig::with_size(40, 120)
        .with_shell("/bin/zsh".to_string())
        .with_env("TEST".to_string(), "value".to_string());
    assert_eq!(config.rows, 40);
    assert_eq!(config.cols, 120);
    assert_eq!(config.shell, "/bin/zsh");
    assert_eq!(config.env.len(), 2);
}

#[test]
fn default_terminal_config() {
    let config = TerminalConfig::default();
    assert_eq!((config.rows, config.cols), (24, 80));
    assert_eq!(config.shell, "/bin/bash");
    assert_eq!(config.env, vec![("TERM".to_string(), "xterm-256color".to_string())]);
}

#[test]
fn test_reconnect_config_default() {
    let config = ReconnectConfig::default();
    assert_eq!(config.max_backoff, Duration::from_secs(30));
    assert_eq!(config.initial_backoff, Duration::from_secs(1));
    assert_eq!(config.max_attempts, Some(10));
}

#[test]
fn test_reconnect_config_custom() {
    let config = reconnect_config(Duration::from_secs(60), Duration::from_secs(2), Some(5));
    assert_eq!(config.max_backoff, Duration::from_secs(60));
    assert_eq!(config.initial_backoff, Duration::from_secs(2));
    assert_eq!(config.max_attempts, Some(5));
}

#[test]
fn test_reconnect_config_infinite_attempts() {
    let config = reconnect_config(Duration::from_secs(30), Duration::from_secs(1), None);
    assert_eq!(config.max_attempts, None);
}

#[test]
fn buffer_presets() {
    let d = BufferConfig::default();
    assert_eq!((d.max_batch_size, d.max_flush_delay_ms, d.flush_on_newline), (16384, 10, true));
    let i = BufferConfig::interactive();
    assert_eq!((i.max_batch_size, i.max_flush_delay_ms, i.flush_on_newline), (4096, 5, true));
    let b = BufferConfig::bulk();
    assert_eq!((b.max_batch_size, b.max_flush_delay_ms, b.flush_on_newline), (65536, 50, false));
}

#[test]
fn test_mock_terminal() {
    let mut term = MockTerminal::new(TerminalConfig::default());
    assert_eq!(term.size().unwrap(), (24, 80));
    term.resize(40, 120).unwrap();
    assert_eq!(term.size().unwrap(), (40, 120));
    term.write(b"test").unwrap();
    term.kill().unwrap();
}

#[test]
fn test_dead_terminal() {
    let mut term = MockTerminal::new(TerminalConfig::default());
    term.kill().unwrap();
    let result = term.write(b"test");
    assert!(result.is_err());
}

#[test]
fn test_get_snapshot() {
    let mut term = MockTerminal::new(TerminalConfig::default());
    let test_data = b"Terminal snapshot data".to_vec();
    term.set_snapshot_data(test_data.clone());
    let (data, rows, cols) = term.get_snapshot().unwrap();
    assert_eq!(data, test_data);
    assert_eq!(rows, 24);
    assert_eq!(cols, 80);
}

#[test]
fn test_get_snapshot_dead_terminal() {
    let mut term = MockTerminal::new(TerminalConfig::default());
    term.kill().unwrap();
    let result = term.get_snapshot();
    assert!(result.is_err());
}

#[test]
fn killed_terminal_refuses_everything() {
    let mut term = MockTerminal::new(TerminalConfig::default());
    assert!(term.is_alive());
    term.kill().unwrap();
    term.kill().unwrap();
    assert!(!term.is_alive());
    assert!(term.write(b"x").is_err());
    assert!(term.read().is_err());
    assert!(term.resize(10, 10).is_err());
}

#[test]
fn dead_terminal_errors_are_terminal_errors() {
    let mut term = MockTerminal::new(TerminalConfig::with_size(10, 20));
    assert_eq!(term.size().unwrap(), (10, 20));
    term.kill().unwrap();
    assert!(matches!(term.read(), Err(comacode::CoreError::Terminal(_))));
    assert!(matches!(term.get_snapshot(), Err(comacode::CoreError::Terminal(_))));
    assert_eq!(term.size().unwrap(), (10, 20));
}
