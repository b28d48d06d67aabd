//! Terminal, output-batching and reconnection settings.

use vstd::prelude::*;
use std::time::Duration;

verus! {

/// Shell started when none is configured.
pub const FALLBACK_SHELL: &'static str = "/bin/bash";

/// Terminal type announced to the shell.
pub const DEFAULT_TERM: &'static str = "xterm-256color";

/// Size, shell and environment of a pseudo-terminal.
#[derive(Debug, Clone)]
pub struct TerminalConfig {
    pub rows: u16,
    pub cols: u16,
    /// Shell command to run.
    pub shell: String,
    /// Environment variables, in the order they are set.
    pub env: Vec<(String, String)>,
}

/// The default environment: the terminal type only.
pub open spec fn default_env(env: Seq<(String, String)>) -> bool {
    env.len() == 1 && env[0].0@ == "TERM"@ && env[0].1@ == DEFAULT_TERM@
}

impl Default for TerminalConfig {
    /// 24 rows by 80 columns, the fallback shell, `TERM` set.
    fn default() -> (c: TerminalConfig)
        ensures
            c.rows == 24,
            c.cols == 80,
            c.shell@ == FALLBACK_SHELL@,
            default_env(c.env@),
    {
        let mut env: Vec<(String, String)> = Vec::new();
        env.push((String::from_str("TERM"), String::from_str(DEFAULT_TERM)));
        TerminalConfig { rows: 24, cols: 80, shell: String::from_str(FALLBACK_SHELL), env }
    }
}

impl TerminalConfig {
    /// The default configuration with the given size.
    pub fn with_size(rows: u16, cols: u16) -> (c: TerminalConfig)
        ensures
            c.rows == rows,
            c.cols == cols,
            c.shell@ == FALLBACK_SHELL@,
            default_env(c.env@),
    {
        let d = TerminalConfig::default();
        TerminalConfig { rows, cols, ..d }
    }

    /// The same configuration running `shell`.
    pub fn with_shell(self, shell: String) -> (c: TerminalConfig)
        ensures
            c.rows == self.rows,
            c.cols == self.cols,
            c.shell == shell,
            c.env == self.env,
    {
        let mut c = self;
        c.shell = shell;
        c
    }

    /// The same configuration with one more environment variable.
    pub fn with_env(self, key: String, value: String) -> (c: TerminalConfig)
        ensures
            c.rows == self.rows,
            c.cols == self.cols,
            c.shell == self.shell,
            c.env@ == self.env@.push((key, value)),
    {
        let mut c = self;
        c.env.push((key, value));
        c
    }
}

/// Batching of terminal output before it is framed and sent.
#[derive(Debug, Clone, Copy)]
pub struct BufferConfig {
    /// Batch size that forces a flush.
    pub max_batch_size: usize,
    /// Longest time the first byte of a batch may wait, in milliseconds.
    pub max_flush_delay_ms: u64,
    /// Flush as soon as a chunk holds a newline.
    pub flush_on_newline: bool,
}

impl Default for BufferConfig {
    /// 16 KiB, 10 ms, flush on newline.
    fn default() -> (c: BufferConfig)
        ensures
            c.max_batch_size == 16 * 1024,
            c.max_flush_delay_ms == 10,
            c.flush_on_newline,
    {
        BufferConfig { max_batch_size: 16 * 1024, max_flush_delay_ms: 10, flush_on_newline: true }
    }
}

impl BufferConfig {
    /// Low latency for typing: 4 KiB, 5 ms, flush on newline.
    pub fn interactive() -> (c: BufferConfig)
        ensures
            c.max_batch_size == 4 * 1024,
            c.max_flush_delay_ms == 5,
            c.flush_on_newline,
    {
        BufferConfig { max_batch_size: 4 * 1024, max_flush_delay_ms: 5, flush_on_newline: true }
    }

    /// Throughput for large output: 64 KiB, 50 ms, no newline flush.
    pub fn bulk() -> (c: BufferConfig)
        ensures
            c.max_batch_size == 64 * 1024,
            c.max_flush_delay_ms == 50,
            !c.flush_on_newline,
    {
        BufferConfig { max_batch_size: 64 * 1024, max_flush_delay_ms: 50, flush_on_newline: false }
    }
}

/// Relies on `Duration::from_secs`: a duration of whole seconds.
#[verifier::external_body]
fn seconds(n: u64) -> (d: Duration) {
    Duration::from_secs(n)
}

/// Back-off between reconnection attempts.
#[derive(Debug, Clone, Copy)]
pub struct ReconnectConfig {
    pub max_backoff: Duration,
    pub initial_backoff: Duration,
    /// `None` retries without end.
    pub max_attempts: Option<usize>,
}

impl Default for ReconnectConfig {
    /// 30 s ceiling, 1 s start, ten attempts.
    fn default() -> (c: ReconnectConfig)
        ensures
            c.max_attempts == Some(10usize),
    {
        ReconnectConfig { max_backoff: seconds(30), initial_backoff: seconds(1), max_attempts: Some(10) }
    }
}

/// A reconnection setting with the given values.
pub fn reconnect_config(
    max_backoff: Duration,
    initial_backoff: Duration,
    max_attempts: Option<usize>,
) -> (c: ReconnectConfig)
    ensures
        c.max_backoff == max_backoff,
        c.initial_backoff == initial_backoff,
        c.max_attempts == max_attempts,
{
    ReconnectConfig { max_backoff, initial_backoff, max_attempts }
}

} // verus!
