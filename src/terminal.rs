//! Terminal abstraction and an in-memory terminal for tests.

use vstd::prelude::*;
use crate::config::TerminalConfig;
use crate::error::CoreError;
use crate::types::TerminalEvent;

verus! {

/// A pseudo-terminal as the host drives it. Once killed, a terminal stays
/// dead and refuses input, output and resizing.
pub trait Terminal {
    /// Whether the child process is still running.
    spec fn alive(&self) -> bool;

    /// Current size, rows then columns.
    spec fn dims(&self) -> (u16, u16);

    /// Screen contents a snapshot returns.
    spec fn screen(&self) -> Seq<u8>;

    fn write(&mut self, data: &[u8]) -> (r: Result<(), CoreError>)
        ensures
            !old(self).alive() ==> r matches Err(CoreError::Terminal(_)),
            final(self).alive() == old(self).alive(),
            final(self).dims() == old(self).dims(),
            final(self).screen() == old(self).screen();

    fn read(&mut self) -> (r: Result<TerminalEvent, CoreError>)
        ensures
            !old(self).alive() ==> r matches Err(CoreError::Terminal(_)),
            final(self).alive() == old(self).alive(),
            final(self).dims() == old(self).dims(),
            final(self).screen() == old(self).screen();

    fn resize(&mut self, rows: u16, cols: u16) -> (r: Result<(), CoreError>)
        ensures
            !old(self).alive() ==> r matches Err(CoreError::Terminal(_)),
            final(self).alive() == old(self).alive(),
            r is Ok ==> final(self).dims() == (rows, cols),
            r is Err ==> final(self).dims() == old(self).dims(),
            final(self).screen() == old(self).screen();

    /// Stops the child; killing twice is harmless.
    fn kill(&mut self) -> (r: Result<(), CoreError>)
        ensures
            !final(self).alive(),
            final(self).dims() == old(self).dims(),
            final(self).screen() == old(self).screen();

    fn is_alive(&self) -> (r: bool)
        ensures
            r == self.alive();

    fn size(&self) -> (r: Result<(u16, u16), CoreError>)
        ensures
            r == Ok::<(u16, u16), CoreError>(self.dims());

    /// Raw screen contents and size.
    fn get_snapshot(&self) -> (r: Result<(Vec<u8>, u16, u16), CoreError>)
        ensures
            !self.alive() ==> r matches Err(CoreError::Terminal(_)),
            self.alive() ==> (r matches Ok((data, rows, cols)) && data@ == self.screen() && (rows, cols)
                == self.dims());
}

/// A terminal that accepts everything and produces empty output.
pub struct MockTerminal {
    config: TerminalConfig,
    alive: bool,
    snapshot_data: Vec<u8>,
}

impl MockTerminal {
    /// A live terminal of the given configuration.
    pub fn new(config: TerminalConfig) -> (t: MockTerminal)
        ensures
            t.alive(),
            t.dims() == (config.rows, config.cols),
            t.screen().len() == 0,
    {
        MockTerminal { config, alive: true, snapshot_data: Vec::new() }
    }

    /// Sets what `get_snapshot` returns.
    pub fn set_snapshot_data(&mut self, data: Vec<u8>)
        ensures
            final(self).screen() == data@,
            final(self).alive() == old(self).alive(),
            final(self).dims() == old(self).dims(),
    {
        self.snapshot_data = data;
    }
}

impl Terminal for MockTerminal {
    closed spec fn alive(&self) -> bool {
        self.alive
    }

    closed spec fn dims(&self) -> (u16, u16) {
        (self.config.rows, self.config.cols)
    }

    closed spec fn screen(&self) -> Seq<u8> {
        self.snapshot_data@
    }

    fn write(&mut self, data: &[u8]) -> (r: Result<(), CoreError>) {
        if !self.alive {
            return Err(CoreError::Terminal(String::from_str("Terminal is dead")));
        }
        Ok(())
    }

    fn read(&mut self) -> (r: Result<TerminalEvent, CoreError>) {
        if !self.alive {
            return Err(CoreError::Terminal(String::from_str("Terminal is dead")));
        }
        Ok(TerminalEvent::output(Vec::new()))
    }

    fn resize(&mut self, rows: u16, cols: u16) -> (r: Result<(), CoreError>) {
        if !self.alive {
            return Err(CoreError::Terminal(String::from_str("Terminal is dead")));
        }
        self.config.rows = rows;
        self.config.cols = cols;
        Ok(())
    }

    fn kill(&mut self) -> (r: Result<(), CoreError>) {
        self.alive = false;
        Ok(())
    }

    fn is_alive(&self) -> (r: bool) {
        self.alive
    }

    fn size(&self) -> Result<(u16, u16), CoreError> {
        Ok((self.config.rows, self.config.cols))
    }

    fn get_snapshot(&self) -> (r: Result<(Vec<u8>, u16, u16), CoreError>) {
        if !self.alive {
            return Err(CoreError::Terminal(String::from_str("Terminal is dead")));
        }
        Ok((self.snapshot_data.clone(), self.config.rows, self.config.cols))
    }
}

} // verus!
