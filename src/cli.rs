//! Command-line arguments, as plain values.

use vstd::prelude::*;

verus! {

/// What the program is asked to run.
#[derive(Debug, Clone, Copy, PartialEq, Eq)]
pub enum Command {
    /// The navigation panel, inside the multiplexer.
    Panel,
    /// The top bar, inside the multiplexer.
    TopBar,
}

/// The command line: the web client forced on or off, and what to run.
#[derive(Debug, Clone, Copy, PartialEq, Eq)]
pub struct Cli {
    pub web: bool,
    pub no_web: bool,
    pub command: Option<Command>,
}

impl Cli {
    /// Whether the web client starts: forced on, else forced off, else as
    /// the configuration's `auto_start` says.
    pub fn web_client_enabled(&self, auto_start: bool) -> (r: bool)
        ensures
            r == if self.web {
                true
            } else if self.no_web {
                false
            } else {
                auto_start
            },
    {
        if self.web {
            true
        } else if self.no_web {
            false
        } else {
            auto_start
        }
    }
}

} // verus!
