//! Logging configuration consumed by the event handlers.
//!
//! The values are read from the process environment by the surrounding
//! program and handed in as plain fields; the handlers only consult the two
//! derived predicates below.

use vstd::prelude::*;

verus! {

/// Switches that control how much diagnostic output the handlers emit.
#[derive(Debug, Clone)]
pub struct LogConfig {
    pub enable_detailed_logs: bool,
    pub log_level: String,
    pub log_events: bool,
}

impl LogConfig {
    /// Per-event logging is in effect only when detailed logging is also on.
    pub fn should_log_events(&self) -> (r: bool)
        ensures
            r == (self.log_events && self.enable_detailed_logs),
    {
        self.log_events && self.enable_detailed_logs
    }

    pub fn should_log_detailed(&self) -> (r: bool)
        ensures
            r == self.enable_detailed_logs,
    {
        self.enable_detailed_logs
    }
}

} // verus!
