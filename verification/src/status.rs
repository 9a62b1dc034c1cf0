//! The state that a run reports to the monitoring system.

use vstd::prelude::*;
use crate::config::Config;

verus! {

/// The state reported for a run.
#[derive(Debug, Clone, Copy, PartialEq, Eq, Structural)]
pub enum Status {
    /// Fewer matches than either threshold, and at least one file searched.
    Normal,
    /// The warning threshold is met.
    Warning,
    /// The critical threshold is met.
    Critical,
    /// No file was searched.
    Unknown,
}

/// The state for `matches` matches in `files_matched` files. The critical
/// threshold is looked at before the warning threshold, and the thresholds
/// before the number of files.
pub open spec fn status_of(matches: u64, files_matched: u64, max_critical: u64, max_warning: u64)
    -> Status {
    if matches >= max_critical {
        Status::Critical
    } else if matches >= max_warning {
        Status::Warning
    } else if files_matched == 0 {
        Status::Unknown
    } else {
        Status::Normal
    }
}

impl Status {
    /// The exit code that stands for this state.
    pub open spec fn code(self) -> int {
        match self {
            Status::Normal => 0,
            Status::Warning => 1,
            Status::Critical => 2,
            Status::Unknown => 3,
        }
    }

    /// The exit code that stands for this state.
    pub fn exit_code(self) -> (code: i32)
        ensures
            code == self.code(),
    {
        match self {
            Status::Normal => 0,
            Status::Warning => 1,
            Status::Critical => 2,
            Status::Unknown => 3,
        }
    }
}

/// Holds the totals of a run against the thresholds of `conf`.
pub fn assess(conf: &Config, matches: u64, files_matched: u64) -> (status: Status)
    ensures
        status == status_of(
            matches,
            files_matched,
            conf.max_critical_matches,
            conf.max_warning_matches,
        ),
{
    if matches >= conf.max_critical_matches {
        Status::Critical
    } else if matches >= conf.max_warning_matches {
        Status::Warning
    } else if files_matched == 0 {
        Status::Unknown
    } else {
        Status::Normal
    }
}

} // verus!
