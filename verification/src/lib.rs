//! Counts the lines of time-stamped log files that fall inside a trailing
//! time window and match a regular expression.
//!
//! A file is scanned from its newest line backwards, and the scan stops at
//! the first line that is older than the window: log files grow in the order
//! of time, so nothing before that line can lie in the window.
//!
//! The library works on bytes and numbers. Reading the clock, the time zone
//! and the files is the caller's part.

pub mod args;
pub mod config;
pub mod dates;
pub mod evaluator;
pub mod orchestrator;
pub mod pattern;
pub mod processor;
pub mod scanner;
pub mod status;
pub mod text;
pub mod window;

pub use config::{Config, ConfigError};
pub use orchestrator::{run, LogFile};
