//! What a run is asked to do.

use vstd::prelude::*;
use vstd::string::{StrSliceExecFns, StringExecFns};
use crate::pattern::{compile, compiled_pattern};

verus! {

/// Why a configuration was refused.
#[derive(Debug, Clone, PartialEq, Eq, Copy, Structural)]
pub enum ConfigError {
    /// No path of a log file is given.
    LogfileRequired,
    /// No pattern is given.
    PatternRequired,
    /// The interval is shorter than one minute.
    IntervalInvalid,
    /// The path stands for standard input.
    StdinUnsupported,
    /// The pattern is no regular expression.
    PatternInvalid,
}

impl ConfigError {
    /// The text shown for this error.
    pub open spec fn message_text(self) -> Seq<char> {
        match self {
            ConfigError::LogfileRequired => "no -logfile"@,
            ConfigError::PatternRequired => "no -pattern"@,
            ConfigError::IntervalInvalid => "interval needs to be set and be >= 1"@,
            ConfigError::StdinUnsupported => "stdin as path is not supported"@,
            ConfigError::PatternInvalid => "pattern is not a valid regular expression"@,
        }
    }

    /// The text shown for this error.
    pub fn message(self) -> (s: String)
        ensures
            s@ == self.message_text(),
    {
        match self {
            ConfigError::LogfileRequired => String::from_str("no -logfile"),
            ConfigError::PatternRequired => String::from_str("no -pattern"),
            ConfigError::IntervalInvalid => String::from_str(
                "interval needs to be set and be >= 1",
            ),
            ConfigError::StdinUnsupported => String::from_str("stdin as path is not supported"),
            ConfigError::PatternInvalid => String::from_str(
                "pattern is not a valid regular expression",
            ),
        }
    }
}

/// The date format used where none is given.
pub open spec fn default_date_pattern() -> Seq<char> {
    "%Y-%m-%d %H:%M:%S"@
}

/// The date format of a configuration that was asked for with the format
/// `given`: the default stands in for an empty one.
pub open spec fn effective_date_pattern(given: Seq<char>) -> Seq<char> {
    if given.len() == 0 {
        default_date_pattern()
    } else {
        given
    }
}

/// The path that stands for standard input.
pub open spec fn stdin_path() -> Seq<char> {
    seq!['-']
}

/// The error, if any, that refuses a configuration with these values. The
/// checks are made in this order.
pub open spec fn config_error(interval: u64, pattern: Seq<char>, logfile: Seq<char>) -> Option<
    ConfigError,
> {
    if logfile.len() == 0 {
        Some(ConfigError::LogfileRequired)
    } else if pattern.len() == 0 {
        Some(ConfigError::PatternRequired)
    } else if interval < 1 {
        Some(ConfigError::IntervalInvalid)
    } else if logfile == stdin_path() {
        Some(ConfigError::StdinUnsupported)
    } else if compiled_pattern(pattern) is None {
        Some(ConfigError::PatternInvalid)
    } else {
        None
    }
}

/// The settings of one run.
pub struct Config {
    /// Length of the window, in minutes.
    pub interval_to_check: u64,
    /// The pattern that a counted line must match.
    pub search_pattern: String,
    /// The path that the names of the log files begin with.
    pub logfile: String,
    pub max_critical_matches: u64,
    pub max_warning_matches: u64,
    /// The format of the date field.
    pub date_pattern: String,
    /// Index of the word at which the date field begins.
    pub timeposition: usize,
    pub debug: bool,
    pub verbose: bool,
    /// `search_pattern`, compiled.
    pub re: fancy_regex::Regex,
}

impl Config {
    /// Holds of every configuration that `new` hands out.
    pub open spec fn valid(&self) -> bool {
        &&& config_error(self.interval_to_check, self.search_pattern@, self.logfile@) is None
        &&& self.date_pattern@.len() > 0
        &&& compiled_pattern(self.search_pattern@) == Some(self.re)
    }

    /// Checks the values and compiles the pattern. An empty `date_pattern`
    /// stands for the default format.
    pub fn new(
        interval_to_check: u64,
        search_pattern: String,
        logfile: String,
        max_critical_matches: u64,
        max_warning_matches: u64,
        date_pattern: String,
        timeposition: usize,
        debug: bool,
        verbose: bool,
    ) -> (r: Result<Config, ConfigError>)
        ensures
            match r {
                Err(e) => config_error(interval_to_check, search_pattern@, logfile@) == Some(e),
                Ok(c) => {
                    &&& c.valid()
                    &&& c.interval_to_check == interval_to_check
                    &&& c.search_pattern == search_pattern
                    &&& c.logfile == logfile
                    &&& c.max_critical_matches == max_critical_matches
                    &&& c.max_warning_matches == max_warning_matches
                    &&& c.date_pattern@ == effective_date_pattern(date_pattern@)
                    &&& c.timeposition == timeposition
                    &&& c.debug == debug
                    &&& c.verbose == verbose
                },
            },
    {
        if logfile.as_str().is_empty() {
            return Err(ConfigError::LogfileRequired);
        }
        if search_pattern.as_str().is_empty() {
            return Err(ConfigError::PatternRequired);
        }
        if interval_to_check < 1 {
            return Err(ConfigError::IntervalInvalid);
        }
        if logfile.as_str().unicode_len() == 1 && logfile.as_str().get_char(0) == '-' {
            assert(logfile@ =~= stdin_path());
            return Err(ConfigError::StdinUnsupported);
        }
        let date_pattern = if date_pattern.as_str().is_empty() {
            proof {
                reveal_strlit("%Y-%m-%d %H:%M:%S");
            }
            String::from_str("%Y-%m-%d %H:%M:%S")
        } else {
            date_pattern
        };
        match compile(search_pattern.as_str()) {
            Err(_) => Err(ConfigError::PatternInvalid),
            Ok(re) => Ok(
                Config {
                    interval_to_check,
                    search_pattern,
                    logfile,
                    max_critical_matches,
                    max_warning_matches,
                    date_pattern,
                    timeposition,
                    debug,
                    verbose,
                    re,
                },
            ),
        }
    }
}

impl From<ConfigError> for String {
    fn from(error: ConfigError) -> (s: String)
        ensures
            s@ == error.message_text(),
    {
        error.message()
    }
}

impl vstd::std_specs::convert::FromSpecImpl<ConfigError> for String {
    open spec fn obeys_from_spec() -> bool {
        false
    }

    open spec fn from_spec(error: ConfigError) -> String {
        arbitrary()
    }
}

} // verus!
