//! The command line.
//!
//! Flags begin with a single dash. A flag that takes a value is followed by
//! it; what cannot be placed is passed over.

use vstd::prelude::*;
use vstd::string::{StrSliceExecFns, StringExecFns};
use vstd::std_specs::iter::IteratorSpec;
use crate::config::{default_date_pattern, Config, ConfigError};

verus! {

/// The value of the decimal digit `c`.
pub open spec fn digit_value(c: char) -> Option<int> {
    if 0x30 <= c as u32 <= 0x39 {
        Some((c as u32 - 0x30) as int)
    } else {
        None
    }
}

/// The number that the decimal digits `s` write; `None` where a character
/// of `s` is no digit.
pub open spec fn decimal_value(s: Seq<char>) -> Option<int>
    decreases s.len(),
{
    if s.len() == 0 {
        Some(0)
    } else {
        match (decimal_value(s.drop_last()), digit_value(s.last())) {
            (Some(value), Some(digit)) => Some(10 * value + digit),
            _ => None,
        }
    }
}

/// `s` without a plus sign in front.
pub open spec fn unsigned_digits(s: Seq<char>) -> Seq<char> {
    if s.len() > 0 && s[0] == '+' {
        s.drop_first()
    } else {
        s
    }
}

/// The number up to `max` that `s` writes: one or more decimal digits, with
/// a plus sign allowed in front.
pub open spec fn unsigned_number(s: Seq<char>, max: int) -> Option<int> {
    match decimal_value(unsigned_digits(s)) {
        Some(value) => if unsigned_digits(s).len() > 0 && value <= max {
            Some(value)
        } else {
            None
        },
        None => None,
    }
}

/// Digits that follow a number do not make it smaller, and nothing that
/// follows a character that is no digit makes a number.
pub proof fn lemma_decimal_prefix(s: Seq<char>, k: int)
    requires
        0 <= k <= s.len(),
    ensures
        decimal_value(s.take(k)) is None ==> decimal_value(s) is None,
        decimal_value(s.take(k)) matches Some(head) ==> (decimal_value(s) matches Some(all)
            ==> 0 <= head <= all),
    decreases s.len() - k,
{
    if k == s.len() {
        assert(s.take(k) == s);
        lemma_decimal_nonnegative(s);
    } else {
        lemma_decimal_prefix(s, k + 1);
        assert(s.take(k + 1).drop_last() == s.take(k));
    }
}

/// A number written in digits is not negative.
pub proof fn lemma_decimal_nonnegative(s: Seq<char>)
    ensures
        decimal_value(s) matches Some(value) ==> value >= 0,
    decreases s.len(),
{
    if s.len() > 0 {
        lemma_decimal_nonnegative(s.drop_last());
    }
}

/// Reads `text` as an unsigned number.
pub fn parse_number(text: &str) -> (number: Option<u64>)
    ensures
        match number {
            Some(value) => unsigned_number(text@, u64::MAX as int) == Some(value as int),
            None => unsigned_number(text@, u64::MAX as int) is None,
        },
{
    let len = text.unicode_len();
    let mut chars = text.chars();
    let mut i: usize = 0;
    let mut value: u64 = 0;
    let ghost digits = unsigned_digits(text@);
    let ghost skipped: int = text@.len() - digits.len();
    if len > 0 && text.get_char(0) == '+' {
        let _ = chars.next();
        i = 1;
    }
    if i == len {
        return None;
    }
    while i < len
        invariant
            chars.obeys_prophetic_iter_laws(),
            chars.remaining() == text@.skip(i as int),
            len == text@.len(),
            digits == unsigned_digits(text@),
            skipped == text@.len() - digits.len(),
            skipped <= i <= len,
            digits.len() > 0,
            decimal_value(digits.take(i - skipped)) == Some(value as int),
        decreases len - i,
    {
        let c = match chars.next() {
            Some(c) => c,
            None => {
                return None;
            },
        };
        proof {
            assert(digits.take(i - skipped + 1).drop_last() == digits.take(i - skipped));
            lemma_decimal_prefix(digits, i - skipped + 1);
        }
        let code = c as u32;
        if code < 0x30 || code > 0x39 {
            return None;
        }
        let digit = (code - 0x30) as u64;
        value = match value.checked_mul(10) {
            None => {
                return None;
            },
            Some(tens) => match tens.checked_add(digit) {
                None => {
                    return None;
                },
                Some(sum) => sum,
            },
        };
        i += 1;
    }
    proof {
        assert(digits.take(i - skipped) == digits);
    }
    Some(value)
}

/// Reads `text` as an index.
pub fn parse_index(text: &str) -> (index: Option<usize>)
    ensures
        match index {
            Some(value) => unsigned_number(text@, usize::MAX as int) == Some(value as int),
            None => unsigned_number(text@, usize::MAX as int) is None,
        },
{
    match parse_number(text) {
        Some(value) => if value <= usize::MAX as u64 {
            Some(value as usize)
        } else {
            None
        },
        None => None,
    }
}

/// The flags whose value is a number.
#[derive(Debug, Clone, Copy, PartialEq, Eq, Structural)]
pub enum NumberFlag {
    /// `-i`, `-interval`
    Interval,
    /// `-w`, `-warning`
    Warning,
    /// `-c`, `-critical`
    Critical,
    /// `-timeposition`
    Timeposition,
}

/// The settings as the command line gives them.
pub struct Arguments {
    pub interval_to_check: u64,
    pub search_pattern: String,
    pub logfile: String,
    pub max_critical_matches: u64,
    pub max_warning_matches: u64,
    pub date_pattern: String,
    pub timeposition: usize,
    pub debug: bool,
    pub verbose: bool,
}

/// The settings of the command line, their texts as sequences.
pub struct ArgumentsView {
    pub interval_to_check: u64,
    pub search_pattern: Seq<char>,
    pub logfile: Seq<char>,
    pub max_critical_matches: u64,
    pub max_warning_matches: u64,
    pub date_pattern: Seq<char>,
    pub timeposition: usize,
    pub debug: bool,
    pub verbose: bool,
}

impl View for Arguments {
    type V = ArgumentsView;

    open spec fn view(&self) -> ArgumentsView {
        ArgumentsView {
            interval_to_check: self.interval_to_check,
            search_pattern: self.search_pattern@,
            logfile: self.logfile@,
            max_critical_matches: self.max_critical_matches,
            max_warning_matches: self.max_warning_matches,
            date_pattern: self.date_pattern@,
            timeposition: self.timeposition,
            debug: self.debug,
            verbose: self.verbose,
        }
    }
}

/// What the command line asks for.
pub enum Request {
    /// Show how the program is used.
    Usage,
    /// Show the version of the program.
    Version,
    /// The value given for a flag is no number.
    NotANumber(NumberFlag, String),
    /// Run with these settings.
    Run(Arguments),
}

/// What the command line asks for, its texts as sequences.
pub enum RequestView {
    Usage,
    Version,
    NotANumber(NumberFlag, Seq<char>),
    Run(ArgumentsView),
}

impl View for Request {
    type V = RequestView;

    open spec fn view(&self) -> RequestView {
        match self {
            Request::Usage => RequestView::Usage,
            Request::Version => RequestView::Version,
            Request::NotANumber(flag, value) => RequestView::NotANumber(*flag, value@),
            Request::Run(arguments) => RequestView::Run(arguments@),
        }
    }
}

/// The settings before any argument is read.
pub open spec fn initial_arguments() -> ArgumentsView {
    ArgumentsView {
        interval_to_check: 0,
        search_pattern: Seq::empty(),
        logfile: Seq::empty(),
        max_critical_matches: 1,
        max_warning_matches: 1,
        date_pattern: default_date_pattern(),
        timeposition: 0,
        debug: false,
        verbose: false,
    }
}

/// The flag with a number for its value that `flag` names, if it names one.
pub open spec fn number_flag(flag: Seq<char>) -> Option<NumberFlag> {
    if flag == "-i"@ || flag == "-interval"@ {
        Some(NumberFlag::Interval)
    } else if flag == "-w"@ || flag == "-warning"@ {
        Some(NumberFlag::Warning)
    } else if flag == "-c"@ || flag == "-critical"@ {
        Some(NumberFlag::Critical)
    } else if flag == "-timeposition"@ {
        Some(NumberFlag::Timeposition)
    } else {
        None
    }
}

/// The greatest value of a number flag.
pub open spec fn greatest(flag: NumberFlag) -> int {
    match flag {
        NumberFlag::Timeposition => usize::MAX as int,
        _ => u64::MAX as int,
    }
}

/// The settings `before` with the number `value` for `flag`.
pub open spec fn with_number(before: ArgumentsView, flag: NumberFlag, value: int) -> ArgumentsView {
    match flag {
        NumberFlag::Interval => ArgumentsView { interval_to_check: value as u64, ..before },
        NumberFlag::Warning => ArgumentsView { max_warning_matches: value as u64, ..before },
        NumberFlag::Critical => ArgumentsView { max_critical_matches: value as u64, ..before },
        NumberFlag::Timeposition => ArgumentsView { timeposition: value as usize, ..before },
    }
}

/// The settings after the argument `value`, which stands behind the
/// argument `prior`; the request that ends the reading where `value` is
/// to be a number and is none.
pub open spec fn with_value(before: ArgumentsView, prior: Seq<char>, value: Seq<char>) -> Result<
    ArgumentsView,
    RequestView,
> {
    if prior == "-l"@ || prior == "-logfile"@ {
        Ok(ArgumentsView { logfile: value, ..before })
    } else if prior == "-p"@ || prior == "-pattern"@ {
        Ok(ArgumentsView { search_pattern: value, ..before })
    } else if prior == "-timepattern"@ {
        Ok(ArgumentsView { date_pattern: value, ..before })
    } else {
        match number_flag(prior) {
            None => Ok(before),
            Some(flag) => match unsigned_number(value, greatest(flag)) {
                Some(number) => Ok(with_number(before, flag, number)),
                None => Err(RequestView::NotANumber(flag, value)),
            },
        }
    }
}

/// What the arguments `args` ask for, read with the settings `before` and
/// behind the argument `prior`. The first argument that ends the reading
/// decides.
pub open spec fn request_from(args: Seq<Seq<char>>, before: ArgumentsView, prior: Seq<char>)
    -> RequestView
    decreases args.len(),
{
    if args.len() == 0 {
        RequestView::Run(before)
    } else {
        let arg = args[0];
        let rest = args.drop_first();
        if arg == "-h"@ || arg == "-help"@ {
            RequestView::Usage
        } else if arg == "-version"@ {
            RequestView::Version
        } else if arg == "-d"@ || arg == "-debug"@ {
            request_from(rest, ArgumentsView { debug: true, ..before }, prior)
        } else if arg == "-v"@ || arg == "-verbose"@ {
            request_from(rest, ArgumentsView { verbose: true, ..before }, prior)
        } else {
            match with_value(before, prior, arg) {
                Ok(after) => request_from(rest, after, arg),
                Err(request) => request,
            }
        }
    }
}

/// What a command line asks for. Its first argument is the name of the
/// program and is not read.
pub open spec fn request_of(args: Seq<Seq<char>>) -> RequestView {
    if args.len() == 0 {
        RequestView::Run(initial_arguments())
    } else {
        request_from(args.skip(1), initial_arguments(), Seq::empty())
    }
}

/// The texts of `args`.
pub open spec fn argument_texts(args: Seq<String>) -> Seq<Seq<char>> {
    args.map_values(|arg: String| arg@)
}

/// Tells whether `text` reads as `literal`.
fn reads(text: &String, literal: &str) -> (same: bool)
    ensures
        same == (text@ == literal@),
{
    *text == String::from_str(literal)
}

/// Tells which flag with a number for its value `flag` names.
fn number_flag_of(flag: &String) -> (named: Option<NumberFlag>)
    ensures
        named == number_flag(flag@),
{
    if reads(flag, "-i") || reads(flag, "-interval") {
        Some(NumberFlag::Interval)
    } else if reads(flag, "-w") || reads(flag, "-warning") {
        Some(NumberFlag::Warning)
    } else if reads(flag, "-c") || reads(flag, "-critical") {
        Some(NumberFlag::Critical)
    } else if reads(flag, "-timeposition") {
        Some(NumberFlag::Timeposition)
    } else {
        None
    }
}

/// Places the argument `value`, which stands behind the argument `prior`.
fn place(before: Arguments, prior: &String, value: &String) -> (r: Result<Arguments, Request>)
    ensures
        match r {
            Ok(after) => with_value(before@, prior@, value@) == Ok::<ArgumentsView, RequestView>(
                after@,
            ),
            Err(request) => with_value(before@, prior@, value@) == Err::<
                ArgumentsView,
                RequestView,
            >(request@),
        },
{
    let mut after = before;
    if reads(prior, "-l") || reads(prior, "-logfile") {
        after.logfile = value.clone();
    } else if reads(prior, "-p") || reads(prior, "-pattern") {
        after.search_pattern = value.clone();
    } else if reads(prior, "-timepattern") {
        after.date_pattern = value.clone();
    } else {
        match number_flag_of(prior) {
            None => {},
            Some(NumberFlag::Timeposition) => match parse_index(value.as_str()) {
                Some(index) => {
                    after.timeposition = index;
                },
                None => {
                    return Err(Request::NotANumber(NumberFlag::Timeposition, value.clone()));
                },
            },
            Some(flag) => match parse_number(value.as_str()) {
                Some(number) => {
                    match flag {
                        NumberFlag::Interval => {
                            after.interval_to_check = number;
                        },
                        NumberFlag::Warning => {
                            after.max_warning_matches = number;
                        },
                        _ => {
                            after.max_critical_matches = number;
                        },
                    }
                },
                None => {
                    return Err(Request::NotANumber(flag, value.clone()));
                },
            },
        }
    }
    Ok(after)
}

/// Reads the command line `args`, whose first argument is the name of the
/// program.
pub fn parse(args: &Vec<String>) -> (request: Request)
    ensures
        request@ == request_of(argument_texts(args@)),
{
    let mut arguments = Arguments {
        interval_to_check: 0,
        search_pattern: String::new(),
        logfile: String::new(),
        max_critical_matches: 1,
        max_warning_matches: 1,
        date_pattern: String::from_str("%Y-%m-%d %H:%M:%S"),
        timeposition: 0,
        debug: false,
        verbose: false,
    };
    let mut prior = String::new();
    let ghost texts = argument_texts(args@);
    if args.len() == 0 {
        return Request::Run(arguments);
    }
    let mut i: usize = 1;
    while i < args.len()
        invariant
            1 <= i <= args.len(),
            texts == argument_texts(args@),
            request_of(texts) == request_from(texts.skip(i as int), arguments@, prior@),
        decreases args.len() - i,
    {
        let arg = &args[i];
        proof {
            assert(texts.skip(i as int).drop_first() == texts.skip(i + 1));
        }
        if reads(arg, "-h") || reads(arg, "-help") {
            return Request::Usage;
        } else if reads(arg, "-version") {
            return Request::Version;
        } else if reads(arg, "-d") || reads(arg, "-debug") {
            arguments.debug = true;
        } else if reads(arg, "-v") || reads(arg, "-verbose") {
            arguments.verbose = true;
        } else {
            match place(arguments, &prior, arg) {
                Ok(after) => {
                    arguments = after;
                    prior = arg.clone();
                },
                Err(request) => {
                    return request;
                },
            }
        }
        i += 1;
    }
    Request::Run(arguments)
}

impl Arguments {
    /// The configuration that these settings make.
    pub fn into_config(self) -> (r: Result<Config, ConfigError>)
        ensures
            match r {
                Err(error) => crate::config::config_error(
                    self.interval_to_check,
                    self.search_pattern@,
                    self.logfile@,
                ) == Some(error),
                Ok(conf) => {
                    &&& conf.valid()
                    &&& conf.interval_to_check == self.interval_to_check
                    &&& conf.search_pattern == self.search_pattern
                    &&& conf.logfile == self.logfile
                    &&& conf.max_critical_matches == self.max_critical_matches
                    &&& conf.max_warning_matches == self.max_warning_matches
                    &&& conf.date_pattern@ == crate::config::effective_date_pattern(
                        self.date_pattern@,
                    )
                    &&& conf.timeposition == self.timeposition
                    &&& conf.debug == self.debug
                    &&& conf.verbose == self.verbose
                },
            },
    {
        Config::new(
            self.interval_to_check,
            self.search_pattern,
            self.logfile,
            self.max_critical_matches,
            self.max_warning_matches,
            self.date_pattern,
            self.timeposition,
            self.debug,
            self.verbose,
        )
    }
}

} // verus!
