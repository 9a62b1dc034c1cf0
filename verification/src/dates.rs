//! Reading a timestamp out of the date field of a line.
//!
//! The field is read by the configured format. Where that fails, two
//! repairs are tried in a fixed order: text behind a comma is cut off, and
//! a year is put in front for formats that carry none.

use vstd::prelude::*;
use vstd::string::{StrSliceExecFns, StringExecFns};
use vstd::std_specs::iter::IteratorSpec;
use chrono::TimeZone;

verus! {

/// A date and time in UTC, as seconds since the Unix epoch.
#[derive(Debug, Clone, Copy, PartialEq, Eq, Structural)]
pub struct DateTimeUtc {
    pub secs: i64,
}

impl DateTimeUtc {
    /// Seconds since the Unix epoch.
    pub fn timestamp(&self) -> (secs: i64)
        ensures
            secs == self.secs,
    {
        self.secs
    }
}

/// What one attempt to read a text by a format came to.
#[derive(Debug, Clone, Copy, PartialEq, Eq, Structural)]
pub enum DateParse {
    /// The text gives a date and time: seconds since the Unix epoch.
    Parsed(i64),
    /// The format was satisfied before the text ended.
    TrailingInput,
    /// The text does not fit the format, or fixes no date and time.
    Failed,
}

impl DateParse {
    /// The date that was read, if one was.
    pub open spec fn date(self) -> Option<DateTimeUtc> {
        match self {
            DateParse::Parsed(secs) => Some(DateTimeUtc { secs }),
            _ => None,
        }
    }
}

/// What `chrono` makes of `text` read by `format` in UTC.
pub uninterp spec fn strptime_utc(text: Seq<char>, format: Seq<char>) -> DateParse;

/// Calls `chrono::TimeZone::datetime_from_str` on `chrono::Utc`. The outcome
/// depends on the two texts alone. A date that was read is handed on as its
/// seconds since the epoch; of an error only its kind is kept, `TooLong`
/// apart from all others.
#[verifier::external_body]
#[allow(deprecated)]
pub(crate) fn strptime(text: &str, format: &str) -> (r: DateParse)
    ensures
        r == strptime_utc(text@, format@),
{
    match chrono::Utc.datetime_from_str(text, format) {
        Ok(date) => DateParse::Parsed(date.naive_local().timestamp()),
        Err(e) => match e.kind() {
            chrono::format::ParseErrorKind::TooLong => DateParse::TrailingInput,
            _ => DateParse::Failed,
        },
    }
}

/// Index of the first comma of `s`, or its length where it has none.
pub open spec fn comma_index(s: Seq<char>) -> int
    decreases s.len(),
{
    if s.len() == 0 || s.first() == ',' {
        0
    } else {
        1 + comma_index(s.drop_first())
    }
}

/// `s` up to its first comma; all of `s` where it has none.
pub open spec fn before_comma(s: Seq<char>) -> Seq<char> {
    s.take(comma_index(s))
}

/// `k` is the comma index of `s` where no comma stands before `k` and either
/// one stands at `k` or `k` is the end.
pub proof fn lemma_comma_index_is(s: Seq<char>, k: int)
    requires
        0 <= k <= s.len(),
        forall|j: int| 0 <= j < k ==> s[j] != ',',
        k < s.len() ==> s[k] == ',',
    ensures
        comma_index(s) == k,
    decreases s.len(),
{
    if k > 0 {
        lemma_comma_index_is(s.drop_first(), k - 1);
    }
}

/// Cuts `text` at its first comma.
pub fn truncate_at_comma(text: &str) -> (r: &str)
    ensures
        r@ == before_comma(text@),
{
    let len = text.unicode_len();
    let mut chars = text.chars();
    let mut i: usize = 0;
    loop
        invariant_except_break
            chars.obeys_prophetic_iter_laws(),
            chars.remaining() == text@.skip(i as int),
        invariant
            len == text@.len(),
            i <= len,
            forall|j: int| 0 <= j < i ==> text@[j] != ',',
        ensures
            i < len ==> text@[i as int] == ',',
        decreases len - i,
    {
        match chars.next() {
            None => {
                break;
            },
            Some(c) => {
                if c == ',' {
                    break;
                }
                i += 1;
            },
        }
    }
    proof {
        lemma_comma_index_is(text@, i as int);
    }
    text.substring_char(0, i)
}

/// The year put in front of a text that carries none, with the space that
/// parts it from the text.
pub open spec fn placeholder_year() -> Seq<char> {
    "2018 "@
}

/// The format of `placeholder_year`.
pub open spec fn year_format() -> Seq<char> {
    "%Y "@
}

/// `text` read by `format` with the placeholder year in front of both.
pub open spec fn read_with_year(text: Seq<char>, format: Seq<char>) -> DateParse {
    strptime_utc(placeholder_year() + text, year_format() + format)
}

/// The date that the field `text` resolves to under `format`: the first
/// success of reading it as it stands, reading it cut at its first comma
/// where the first reading left input over, and reading it with the
/// placeholder year in front.
pub open spec fn resolve_date(text: Seq<char>, format: Seq<char>) -> Option<DateTimeUtc> {
    match strptime_utc(text, format) {
        DateParse::Parsed(secs) => Some(DateTimeUtc { secs }),
        DateParse::TrailingInput => {
            let cut = before_comma(text);
            match strptime_utc(cut, format) {
                DateParse::Parsed(secs) => Some(DateTimeUtc { secs }),
                _ => read_with_year(cut, format).date(),
            }
        },
        DateParse::Failed => read_with_year(text, format).date(),
    }
}

/// Reads `text` by `format` with the placeholder year in front of both.
pub fn parse_with_year(text: &str, format: &str) -> (r: DateParse)
    ensures
        r == read_with_year(text@, format@),
{
    let dated_text = String::from_str("2018 ").concat(text);
    let dated_format = String::from_str("%Y ").concat(format);
    strptime(dated_text.as_str(), dated_format.as_str())
}

/// Resolves the date field `datefields` under the format `pattern`.
/// `None` means that the field holds no usable date.
pub fn parse_date(datefields: &str, pattern: &str) -> (date: Option<DateTimeUtc>)
    ensures
        date == resolve_date(datefields@, pattern@),
{
    match strptime(datefields, pattern) {
        DateParse::Parsed(secs) => Some(DateTimeUtc { secs }),
        DateParse::TrailingInput => {
            let cut = truncate_at_comma(datefields);
            match strptime(cut, pattern) {
                DateParse::Parsed(secs) => Some(DateTimeUtc { secs }),
                _ => date_of(parse_with_year(cut, pattern)),
            }
        },
        DateParse::Failed => date_of(parse_with_year(datefields, pattern)),
    }
}

/// The date that an attempt read, if it read one.
pub fn date_of(outcome: DateParse) -> (date: Option<DateTimeUtc>)
    ensures
        date == outcome.date(),
{
    match outcome {
        DateParse::Parsed(secs) => Some(DateTimeUtc { secs }),
        _ => None,
    }
}

/// A timestamp as an unsigned number: a negative one counts down from 2^64.
pub open spec fn unsigned_timestamp(secs: int) -> int {
    if secs >= 0 {
        secs
    } else {
        secs + 0x1_0000_0000_0000_0000
    }
}

/// The timestamp of `date` as an unsigned number. A date before the epoch
/// comes out as a very late one.
pub fn get_timestamp(date: DateTimeUtc) -> (ts: u64)
    ensures
        ts == unsigned_timestamp(date.secs as int),
{
    if date.secs >= 0 {
        date.secs as u64
    } else {
        u64::MAX - ((-(date.secs + 1)) as u64)
    }
}

/// A field that reads as it stands resolves to that reading: no repair is
/// applied to it.
pub proof fn lemma_direct_reading_wins(text: Seq<char>, format: Seq<char>, secs: i64)
    requires
        strptime_utc(text, format) == DateParse::Parsed(secs),
    ensures
        resolve_date(text, format) == Some(DateTimeUtc { secs }),
{
}

/// A field whose reading leaves input over resolves to what the field cut
/// at its first comma resolves to.
pub proof fn lemma_text_behind_comma_ignored(text: Seq<char>, format: Seq<char>)
    requires
        strptime_utc(text, format) == DateParse::TrailingInput,
    ensures
        resolve_date(text, format) == resolve_date(before_comma(text), format),
{
    lemma_before_comma_idempotent(text);
}

/// Cutting at the first comma a second time changes nothing.
pub proof fn lemma_before_comma_idempotent(s: Seq<char>)
    ensures
        before_comma(before_comma(s)) == before_comma(s),
        forall|j: int| 0 <= j < before_comma(s).len() ==> before_comma(s)[j] != ',',
{
    lemma_comma_index_bounds(s);
    let cut = before_comma(s);
    lemma_comma_index_is(cut, cut.len() as int);
}

/// The comma index lies within the text, no comma stands before it, and one
/// stands at it unless it is the end.
pub proof fn lemma_comma_index_bounds(s: Seq<char>)
    ensures
        0 <= comma_index(s) <= s.len(),
        forall|j: int| 0 <= j < comma_index(s) ==> s[j] != ',',
        comma_index(s) < s.len() ==> s[comma_index(s)] == ',',
    decreases s.len(),
{
    if s.len() > 0 && s.first() != ',' {
        let rest = s.drop_first();
        lemma_comma_index_bounds(rest);
        assert forall|j: int| 0 <= j < comma_index(s) implies s[j] != ',' by {
            if j > 0 {
                assert(s[j] == rest[j - 1]);
            }
        }
    }
}

} // verus!
