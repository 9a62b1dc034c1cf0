//! The verdict on a single line.

use vstd::prelude::*;
use vstd::utf8::{decode_utf8, encode_utf8_decode_utf8, valid_utf8};
use crate::config::Config;
use crate::dates::{get_timestamp, parse_date, resolve_date, unsigned_timestamp, DateTimeUtc};
use crate::pattern::{pattern_search, search};
use crate::text::{join_marked, joined, trim, trimmed, word_ranges, words};
use crate::window::{is_too_old, too_old};

verus! {

/// What a line means to the scan of its file.
#[derive(Debug, Clone, Copy, PartialEq, Eq, Structural)]
pub enum LineVerdict {
    /// The line lies in the window and matches the pattern.
    Match,
    /// The line is empty, or lies in the window and does not match.
    NoMatch,
    /// The line holds no date that can be read.
    NoDate,
    /// The line is not text; the scan of the file ends.
    NotUtf8,
    /// The line is older than the window; the scan of the file ends.
    TooOld,
    /// The search for the pattern gave up on the line.
    PatternFailed,
}

/// The date field of a line with the words `line_words`: `count` words from
/// the word at `position` on, joined by single spaces. `None` where the line
/// has too few words.
pub open spec fn date_field(line_words: Seq<Seq<char>>, position: int, count: int) -> Option<
    Seq<char>,
> {
    if position + count <= line_words.len() {
        Some(joined(line_words.subrange(position, position + count)))
    } else {
        None
    }
}

/// The verdict that the date of a line settles by itself: the line has no
/// date, or is older than a window that starts at `oldest_ts`. `None` where
/// the line lies in the window, and the pattern decides.
pub open spec fn verdict_by_date(date: Option<DateTimeUtc>, oldest_ts: u64) -> Option<LineVerdict> {
    match date {
        None => Some(LineVerdict::NoDate),
        Some(date) => if is_too_old(oldest_ts, unsigned_timestamp(date.secs as int) as u64) {
            Some(LineVerdict::TooOld)
        } else {
            None
        },
    }
}

/// The verdict on a line of the window on which the search for the pattern
/// came to `found`; `None` stands for a search that gave up.
pub open spec fn verdict_by_search(found: Option<bool>) -> LineVerdict {
    match found {
        None => LineVerdict::PatternFailed,
        Some(true) => LineVerdict::Match,
        Some(false) => LineVerdict::NoMatch,
    }
}

/// The verdict on the line `bytes` for a window that starts at `oldest_ts`,
/// the date format having `fields` words.
pub open spec fn line_verdict(bytes: Seq<u8>, conf: Config, fields: usize, oldest_ts: u64)
    -> LineVerdict {
    if bytes.len() == 0 {
        LineVerdict::NoMatch
    } else if !valid_utf8(bytes) {
        LineVerdict::NotUtf8
    } else {
        let line = trimmed(decode_utf8(bytes));
        if line.len() == 0 {
            LineVerdict::NoMatch
        } else {
            match date_field(words(line), conf.timeposition as int, fields as int) {
                None => LineVerdict::NoDate,
                Some(field) => match verdict_by_date(
                    resolve_date(field, conf.date_pattern@),
                    oldest_ts,
                ) {
                    Some(verdict) => verdict,
                    None => verdict_by_search(pattern_search(conf.re, line)),
                },
            }
        }
    }
}

/// Takes the date field out of a line: `count` words from the word at
/// `position` on, joined by single spaces.
pub fn extract_date(line: &str, position: usize, count: usize) -> (field: Option<String>)
    ensures
        match field {
            None => date_field(words(line@), position as int, count as int) is None,
            Some(text) => date_field(words(line@), position as int, count as int) == Some(text@),
        },
{
    let ranges = word_ranges(line);
    let available = ranges.len();
    match position.checked_add(count) {
        None => None,
        Some(end) => {
            if end <= available {
                Some(join_marked(line, &ranges, position, end))
            } else {
                None
            }
        },
    }
}

/// Gives the verdict that the date of a line settles by itself, if it
/// settles one.
pub fn judge_date(date: Option<DateTimeUtc>, oldest_ts: u64) -> (verdict: Option<LineVerdict>)
    ensures
        verdict == verdict_by_date(date, oldest_ts),
{
    match date {
        None => Some(LineVerdict::NoDate),
        Some(date) => {
            let ts_line = get_timestamp(date);
            if too_old(oldest_ts, ts_line) {
                Some(LineVerdict::TooOld)
            } else {
                None
            }
        },
    }
}

/// Gives the verdict on a line of the window on which the search for the
/// pattern came to `found`; `None` stands for a search that gave up.
pub fn judge_search(found: Option<bool>) -> (verdict: LineVerdict)
    ensures
        verdict == verdict_by_search(found),
{
    match found {
        None => LineVerdict::PatternFailed,
        Some(true) => LineVerdict::Match,
        Some(false) => LineVerdict::NoMatch,
    }
}

/// Gives the verdict on one line of a file. `whitespaces_in_datefields` is
/// the number of words of the date format and `oldest_ts` the start of the
/// window.
pub fn search_line(
    bytes: &[u8],
    whitespaces_in_datefields: usize,
    oldest_ts: u64,
    conf: &Config,
) -> (verdict: LineVerdict)
    ensures
        verdict == line_verdict(bytes@, *conf, whitespaces_in_datefields, oldest_ts),
{
    if bytes.len() == 0 {
        return LineVerdict::NoMatch;
    }
    let line = match core::str::from_utf8(bytes) {
        Err(_) => {
            return LineVerdict::NotUtf8;
        },
        Ok(text) => {
            proof {
                encode_utf8_decode_utf8(text@);
            }
            trim(text)
        },
    };
    if line.is_empty() {
        return LineVerdict::NoMatch;
    }
    let extracted_date = match extract_date(line, conf.timeposition, whitespaces_in_datefields) {
        None => {
            return LineVerdict::NoDate;
        },
        Some(field) => field,
    };
    let date = parse_date(extracted_date.as_str(), conf.date_pattern.as_str());
    match judge_date(date, oldest_ts) {
        Some(verdict) => verdict,
        None => judge_search(search(&conf.re, line).ok()),
    }
}

} // verus!
