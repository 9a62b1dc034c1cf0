//! The scan of one file.
//!
//! Lines are judged from the last to the first. The scan ends at the first
//! line that is older than the window or is not text, and otherwise at the
//! start of the file.

use vstd::prelude::*;
use vstd::string::StringExecFns;
use crate::config::Config;
use crate::evaluator::{line_verdict, search_line, LineVerdict};
use crate::scanner::{
    lemma_line_start_bounds, line_start, lines_before, lines_from_end, LineScanner,
};

verus! {

/// Why the scan of a file ended before the start of the file.
#[derive(Debug, Clone, PartialEq, Eq, Copy, Structural)]
pub enum SearchError {
    /// The path names no regular file.
    NotFile,
    /// The file has no content.
    EmptyFile,
    /// A line is not text.
    NotUtf8,
    /// A line is older than the window.
    TimestampTooOld,
    /// The search for the pattern gave up on a line.
    PatternFailed,
}

impl SearchError {
    /// The text shown for this error.
    pub open spec fn message_text(self) -> Seq<char> {
        match self {
            SearchError::NotFile => "not a file"@,
            SearchError::EmptyFile => "file empty"@,
            SearchError::NotUtf8 => "file not utf8"@,
            SearchError::TimestampTooOld => "timestamp in line too old"@,
            SearchError::PatternFailed => "pattern search gave up"@,
        }
    }

    /// The text shown for this error.
    pub fn message(self) -> (s: String)
        ensures
            s@ == self.message_text(),
    {
        match self {
            SearchError::NotFile => String::from_str("not a file"),
            SearchError::EmptyFile => String::from_str("file empty"),
            SearchError::NotUtf8 => String::from_str("file not utf8"),
            SearchError::TimestampTooOld => String::from_str("timestamp in line too old"),
            SearchError::PatternFailed => String::from_str("pattern search gave up"),
        }
    }
}

impl From<SearchError> for String {
    fn from(error: SearchError) -> (s: String)
        ensures
            s@ == error.message_text(),
    {
        error.message()
    }
}

impl vstd::std_specs::convert::FromSpecImpl<SearchError> for String {
    open spec fn obeys_from_spec() -> bool {
        false
    }

    open spec fn from_spec(error: SearchError) -> String {
        arbitrary()
    }
}

/// What one file adds to a run.
#[derive(Debug, Clone, Copy, PartialEq, Eq, Structural)]
pub struct FileResult {
    /// The lines counted in the file.
    pub matches: u64,
    /// Whether the scan of the file came to a conclusive end: the start of
    /// the file, or a line older than the window.
    pub processed: bool,
}

/// The error with which a verdict ends the scan of its file, if it ends it.
pub open spec fn stop_reason(verdict: LineVerdict) -> Option<SearchError> {
    match verdict {
        LineVerdict::NotUtf8 => Some(SearchError::NotUtf8),
        LineVerdict::TooOld => Some(SearchError::TimestampTooOld),
        LineVerdict::PatternFailed => Some(SearchError::PatternFailed),
        _ => None,
    }
}

/// The index of the first of `lines` that ends a scan, or their number
/// where none does.
pub open spec fn stop_index(lines: Seq<Seq<u8>>, conf: Config, fields: usize, oldest_ts: u64)
    -> int
    decreases lines.len(),
{
    if lines.len() == 0 || stop_reason(line_verdict(lines[0], conf, fields, oldest_ts)) is Some {
        0
    } else {
        1 + stop_index(lines.drop_first(), conf, fields, oldest_ts)
    }
}

/// The lines that a scan of `lines` judges before it ends: those in front
/// of the first line that ends it.
pub open spec fn scanned(lines: Seq<Seq<u8>>, conf: Config, fields: usize, oldest_ts: u64) -> Seq<
    Seq<u8>,
> {
    lines.take(stop_index(lines, conf, fields, oldest_ts))
}

/// The lines among `lines` that lie in the window and match the pattern.
pub open spec fn matching(lines: Seq<Seq<u8>>, conf: Config, fields: usize, oldest_ts: u64) -> Seq<
    Seq<u8>,
> {
    lines.filter(|line: Seq<u8>| line_verdict(line, conf, fields, oldest_ts) == LineVerdict::Match)
}

/// The lines that a scan of `lines` counts, in the order in which it meets
/// them.
pub open spec fn counted_lines(lines: Seq<Seq<u8>>, conf: Config, fields: usize, oldest_ts: u64)
    -> Seq<Seq<u8>> {
    matching(scanned(lines, conf, fields, oldest_ts), conf, fields, oldest_ts)
}

/// The error that ends a scan of `lines`, if one does.
pub open spec fn scan_error(lines: Seq<Seq<u8>>, conf: Config, fields: usize, oldest_ts: u64)
    -> Option<SearchError> {
    let stop = stop_index(lines, conf, fields, oldest_ts);
    if stop < lines.len() {
        stop_reason(line_verdict(lines[stop], conf, fields, oldest_ts))
    } else {
        None
    }
}

/// What the search of a file comes to: the number of matching lines behind
/// the line that ended the scan, with the error of that line where the scan
/// did not reach the start of the file. What is no file, and a file without
/// content, is not scanned.
pub open spec fn file_outcome(
    is_file: bool,
    content: Seq<u8>,
    conf: Config,
    fields: usize,
    oldest_ts: u64,
) -> Result<u64, (SearchError, u64)> {
    if !is_file {
        Err((SearchError::NotFile, 0))
    } else if content.len() == 0 {
        Err((SearchError::EmptyFile, 0))
    } else {
        let lines = lines_from_end(content);
        let matches = counted_lines(lines, conf, fields, oldest_ts).len() as u64;
        match scan_error(lines, conf, fields, oldest_ts) {
            None => Ok(matches),
            Some(error) => Err((error, matches)),
        }
    }
}

/// What the outcome of a search adds to a run. A file counts as processed
/// where its scan reached the start of the file or a line older than the
/// window.
pub open spec fn file_result(outcome: Result<u64, (SearchError, u64)>) -> FileResult {
    match outcome {
        Ok(matches) => FileResult { matches, processed: true },
        Err((error, matches)) => FileResult {
            matches,
            processed: error == SearchError::TimestampTooOld,
        },
    }
}

/// The bytes that `lines` hold together.
pub open spec fn total_len(lines: Seq<Seq<u8>>) -> int
    decreases lines.len(),
{
    if lines.len() == 0 {
        0
    } else {
        lines[0].len() + total_len(lines.drop_first())
    }
}

/// The bytes of each slice of `v`.
pub open spec fn contents(v: Seq<&[u8]>) -> Seq<Seq<u8>> {
    v.map_values(|bytes: &[u8]| bytes@)
}

/// Lines hold no negative number of bytes.
pub proof fn lemma_total_len_nonnegative(lines: Seq<Seq<u8>>)
    ensures
        0 <= total_len(lines),
    decreases lines.len(),
{
    if lines.len() > 0 {
        lemma_total_len_nonnegative(lines.drop_first());
    }
}

/// The lines of the first `end` bytes of a buffer hold no more than `end`
/// bytes together.
pub proof fn lemma_lines_fit(s: Seq<u8>, end: int)
    requires
        0 <= end <= s.len(),
    ensures
        0 <= total_len(lines_before(s, end)) <= end,
    decreases end,
{
    lemma_line_start_bounds(s, end);
    let start = line_start(s, end);
    let all = lines_before(s, end);
    if start > 0 {
        lemma_lines_fit(s, start - 1);
        assert(all.drop_first() == lines_before(s, start - 1));
    } else {
        assert(total_len(all.drop_first()) == 0);
    }
}

/// `k` is the stop index of `lines` where no line in front of `k` ends a
/// scan and the line at `k` does, unless `k` is the end.
pub proof fn lemma_stop_index_is(
    lines: Seq<Seq<u8>>,
    k: int,
    conf: Config,
    fields: usize,
    oldest_ts: u64,
)
    requires
        0 <= k <= lines.len(),
        forall|j: int|
            0 <= j < k ==> stop_reason(
                line_verdict(#[trigger] lines[j], conf, fields, oldest_ts),
            ) is None,
        k < lines.len() ==> stop_reason(line_verdict(lines[k], conf, fields, oldest_ts)) is Some,
    ensures
        stop_index(lines, conf, fields, oldest_ts) == k,
    decreases lines.len(),
{
    if k > 0 {
        lemma_stop_index_is(lines.drop_first(), k - 1, conf, fields, oldest_ts);
    }
}

/// The stop index lies within the lines.
pub proof fn lemma_stop_index_bounds(
    lines: Seq<Seq<u8>>,
    conf: Config,
    fields: usize,
    oldest_ts: u64,
)
    ensures
        0 <= stop_index(lines, conf, fields, oldest_ts) <= lines.len(),
    decreases lines.len(),
{
    if lines.len() > 0 {
        lemma_stop_index_bounds(lines.drop_first(), conf, fields, oldest_ts);
    }
}

/// One more line adds itself to the matching lines where it lies in the
/// window and matches, and nothing otherwise.
pub proof fn lemma_matching_push(
    lines: Seq<Seq<u8>>,
    line: Seq<u8>,
    conf: Config,
    fields: usize,
    oldest_ts: u64,
)
    ensures
        matching(lines.push(line), conf, fields, oldest_ts) == if line_verdict(
            line,
            conf,
            fields,
            oldest_ts,
        ) == LineVerdict::Match {
            matching(lines, conf, fields, oldest_ts).push(line)
        } else {
            matching(lines, conf, fields, oldest_ts)
        },
{
    reveal(Seq::filter);
    assert(lines.push(line).drop_last() == lines);
}

/// Among the first lines there are no more matching lines than among all.
pub proof fn lemma_matching_prefix(
    lines: Seq<Seq<u8>>,
    k: int,
    conf: Config,
    fields: usize,
    oldest_ts: u64,
)
    requires
        0 <= k <= lines.len(),
    ensures
        matching(lines.take(k), conf, fields, oldest_ts).len() <= matching(
            lines,
            conf,
            fields,
            oldest_ts,
        ).len(),
{
    assert(lines.take(k) + lines.skip(k) == lines);
}

/// Searches the content of a file from its last line backwards and counts
/// the lines that lie in the window and match. `is_file` tells whether the
/// path names a regular file; `file` is its content.
///
/// `Ok` holds the count of a scan that reached the start of the file, `Err`
/// the reason why a scan ended early or never began, with the count up to
/// there.
pub fn search_file(
    is_file: bool,
    file: &[u8],
    conf: &Config,
    whitespaces_in_date: usize,
    oldest_ts: u64,
) -> (r: Result<u64, (SearchError, u64)>)
    ensures
        r == file_outcome(is_file, file@, *conf, whitespaces_in_date, oldest_ts),
{
    if !is_file {
        return Err((SearchError::NotFile, 0));
    }
    let len = file.len();
    if len == 0 {
        return Err((SearchError::EmptyFile, 0));
    }
    let ghost all = lines_from_end(file@);
    let ghost mut seen: int = 0;
    let mut matches: u64 = 0;
    let mut scanner = LineScanner::new(file);
    proof {
        lemma_lines_fit(file@, file@.len() as int);
    }
    loop
        invariant
            is_file,
            0 < len == file@.len(),
            all == lines_from_end(file@),
            0 <= seen <= all.len(),
            scanner.pending() == all.skip(seen),
            forall|j: int|
                0 <= j < seen ==> stop_reason(
                    line_verdict(#[trigger] all[j], *conf, whitespaces_in_date, oldest_ts),
                ) is None,
            matches == matching(all.take(seen), *conf, whitespaces_in_date, oldest_ts).len(),
            matches + total_len(scanner.pending()) <= len,
        ensures
            seen == all.len(),
        decreases scanner.pending().len(),
    {
        let line = match scanner.next_line() {
            None => {
                break;
            },
            Some(line) => line,
        };
        proof {
            assert(all.take(seen + 1) == all.take(seen).push(all[seen]));
            lemma_matching_push(all.take(seen), all[seen], *conf, whitespaces_in_date, oldest_ts);
            lemma_total_len_nonnegative(scanner.pending());
        }
        let verdict = search_line(line, whitespaces_in_date, oldest_ts, conf);
        proof {
            if stop_reason(verdict) is Some {
                lemma_stop_index_is(all, seen, *conf, whitespaces_in_date, oldest_ts);
            }
        }
        match verdict {
            LineVerdict::Match => {
                matches += 1;
            },
            LineVerdict::NotUtf8 => {
                return Err((SearchError::NotUtf8, matches));
            },
            LineVerdict::TooOld => {
                return Err((SearchError::TimestampTooOld, matches));
            },
            LineVerdict::PatternFailed => {
                return Err((SearchError::PatternFailed, matches));
            },
            LineVerdict::NoMatch | LineVerdict::NoDate => {},
        }
        proof {
            seen = seen + 1;
        }
    }
    proof {
        lemma_stop_index_is(all, seen, *conf, whitespaces_in_date, oldest_ts);
    }
    Ok(matches)
}

/// The lines that `search_file` counts in a file, in the order in which it
/// meets them: the newest first. Nothing is found where the search never
/// begins.
pub fn matching_lines<'a>(
    is_file: bool,
    file: &'a [u8],
    conf: &Config,
    whitespaces_in_date: usize,
    oldest_ts: u64,
) -> (found: Vec<&'a [u8]>)
    ensures
        contents(found@) == if is_file {
            counted_lines(lines_from_end(file@), *conf, whitespaces_in_date, oldest_ts)
        } else {
            Seq::empty()
        },
{
    let mut found: Vec<&'a [u8]> = Vec::new();
    if !is_file {
        return found;
    }
    let ghost all = lines_from_end(file@);
    let ghost mut seen: int = 0;
    let mut scanner = LineScanner::new(file);
    loop
        invariant_except_break
            scanner.pending() == all.skip(seen),
        invariant
            is_file,
            all == lines_from_end(file@),
            0 <= seen <= all.len(),
            forall|j: int|
                0 <= j < seen ==> stop_reason(
                    line_verdict(#[trigger] all[j], *conf, whitespaces_in_date, oldest_ts),
                ) is None,
            contents(found@) == matching(all.take(seen), *conf, whitespaces_in_date, oldest_ts),
        ensures
            seen == stop_index(all, *conf, whitespaces_in_date, oldest_ts),
        decreases scanner.pending().len(),
    {
        let line = match scanner.next_line() {
            None => {
                proof {
                    lemma_stop_index_is(all, seen, *conf, whitespaces_in_date, oldest_ts);
                }
                break;
            },
            Some(line) => line,
        };
        proof {
            assert(all.take(seen + 1) == all.take(seen).push(all[seen]));
            lemma_matching_push(all.take(seen), all[seen], *conf, whitespaces_in_date, oldest_ts);
        }
        match search_line(line, whitespaces_in_date, oldest_ts, conf) {
            LineVerdict::Match => {
                found.push(line);
            },
            LineVerdict::NotUtf8 | LineVerdict::TooOld | LineVerdict::PatternFailed => {
                proof {
                    lemma_stop_index_is(all, seen, *conf, whitespaces_in_date, oldest_ts);
                }
                break;
            },
            LineVerdict::NoMatch | LineVerdict::NoDate => {},
        }
        proof {
            seen = seen + 1;
        }
    }
    found
}

/// What the outcome of a search adds to a run.
pub fn result_of(outcome: &Result<u64, (SearchError, u64)>) -> (result: FileResult)
    ensures
        result == file_result(*outcome),
{
    match outcome {
        Ok(matches) => FileResult { matches: *matches, processed: true },
        Err((error, matches)) => FileResult {
            matches: *matches,
            processed: match error {
                SearchError::TimestampTooOld => true,
                _ => false,
            },
        },
    }
}

/// Where a line of a file is the first to end the scan, and ends it for
/// being older than the window, the file's count is the number of matching
/// lines behind that line, and the file counts as processed.
pub proof fn lemma_scan_ends_at_window(
    content: Seq<u8>,
    k: int,
    conf: Config,
    fields: usize,
    oldest_ts: u64,
)
    requires
        content.len() > 0,
        0 <= k < lines_from_end(content).len(),
        line_verdict(lines_from_end(content)[k], conf, fields, oldest_ts) == LineVerdict::TooOld,
        forall|j: int|
            0 <= j < k ==> stop_reason(
                line_verdict(#[trigger] lines_from_end(content)[j], conf, fields, oldest_ts),
            ) is None,
    ensures
        file_outcome(true, content, conf, fields, oldest_ts) == Err::<u64, (SearchError, u64)>(
            (
                SearchError::TimestampTooOld,
                matching(lines_from_end(content).take(k), conf, fields, oldest_ts).len() as u64,
            ),
        ),
        matching(lines_from_end(content).take(k), conf, fields, oldest_ts).len() <= k,
        file_result(file_outcome(true, content, conf, fields, oldest_ts)).processed,
{
    let lines = lines_from_end(content);
    lemma_stop_index_is(lines, k, conf, fields, oldest_ts);
    lines.take(k).lemma_filter_len(
        |line: Seq<u8>| line_verdict(line, conf, fields, oldest_ts) == LineVerdict::Match,
    );
}

/// A file whose last line is not text adds no match and does not count as
/// processed.
pub proof fn lemma_binary_file_skipped(
    content: Seq<u8>,
    conf: Config,
    fields: usize,
    oldest_ts: u64,
)
    requires
        content.len() > 0,
        line_verdict(lines_from_end(content)[0], conf, fields, oldest_ts) == LineVerdict::NotUtf8,
    ensures
        file_outcome(true, content, conf, fields, oldest_ts) == Err::<u64, (SearchError, u64)>(
            (SearchError::NotUtf8, 0),
        ),
        file_result(file_outcome(true, content, conf, fields, oldest_ts)) == (FileResult {
            matches: 0,
            processed: false,
        }),
{
}

/// A file without content adds no match and does not count as processed.
pub proof fn lemma_empty_file_skipped(conf: Config, fields: usize, oldest_ts: u64)
    ensures
        file_result(file_outcome(true, Seq::empty(), conf, fields, oldest_ts)) == (FileResult {
            matches: 0,
            processed: false,
        }),
{
}

} // verus!
