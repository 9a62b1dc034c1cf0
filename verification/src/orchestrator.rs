//! A run over a set of candidate files.
//!
//! Each file that was modified recently enough is searched; the matches and
//! the number of files that were searched to a conclusive end are summed up.

use vstd::prelude::*;
use vstd::string::StringExecFns;
use crate::config::Config;
use crate::processor::{
    file_outcome, file_result, lemma_matching_prefix, lemma_stop_index_bounds, matching, result_of,
    search_file, stop_index, SearchError,
};
use crate::scanner::lines_from_end;
use crate::text::{word_ranges, words};
use crate::window::{check_file_age, get_oldest_allowed_local_ts, is_recent, oldest_allowed_local};

verus! {

/// Why a run was given up.
#[derive(Debug, Clone, Copy, PartialEq, Eq, Structural)]
pub enum RunError {
    /// The search for the pattern gave up on a line.
    PatternFailed,
    /// A total does not fit its counter.
    CountOverflow,
}

impl RunError {
    /// The text shown for this error.
    pub open spec fn message_text(self) -> Seq<char> {
        match self {
            RunError::PatternFailed => "pattern search gave up"@,
            RunError::CountOverflow => "too many matches to count"@,
        }
    }

    /// The text shown for this error.
    pub fn message(self) -> (s: String)
        ensures
            s@ == self.message_text(),
    {
        match self {
            RunError::PatternFailed => String::from_str("pattern search gave up"),
            RunError::CountOverflow => String::from_str("too many matches to count"),
        }
    }
}

/// A candidate file as a run sees it.
pub struct LogFile<'a> {
    /// Seconds since the file was last modified.
    pub elapsed_secs: u64,
    /// Whether the path names a regular file.
    pub is_file: bool,
    /// The bytes of the file.
    pub content: &'a [u8],
}

/// The totals `(matches, files searched)` after the outcome of one more
/// file. A search that gave up on the pattern ends the run.
pub open spec fn recorded(totals: (u64, u64), outcome: Result<u64, (SearchError, u64)>) -> Result<
    (u64, u64),
    RunError,
> {
    let result = file_result(outcome);
    let searched: int = if result.processed {
        1
    } else {
        0
    };
    if outcome matches Err((SearchError::PatternFailed, _)) {
        Err(RunError::PatternFailed)
    } else if totals.0 + result.matches > u64::MAX || totals.1 + searched > u64::MAX {
        Err(RunError::CountOverflow)
    } else {
        Ok(((totals.0 + result.matches) as u64, (totals.1 + searched) as u64))
    }
}

/// The totals `(matches, files searched)` of a run over `files`, taken in
/// the order given, for a date format of `fields` words and a window that
/// starts at `oldest_ts`. Files that were modified too long ago are passed
/// over.
pub open spec fn run_outcome(files: Seq<LogFile>, conf: Config, fields: usize, oldest_ts: u64)
    -> Result<(u64, u64), RunError>
    decreases files.len(),
{
    if files.len() == 0 {
        Ok((0, 0))
    } else {
        let file = files.last();
        match run_outcome(files.drop_last(), conf, fields, oldest_ts) {
            Err(error) => Err(error),
            Ok(totals) => if is_recent(conf.interval_to_check, file.elapsed_secs) {
                recorded(
                    totals,
                    file_outcome(file.is_file, file.content@, conf, fields, oldest_ts),
                )
            } else {
                Ok(totals)
            },
        }
    }
}

/// The number of words of the configured date format.
pub open spec fn date_fields(conf: Config) -> int {
    words(conf.date_pattern@).len() as int
}

/// What a run at the time `now_unix_ts`, with local time `local_offset_secs`
/// ahead of UTC, comes to.
pub open spec fn run_at(files: Seq<LogFile>, conf: Config, now_unix_ts: u64, local_offset_secs: i32)
    -> Result<(u64, u64), RunError> {
    run_outcome(
        files,
        conf,
        date_fields(conf) as usize,
        oldest_allowed_local(conf.interval_to_check, now_unix_ts, local_offset_secs) as u64,
    )
}

/// `reported` is how a run hands out `outcome`: the totals, or the text of
/// the error.
pub open spec fn reports(
    reported: Result<(u64, u64), String>,
    outcome: Result<(u64, u64), RunError>,
) -> bool {
    match outcome {
        Ok(totals) => reported == Ok::<(u64, u64), String>(totals),
        Err(error) => reported matches Err(text) && text@ == error.message_text(),
    }
}

/// Adds the outcome of one more file to the totals `(matches, files
/// searched)`. Neither total ever shrinks.
pub fn record_file(totals: (u64, u64), outcome: &Result<u64, (SearchError, u64)>) -> (r: Result<
    (u64, u64),
    RunError,
>)
    ensures
        r == recorded(totals, *outcome),
        r matches Ok(after) ==> after.0 >= totals.0 && after.1 >= totals.1,
{
    if let Err((SearchError::PatternFailed, _)) = outcome {
        return Err(RunError::PatternFailed);
    }
    let result = result_of(outcome);
    let searched: u64 = if result.processed {
        1
    } else {
        0
    };
    match (totals.0.checked_add(result.matches), totals.1.checked_add(searched)) {
        (Some(matches), Some(files_searched)) => Ok((matches, files_searched)),
        _ => Err(RunError::CountOverflow),
    }
}

/// The number of words of the configured date format.
pub fn date_field_count(conf: &Config) -> (count: usize)
    ensures
        count == date_fields(*conf),
{
    word_ranges(conf.date_pattern.as_str()).len()
}

/// The expression that the names of the candidate files are matched
/// against: the configured path with any ending.
pub fn glob_expression(conf: &Config) -> (expression: String)
    ensures
        expression@ == conf.logfile@ + seq!['*'],
{
    proof {
        reveal_strlit("*");
    }
    let expression = conf.logfile.clone().concat("*");
    expression
}

/// A run that has been given up stays given up, whatever files follow.
pub proof fn lemma_failure_is_final(
    files: Seq<LogFile>,
    upto: int,
    conf: Config,
    fields: usize,
    oldest_ts: u64,
)
    requires
        0 <= upto <= files.len(),
        run_outcome(files.take(upto), conf, fields, oldest_ts) is Err,
    ensures
        run_outcome(files, conf, fields, oldest_ts) == run_outcome(
            files.take(upto),
            conf,
            fields,
            oldest_ts,
        ),
    decreases files.len() - upto,
{
    if upto < files.len() {
        assert(files.take(upto + 1).drop_last() == files.take(upto));
        lemma_failure_is_final(files, upto + 1, conf, fields, oldest_ts);
    } else {
        assert(files.take(upto) == files);
    }
}

/// A run over files that hold no line of the window that matches counts no
/// match.
pub proof fn lemma_no_matching_line_no_match(
    files: Seq<LogFile>,
    conf: Config,
    fields: usize,
    oldest_ts: u64,
)
    requires
        forall|i: int|
            0 <= i < files.len() ==> matching(
                #[trigger] lines_from_end(files[i].content@),
                conf,
                fields,
                oldest_ts,
            ).len() == 0,
    ensures
        run_outcome(files, conf, fields, oldest_ts) matches Ok(totals) ==> totals.0 == 0,
    decreases files.len(),
{
    if files.len() > 0 {
        let earlier = files.drop_last();
        let lines = lines_from_end(files.last().content@);
        lemma_no_matching_line_no_match(earlier, conf, fields, oldest_ts);
        lemma_stop_index_bounds(lines, conf, fields, oldest_ts);
        lemma_matching_prefix(
            lines,
            stop_index(lines, conf, fields, oldest_ts),
            conf,
            fields,
            oldest_ts,
        );
    }
}

/// Two runs over the same files with the same configuration, at the same
/// time and with the same offset, hand out the same: the same totals, or
/// the same error text.
pub proof fn lemma_run_repeatable(
    files: Seq<LogFile>,
    conf: Config,
    now_unix_ts: u64,
    local_offset_secs: i32,
    first: Result<(u64, u64), String>,
    second: Result<(u64, u64), String>,
)
    requires
        reports(first, run_at(files, conf, now_unix_ts, local_offset_secs)),
        reports(second, run_at(files, conf, now_unix_ts, local_offset_secs)),
    ensures
        match (first, second) {
            (Ok(a), Ok(b)) => a == b,
            (Err(a), Err(b)) => a@ == b@,
            _ => false,
        },
{
}

/// Searches the candidate files for lines of the window that match, and
/// sums up the matches and the files searched. `now_unix_ts` is the current
/// time in seconds since the epoch and `local_offset_secs` what local time
/// is ahead of UTC.
pub fn run(conf: &Config, now_unix_ts: u64, local_offset_secs: i32, files: &Vec<LogFile>) -> (r:
    Result<(u64, u64), String>)
    ensures
        reports(r, run_at(files@, *conf, now_unix_ts, local_offset_secs)),
{
    let whitespaces_in_date = date_field_count(conf);
    let oldest_ts = get_oldest_allowed_local_ts(conf, now_unix_ts, local_offset_secs);
    let mut totals: (u64, u64) = (0, 0);
    let mut i: usize = 0;
    while i < files.len()
        invariant
            i <= files.len(),
            whitespaces_in_date == date_fields(*conf),
            oldest_ts == oldest_allowed_local(
                conf.interval_to_check,
                now_unix_ts,
                local_offset_secs,
            ),
            run_outcome(files@.take(i as int), *conf, whitespaces_in_date, oldest_ts) == Ok::<
                (u64, u64),
                RunError,
            >(totals),
        decreases files.len() - i,
    {
        let file = &files[i];
        proof {
            assert(files@.take(i + 1).drop_last() == files@.take(i as int));
        }
        if check_file_age(conf, file.elapsed_secs) {
            let outcome = search_file(
                file.is_file,
                file.content,
                conf,
                whitespaces_in_date,
                oldest_ts,
            );
            match record_file(totals, &outcome) {
                Ok(after) => {
                    totals = after;
                },
                Err(error) => {
                    proof {
                        lemma_failure_is_final(
                            files@,
                            i + 1,
                            *conf,
                            whitespaces_in_date,
                            oldest_ts,
                        );
                    }
                    return Err(error.message());
                },
            }
        }
        i += 1;
    }
    proof {
        assert(files@.take(files@.len() as int) == files@);
    }
    Ok(totals)
}

} // verus!
