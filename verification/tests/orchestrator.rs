use check_timed_logs_fast::orchestrator::{
    date_field_count, glob_expression, record_file, RunError,
};
use check_timed_logs_fast::processor::SearchError;
use check_timed_logs_fast::{run, Config, LogFile};

// 2018-09-13 00:03:01 UTC
const NOW: u64 = 1536796981;

fn conf(interval_to_check: u64, search_pattern: &str, date_pattern: &str) -> Config {
    Config::new(
        interval_to_check,
        search_pattern.to_owned(),
        "/var/log/app".to_owned(),
        1,
        1,
        date_pattern.to_owned(),
        0,
        false,
        false,
    )
    .unwrap()
}

fn fresh(content: &[u8]) -> LogFile<'_> {
    LogFile { elapsed_secs: 0, is_file: true, content }
}

#[test]
fn four_lines_three_in_the_window_two_of_them_matching() {
    let content = b"2018-09-12 23:58:01 foo_bar\n2018-09-13 00:03:01 bar\n2018-09-13 00:03:01 foo-bar\n2018-09-13 00:03:01 foo_bar\n";
    let files = vec![fresh(content)];
    let conf = conf(2, "foo[-_]+bar", "");
    assert_eq!(run(&conf, NOW, 0, &files), Ok((2, 1)));
}

#[test]
fn files_without_a_matching_line_give_no_match() {
    let first = b"2018-09-13 00:03:01 bar\n2018-09-13 00:03:00 baz\n";
    let second = b"2018-09-12 00:03:01 foo\n";
    let third = b"foo\nfoo foo\n";
    let files = vec![fresh(first), fresh(second), fresh(third), fresh(b"")];
    let conf = conf(2, "foo", "");
    assert_eq!(run(&conf, NOW, 0, &files), Ok((0, 3)));
}

#[test]
fn run_without_files_searches_nothing() {
    let files: Vec<LogFile> = Vec::new();
    assert_eq!(run(&conf(2, "foo", ""), NOW, 0, &files), Ok((0, 0)));
}

#[test]
fn second_run_gives_what_the_first_gave() {
    let first = b"2018-09-13 00:02:01 foo\n2018-09-13 00:03:00 foo\n";
    let second = b"2018-09-12 00:03:01 foo\n2018-09-13 00:03:00 foo\n";
    let files = vec![fresh(first), fresh(second), fresh(b"\xff")];
    let conf = conf(2, "foo", "");
    let once = run(&conf, NOW, 0, &files);
    let twice = run(&conf, NOW, 0, &files);
    assert_eq!(once, Ok((3, 2)));
    assert_eq!(once, twice);
}

#[test]
fn matches_of_all_files_are_summed() {
    let first = b"2018-09-13 00:02:01 foo\n2018-09-13 00:03:00 foo\n";
    let second = b"2018-09-13 00:03:00 foo\n";
    let files = vec![fresh(first), fresh(second)];
    assert_eq!(run(&conf(5, "foo", ""), NOW, 0, &files), Ok((3, 2)));
}

#[test]
fn file_modified_before_the_window_is_passed_over() {
    let content = b"2018-09-13 00:03:01 foo\n";
    let old = LogFile { elapsed_secs: 301, is_file: true, content };
    let at_the_edge = LogFile { elapsed_secs: 300, is_file: true, content };
    let conf = conf(5, "foo", "");
    assert_eq!(run(&conf, NOW, 0, &vec![old]), Ok((0, 0)));
    assert_eq!(run(&conf, NOW, 0, &vec![at_the_edge]), Ok((1, 1)));
}

#[test]
fn what_is_no_file_is_passed_over() {
    let content = b"2018-09-13 00:03:01 foo\n";
    let directory = LogFile { elapsed_secs: 0, is_file: false, content };
    assert_eq!(run(&conf(5, "foo", ""), NOW, 0, &vec![directory]), Ok((0, 0)));
}

#[test]
fn file_that_is_not_text_keeps_its_matches_and_is_not_processed() {
    let content = b"\xff\n2018-09-13 00:03:01 foo\n";
    assert_eq!(run(&conf(5, "foo", ""), NOW, 0, &vec![fresh(content)]), Ok((1, 0)));
    let binary = b"\x89PNG\r\n\x1a\n\x00\x00\x00\x0dIHDR\xae\x42\x60\x82";
    assert_eq!(run(&conf(5, ".*", ""), NOW, 0, &vec![fresh(binary)]), Ok((0, 0)));
}

#[test]
fn window_follows_the_local_offset() {
    // the log is written in a zone two hours ahead of UTC
    let content = b"2018-09-13 02:00:00 foo\n2018-09-13 02:02:00 foo\n";
    let conf = conf(2, "foo", "");
    assert_eq!(run(&conf, NOW, 7200, &vec![fresh(content)]), Ok((1, 1)));
    assert_eq!(run(&conf, NOW, 0, &vec![fresh(content)]), Ok((2, 1)));
    assert_eq!(run(&conf, NOW, 3 * 3600, &vec![fresh(content)]), Ok((0, 1)));
}

#[test]
fn run_is_given_up_where_the_search_gives_up() {
    let good = b"2018-09-13 00:03:01 xxy\n";
    let bad = b"2018-09-13 00:03:01 xxxxxxxxxxxxxxxxxxxxxxxxxxxxxxxxxxxxxxxx\n";
    let files = vec![fresh(good), fresh(bad), fresh(good)];
    let conf = conf(5, r"(x+x+)+\1y", "");
    assert_eq!(run(&conf, NOW, 0, &files), Err("pattern search gave up".to_owned()));
}

#[test]
fn outcome_of_a_file_is_added_to_the_totals() {
    assert_eq!(record_file((1, 1), &Ok(2)), Ok((3, 2)));
    assert_eq!(record_file((1, 1), &Err((SearchError::TimestampTooOld, 2))), Ok((3, 2)));
    assert_eq!(record_file((1, 1), &Err((SearchError::NotUtf8, 2))), Ok((3, 1)));
    assert_eq!(record_file((1, 1), &Err((SearchError::EmptyFile, 0))), Ok((1, 1)));
    assert_eq!(record_file((1, 1), &Err((SearchError::NotFile, 0))), Ok((1, 1)));
    assert_eq!(record_file((0, 0), &Ok(0)), Ok((0, 1)));
}

#[test]
fn search_that_gave_up_ends_the_run() {
    assert_eq!(
        record_file((1, 1), &Err((SearchError::PatternFailed, 2))),
        Err(RunError::PatternFailed)
    );
}

#[test]
fn totals_that_do_not_fit_end_the_run() {
    assert_eq!(record_file((u64::MAX, 0), &Ok(1)), Err(RunError::CountOverflow));
    assert_eq!(record_file((u64::MAX - 1, 0), &Ok(1)), Ok((u64::MAX, 1)));
    assert_eq!(record_file((0, u64::MAX), &Ok(0)), Err(RunError::CountOverflow));
    assert_eq!(record_file((0, u64::MAX), &Err((SearchError::NotUtf8, 0))), Ok((0, u64::MAX)));
}

#[test]
fn run_errors_have_their_texts() {
    assert_eq!(RunError::PatternFailed.message(), "pattern search gave up");
    assert_eq!(RunError::CountOverflow.message(), "too many matches to count");
}

#[test]
fn date_format_has_as_many_fields_as_words() {
    assert_eq!(date_field_count(&conf(1, "foo", "")), 2);
    assert_eq!(date_field_count(&conf(1, "foo", "%Y-%m-%d %H:%M:%S")), 2);
    assert_eq!(date_field_count(&conf(1, "foo", "%b %d %H:%M:%S")), 3);
    assert_eq!(date_field_count(&conf(1, "foo", "%s")), 1);
    assert_eq!(date_field_count(&conf(1, "foo", "  %d-%b-%Y \t %I:%M:%S\u{a0}%p  ")), 3);
    assert_eq!(date_field_count(&conf(1, "foo", " \t ")), 0);
}

#[test]
fn candidate_files_begin_with_the_configured_path() {
    assert_eq!(glob_expression(&conf(1, "foo", "")), "/var/log/app*");
}
