use check_timed_logs_fast::processor::{search_file, SearchError};
use check_timed_logs_fast::window::{get_oldest_allowed_local_ts, get_oldest_allowed_utc_ts};
use check_timed_logs_fast::{run, Config, LogFile};
use chrono::{DateTime, NaiveDateTime};
use std::time::{SystemTime, UNIX_EPOCH};

const DUMMY_SEARCH_PATTERN: &str = ".*";
const SOME_LOG_FILE: &str = "/tmp/some-file.log";
const CHECK_LAST_MINUTE: u64 = 1;

// offset of a zone that keeps UTC all year
const UTC_OFFSET: i32 = 0;

// 1x1 pixel image
const ONE_BY_ONE_PNG: [u8; 69] = [
    0x89, 0x50, 0x4e, 0x47, 0x0d, 0x0a, 0x1a, 0x0a, 0x00, 0x00, 0x00, 0x0d, 0x49, 0x48, 0x44,
    0x52, 0x00, 0x00, 0x00, 0x01, 0x00, 0x00, 0x00, 0x01, 0x08, 0x02, 0x00, 0x00, 0x00, 0x90,
    0x77, 0x53, 0xde, 0x00, 0x00, 0x00, 0x0c, 0x49, 0x44, 0x41, 0x54, 0x78, 0x9c, 0x63, 0xf8,
    0xcf, 0xc0, 0x00, 0x00, 0x03, 0x01, 0x01, 0x00, 0xc9, 0xfe, 0x92, 0xef, 0x00, 0x00, 0x00,
    0x00, 0x49, 0x45, 0x4e, 0x44, 0xae, 0x42, 0x60, 0x82,
];

fn get_dummy_conf(interval_to_check: u64, search_pattern: String, logfile: String) -> Config {
    get_dummy_conf_format(interval_to_check, search_pattern, logfile, "".to_owned(), 0)
}

fn get_dummy_conf_format(
    interval_to_check: u64,
    search_pattern: String,
    logfile: String,
    date_pattern: String,
    timeposition: usize,
) -> Config {
    Config::new(
        interval_to_check,
        search_pattern,
        logfile,
        1, // max_critical_matches
        1, // max_warning_matches
        date_pattern,
        timeposition,
        true, // debug
        true, // verbose
    )
    .unwrap()
}

/// The bytes of a file that was written line-wise: the content and a final
/// newline, or nothing for an empty content.
fn file_bytes(content: &str) -> Vec<u8> {
    let mut bytes = content.as_bytes().to_vec();
    if content.len() > 0 {
        bytes.push(b'\n');
    }
    bytes
}

/// A file that was modified just now.
fn fresh_file(content: &[u8]) -> LogFile<'_> {
    LogFile { elapsed_secs: 0, is_file: true, content }
}

/// returns approximately the minutes since unix epoch
fn forever() -> u64 {
    // the offset of los angeles (-7h) is subtracted so that the window
    // starts after the epoch in that zone, too.
    (get_now_secs() / 60) - (7 * 60)
}

/// The clock of the runs below: 2018-09-13 00:03:01 UTC. Dates that carry no
/// year are read as dates of 2018, so the clock stands in that year.
fn get_now_secs() -> u64 {
    1536796981
}

/// The time that `s` writes in `format`, read as UTC, in seconds since the
/// epoch.
fn str_to_unix_ts(format: &str, s: &str) -> u64 {
    NaiveDateTime::parse_from_str(s, format).unwrap().and_utc().timestamp() as u64
}

fn formatted(unix_ts: u64, format: &str) -> String {
    let dt = DateTime::from_timestamp(unix_ts as i64, 0).unwrap().naive_utc();
    dt.format(format).to_string()
}

#[test]
fn should_correctly_calculate_oldest_allowed_ts_utc() {
    // given
    let now = SystemTime::now();
    let interval_to_check: u64 = 1;
    let conf =
        get_dummy_conf(interval_to_check, DUMMY_SEARCH_PATTERN.to_owned(), SOME_LOG_FILE.to_owned());
    let since_the_epoch = now.duration_since(UNIX_EPOCH).expect("Time went backwards");

    // when
    let oldest_allowed_ts = get_oldest_allowed_utc_ts(&conf, since_the_epoch.as_secs());

    // then
    assert_eq!(oldest_allowed_ts, since_the_epoch.as_secs() - (interval_to_check * 60));
}

#[test]
fn should_correctly_calculate_oldest_allowed_ts_adjusted_to_local_tz() {
    // given
    let (_zone, local_offset_secs) = ("America/Los_Angeles", -7 * 60 * 60);
    let now = SystemTime::now();
    let interval_to_check: u64 = 13; // minutes
    let conf =
        get_dummy_conf(interval_to_check, DUMMY_SEARCH_PATTERN.to_owned(), SOME_LOG_FILE.to_owned());
    let since_the_epoch = now.duration_since(UNIX_EPOCH).expect("Time went backwards");

    // when
    let oldest_ts =
        get_oldest_allowed_local_ts(&conf, since_the_epoch.as_secs(), local_offset_secs);

    // then
    // the oldest allowed timestamp in this case should not be
    // `current utc - interval_to_check`, but rather the current
    // time adjusted to `local tz - interval_to_check`.
    let offset = 7 * 60 * 60; // 7 hours is the timezone offset from utc to los angeles
    assert_eq!(oldest_ts, since_the_epoch.as_secs() - (interval_to_check * 60) - offset);
}

#[test]
fn should_search_in_file() {
    // given
    let now_unix_ts = get_now_secs();
    let format = "%b %d %H:%M:%S";

    let now_formatted = formatted(now_unix_ts, format);
    let five_minutes_ago = formatted(now_unix_ts - (5 * 60), format);

    let content = format!(
        "{} foo_bar\n{} bar\n{} foo-bar\n{} foo_bar",
        five_minutes_ago, now_formatted, now_formatted, now_formatted
    );
    let bytes = file_bytes(&content);
    let files = vec![fresh_file(&bytes)];

    let interval_to_check: u64 = 2;
    let conf = get_dummy_conf_format(
        interval_to_check,
        "foo[-_]+bar".to_owned(),
        SOME_LOG_FILE.to_owned(),
        format.to_owned(),
        0,
    );

    // when
    let res = run(&conf, now_unix_ts, UTC_OFFSET, &files);

    // then
    let matches = 2;
    let files_searched = 1;
    assert_eq!(res, Ok((matches, files_searched)));
}

#[test]
fn should_handle_timeposition() {
    // given
    let now_unix_ts = get_now_secs();
    let format = "%b %d %H:%M:%S";

    let now_formatted = formatted(now_unix_ts, format);
    let five_minutes_ago = formatted(now_unix_ts - (5 * 60), format);

    let content = format!(
        "foo_bar {}\nbar {}\nfoo-bar {}\nfoo_bar {}",
        five_minutes_ago, now_formatted, now_formatted, now_formatted
    );
    let bytes = file_bytes(&content);
    let files = vec![fresh_file(&bytes)];

    let interval_to_check: u64 = 2;
    let conf = get_dummy_conf_format(
        interval_to_check,
        "foo[-_]+bar".to_owned(),
        SOME_LOG_FILE.to_owned(),
        format.to_owned(),
        1,
    );

    // when
    let res = run(&conf, now_unix_ts, UTC_OFFSET, &files);

    // then
    let matches = 2;
    let files_searched = 1;
    assert_eq!(res, Ok((matches, files_searched)));
}

#[test]
fn should_handle_empty_file_correctly() {
    // given
    let bytes = file_bytes("");
    let files = vec![fresh_file(&bytes)];
    let conf =
        get_dummy_conf(CHECK_LAST_MINUTE, DUMMY_SEARCH_PATTERN.to_owned(), SOME_LOG_FILE.to_owned());

    // when
    let res = run(&conf, get_now_secs(), UTC_OFFSET, &files);

    // then
    let matches = 0;
    let files_searched = 0;
    assert_eq!(res, Ok((matches, files_searched)));
}

#[test]
fn should_skip_binary_files() {
    // given
    let path = "./fixtures/1x1.png";
    let conf = get_dummy_conf(forever(), DUMMY_SEARCH_PATTERN.to_owned(), path.to_owned());
    let whitespaces_in_date = 3; // doesn't matter, should not be considered anyway
    let oldest_ts = forever();

    // when
    let res = search_file(true, &ONE_BY_ONE_PNG, &conf, whitespaces_in_date, oldest_ts);

    // then
    let files_searched = 0;
    assert_eq!(res, Err((SearchError::NotUtf8, files_searched)));
}

#[test]
fn should_handle_utf8_file_content_correctly() {
    // given
    let bytes = file_bytes("2018-09-13 00:03:01 üê±");
    let files = vec![fresh_file(&bytes)];
    let conf = get_dummy_conf(forever(), "üê±".to_owned(), SOME_LOG_FILE.to_owned());

    // when
    let res = run(&conf, get_now_secs(), UTC_OFFSET, &files);

    // then
    let matches = 1;
    let files_searched = 1;
    assert_eq!(res, Ok((matches, files_searched)));
}

#[test]
fn should_handle_files_with_lines_without_dates() {
    // given
    // one of the lines intentionally contains as many whitespaces as the
    // valid lines which include a date.
    let bytes = file_bytes(
        "2018-09-13 00:03:01 foo\nsome\nsome some\nsome foo bar\n2018-09-13 00:03:01 bar\n",
    );
    let files = vec![fresh_file(&bytes)];
    let conf = get_dummy_conf(forever(), "bar".to_owned(), SOME_LOG_FILE.to_owned());

    // when
    let res = run(&conf, get_now_secs(), UTC_OFFSET, &files);

    // then
    let matches = 1;
    let files_searched = 1;
    assert_eq!(res, Ok((matches, files_searched)));
}

#[test]
fn should_ignore_trailing_comma() {
    // given
    let format = "%Y-%m-%d %H:%M:%S";
    let bytes = file_bytes("2018-09-13 00:01:51,079 foo\n2018-09-13 00:01:51,079 foobar\n");
    let files = vec![fresh_file(&bytes)];
    let conf = get_dummy_conf_format(
        forever(),
        "foo".to_owned(),
        SOME_LOG_FILE.to_owned(),
        format.to_owned(),
        0,
    );

    // when
    let res = run(&conf, get_now_secs(), UTC_OFFSET, &files);

    // then
    let matches = 2;
    let files_searched = 1;
    assert_eq!(res, Ok((matches, files_searched)));
}

#[test]
fn should_handle_non_default_date_format() {
    // given
    let now_unix_ts = get_now_secs();
    let format = "%b %d %H:%M:%S";

    let now_formatted = formatted(now_unix_ts, format);
    let five_minutes_ago = formatted(now_unix_ts - (5 * 60), format);

    let content =
        format!("{} foo\n{} bar\n{} foobar", five_minutes_ago, now_formatted, now_formatted);
    let bytes = file_bytes(&content);
    let files = vec![fresh_file(&bytes)];

    let interval_to_check: u64 = 2;
    let conf = get_dummy_conf_format(
        interval_to_check,
        "foo".to_owned(),
        SOME_LOG_FILE.to_owned(),
        format.to_owned(),
        0,
    );

    // when
    let res = run(&conf, now_unix_ts, UTC_OFFSET, &files);

    // then
    // the entry which was five minutes ago should not be matched
    let matches = 1;
    let files_searched = 1;
    assert_eq!(res, Ok((matches, files_searched)));
}

#[test]
fn should_handle_non_default_date_format_and_trailing_comma_and_different_timeposition() {
    // given
    let now_unix_ts = get_now_secs();
    let format = "%b %d %H:%M:%S";

    let now_formatted = formatted(now_unix_ts, format);
    let five_minutes_ago = formatted(now_unix_ts - (5 * 60), format);

    let content =
        format!("foo {},123\nbar{},345\nfoo {},567", five_minutes_ago, now_formatted, now_formatted);
    let bytes = file_bytes(&content);
    let files = vec![fresh_file(&bytes)];

    let interval_to_check: u64 = 2;
    let conf = get_dummy_conf_format(
        interval_to_check,
        "foo".to_owned(),
        SOME_LOG_FILE.to_owned(),
        format.to_owned(),
        1,
    );

    // when
    let res = run(&conf, now_unix_ts, UTC_OFFSET, &files);

    // then
    // the entry which was five minutes ago should not be matched
    let matches = 1;
    let files_searched = 1;
    assert_eq!(res, Ok((matches, files_searched)));
}

#[test]
fn should_skip_old_files() {
    // given
    let bytes = file_bytes("2018-09-13 00:03:01 foo");
    let five_minutes = 5;
    let conf = get_dummy_conf(five_minutes, "foo".to_owned(), SOME_LOG_FILE.to_owned());

    let start_of_year = str_to_unix_ts("%Y%m%d%H%M", "201501010000");
    let now_unix_ts = get_now_secs();
    let files = vec![LogFile {
        elapsed_secs: now_unix_ts - start_of_year,
        is_file: true,
        content: &bytes,
    }];

    // when
    let res = run(&conf, now_unix_ts, UTC_OFFSET, &files);

    // then
    let matches = 0;
    let files_searched = 0;
    assert_eq!(res, Ok((matches, files_searched)));
}

#[test]
fn should_handle_file_age_correctly() {
    // given
    let bytes = file_bytes("2018-09-13 00:03:01 foo");
    let conf = get_dummy_conf(forever(), "foo".to_owned(), SOME_LOG_FILE.to_owned());

    let start_of_year = str_to_unix_ts("%Y%m%d%H%M", "201809130000");
    let now_unix_ts = get_now_secs();
    let files = vec![LogFile {
        elapsed_secs: now_unix_ts - start_of_year,
        is_file: true,
        content: &bytes,
    }];

    // when
    let res = run(&conf, now_unix_ts, UTC_OFFSET, &files);

    // then
    let matches = 1;
    let files_searched = 1;
    assert_eq!(res, Ok((matches, files_searched)));
}

#[test]
fn should_search_matching_files() {
    // given
    // logfile.0 should also be searched
    let conf = get_dummy_conf(forever(), "foobar".to_owned(), "./fixtures/logfile".to_owned());
    let logfile = file_bytes("2018-09-13 00:03:01 foobar\n2018-09-13 00:03:02 barfoo");
    let logfile_0 = file_bytes("2018-09-12 23:59:01 nothing\n2018-09-12 23:59:02 a foobar b");
    let files = vec![fresh_file(&logfile), fresh_file(&logfile_0)];

    // when
    let res = run(&conf, get_now_secs(), UTC_OFFSET, &files);

    // then
    let matches = 2;
    let files_searched = 2;
    assert_eq!(res, Ok((matches, files_searched)));
}

#[test]
fn should_abort_when_stdin_used_as_logfile() {
    // given
    let stdin = "-".to_owned();

    // when
    let conf = Config::new(
        forever(),
        "foobar".to_owned(),
        stdin,
        1,             // max_critical_matches
        1,             // max_warning_matches
        "".to_owned(), // datepattern
        0,             // timeposition
        true,          // debug
        true,          // verbose
    );

    // then
    assert_eq!(conf.is_err(), true);
}
