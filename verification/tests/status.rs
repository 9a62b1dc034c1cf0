use check_timed_logs_fast::status::{assess, Status};
use check_timed_logs_fast::Config;

fn conf(max_critical_matches: u64, max_warning_matches: u64) -> Config {
    Config::new(
        5,
        "foo".to_owned(),
        "/var/log/app".to_owned(),
        max_critical_matches,
        max_warning_matches,
        "".to_owned(),
        0,
        false,
        false,
    )
    .unwrap()
}

#[test]
fn critical_threshold_is_looked_at_first() {
    assert_eq!(assess(&conf(5, 3), 5, 1), Status::Critical);
    assert_eq!(assess(&conf(5, 3), 6, 0), Status::Critical);
    assert_eq!(assess(&conf(1, 1), 1, 1), Status::Critical);
    assert_eq!(assess(&conf(3, 5), 4, 1), Status::Critical);
    assert_eq!(assess(&conf(0, 0), 0, 0), Status::Critical);
}

#[test]
fn warning_threshold_is_looked_at_second() {
    assert_eq!(assess(&conf(5, 3), 3, 1), Status::Warning);
    assert_eq!(assess(&conf(5, 3), 4, 0), Status::Warning);
}

#[test]
fn no_file_searched_is_unknown() {
    assert_eq!(assess(&conf(5, 3), 0, 0), Status::Unknown);
    assert_eq!(assess(&conf(5, 3), 2, 0), Status::Unknown);
}

#[test]
fn few_matches_in_searched_files_are_normal() {
    assert_eq!(assess(&conf(5, 3), 0, 1), Status::Normal);
    assert_eq!(assess(&conf(5, 3), 2, 7), Status::Normal);
}

#[test]
fn each_status_has_its_exit_code() {
    assert_eq!(Status::Normal.exit_code(), 0);
    assert_eq!(Status::Warning.exit_code(), 1);
    assert_eq!(Status::Critical.exit_code(), 2);
    assert_eq!(Status::Unknown.exit_code(), 3);
}
