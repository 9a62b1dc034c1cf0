//! The window of time that a run looks at.
//!
//! The window ends now and is as long as the configured interval. Log lines
//! carry local wall-clock time without a zone, so the start of the window is
//! shifted by the local offset from UTC before a line is held against it.

use vstd::prelude::*;
use crate::config::Config;
use crate::dates::DateTimeUtc;

verus! {

/// An instant together with the offset of the local time zone from UTC.
#[derive(Debug, Clone, Copy, PartialEq, Eq, Structural)]
pub struct DateTimeLocal {
    /// The instant, as seconds since the Unix epoch.
    pub utc_secs: i64,
    /// Seconds that local time is ahead of UTC.
    pub offset_secs: i32,
}

/// The length in seconds of an interval given in minutes.
pub open spec fn interval_secs(minutes: u64) -> int {
    60 * minutes
}

/// The start of the window in UTC: the interval before `now`, and the epoch
/// where the interval reaches back beyond it.
pub open spec fn oldest_allowed_utc(interval_minutes: u64, now: u64) -> int {
    if interval_secs(interval_minutes) > now {
        0
    } else {
        now - interval_secs(interval_minutes)
    }
}

/// `v` as an unsigned number of 64 bits.
pub open spec fn reduced_u64(v: int) -> int {
    v % 0x1_0000_0000_0000_0000
}

/// The reading of a local clock at the instant `utc_secs`, as an unsigned
/// timestamp.
pub open spec fn local_timestamp(utc_secs: int, offset_secs: int) -> int {
    reduced_u64(utc_secs + offset_secs)
}

/// The start of the window as a local clock reads it.
pub open spec fn oldest_allowed_local(interval_minutes: u64, now: u64, offset_secs: i32) -> int {
    local_timestamp(oldest_allowed_utc(interval_minutes, now), offset_secs as int)
}

/// A line with timestamp `ts_line` lies before a window that starts at
/// `oldest_ts`.
pub open spec fn is_too_old(oldest_ts: u64, ts_line: u64) -> bool {
    oldest_ts > ts_line
}

/// A file last modified `elapsed_secs` ago may still hold lines of the
/// window.
pub open spec fn is_recent(interval_minutes: u64, elapsed_secs: u64) -> bool {
    elapsed_secs <= interval_secs(interval_minutes)
}

/// The oldest timestamp of the window in UTC, `now_unix_ts` being the
/// current time in seconds since the epoch.
pub fn get_oldest_allowed_utc_ts(conf: &Config, now_unix_ts: u64) -> (ts: u64)
    ensures
        ts == oldest_allowed_utc(conf.interval_to_check, now_unix_ts),
{
    match conf.interval_to_check.checked_mul(60) {
        Some(go_back_secs) => {
            if go_back_secs > now_unix_ts {
                0
            } else {
                now_unix_ts - go_back_secs
            }
        },
        None => 0,
    }
}

/// Attaches the local offset from UTC to `date`.
pub fn adjust_to_local_tz(date: DateTimeUtc, local_offset_secs: i32) -> (local: DateTimeLocal)
    ensures
        local == (DateTimeLocal { utc_secs: date.secs, offset_secs: local_offset_secs }),
{
    DateTimeLocal { utc_secs: date.secs, offset_secs: local_offset_secs }
}

/// What a local clock reads at `date`, as an unsigned timestamp.
pub fn get_timestamp_from_local(date: DateTimeLocal) -> (ts: u64)
    ensures
        ts == local_timestamp(date.utc_secs as int, date.offset_secs as int),
{
    let sum: i128 = date.utc_secs as i128 + date.offset_secs as i128;
    if sum < 0 {
        (sum + 0x1_0000_0000_0000_0000) as u64
    } else {
        sum as u64
    }
}

/// The oldest timestamp of the window as a local clock reads it.
/// `local_offset_secs` is what local time is ahead of UTC.
pub fn get_oldest_allowed_local_ts(conf: &Config, now_unix_ts: u64, local_offset_secs: i32) -> (ts:
    u64)
    ensures
        ts == oldest_allowed_local(conf.interval_to_check, now_unix_ts, local_offset_secs),
{
    let oldest_ts_utc = get_oldest_allowed_utc_ts(conf, now_unix_ts);
    let secs: i64 = if oldest_ts_utc <= i64::MAX as u64 {
        oldest_ts_utc as i64
    } else {
        -((u64::MAX - oldest_ts_utc) as i64) - 1
    };
    let adjusted_date = adjust_to_local_tz(DateTimeUtc { secs }, local_offset_secs);
    get_timestamp_from_local(adjusted_date)
}

/// Tells whether a line with timestamp `ts_line` lies before the window.
pub fn too_old(oldest_ts: u64, ts_line: u64) -> (stale: bool)
    ensures
        stale == is_too_old(oldest_ts, ts_line),
{
    oldest_ts > ts_line
}

/// Tells whether a file that was last modified `elapsed_secs` ago is young
/// enough to be searched.
pub fn check_file_age(conf: &Config, elapsed_secs: u64) -> (recent: bool)
    ensures
        recent == is_recent(conf.interval_to_check, elapsed_secs),
{
    match conf.interval_to_check.checked_mul(60) {
        Some(secs_allowed) => elapsed_secs <= secs_allowed,
        None => true,
    }
}

} // verus!
