//! How play time and the time an instance was last played are shown.
use vstd::prelude::*;

use std::fmt::Write;

use crate::text::{append_str, push_char};

verus! {

/// The character of a decimal digit.
pub open spec fn digit_char(d: int) -> char {
    if d == 0 {
        '0'
    } else if d == 1 {
        '1'
    } else if d == 2 {
        '2'
    } else if d == 3 {
        '3'
    } else if d == 4 {
        '4'
    } else if d == 5 {
        '5'
    } else if d == 6 {
        '6'
    } else if d == 7 {
        '7'
    } else if d == 8 {
        '8'
    } else {
        '9'
    }
}

/// A number in decimal, without leading zeros.
pub open spec fn decimal(n: nat) -> Seq<char>
    decreases n,
{
    if n < 10 {
        seq![digit_char(n as int)]
    } else {
        decimal(n / 10).push(digit_char((n % 10) as int))
    }
}

fn digit_char_exec(d: u64) -> (res: char)
    requires
        d < 10,
    ensures
        res == digit_char(d as int),
{
    if d == 0 {
        '0'
    } else if d == 1 {
        '1'
    } else if d == 2 {
        '2'
    } else if d == 3 {
        '3'
    } else if d == 4 {
        '4'
    } else if d == 5 {
        '5'
    } else if d == 6 {
        '6'
    } else if d == 7 {
        '7'
    } else if d == 8 {
        '8'
    } else {
        '9'
    }
}

/// Appends a number in decimal.
pub fn push_decimal(s: &mut String, n: u64)
    ensures
        final(s)@ == old(s)@ + decimal(n as nat),
    decreases n,
{
    if n >= 10 {
        push_decimal(s, n / 10);
    }
    push_char(s, digit_char_exec(n % 10));
    proof {
        if n < 10 {
            assert(n % 10 == n);
        }
    }
}

/// Play time as shown: hours and minutes, else minutes and seconds, else seconds.
pub open spec fn spec_format_playtime(total_secs: nat) -> Seq<char> {
    let hours = total_secs / 3600;
    let minutes = (total_secs % 3600) / 60;
    let seconds = total_secs % 60;
    if hours > 0 {
        decimal(hours) + "h "@ + decimal(minutes) + "m"@
    } else if minutes > 0 {
        decimal(minutes) + "m "@ + decimal(seconds) + "s"@
    } else {
        decimal(seconds) + "s"@
    }
}

/// Play time as shown: `"{h}h {m}m"` from an hour on, `"{m}m {s}s"` from a minute on, else
/// `"{s}s"`.
pub fn format_playtime(total_secs: u64) -> (res: String)
    ensures
        res@ == spec_format_playtime(total_secs as nat),
{
    let hours = total_secs / 3600;
    let minutes = (total_secs % 3600) / 60;
    let seconds = total_secs % 60;
    let mut s = String::new();
    if hours > 0 {
        push_decimal(&mut s, hours);
        append_str(&mut s, "h ");
        push_decimal(&mut s, minutes);
        append_str(&mut s, "m");
    } else if minutes > 0 {
        push_decimal(&mut s, minutes);
        append_str(&mut s, "m ");
        push_decimal(&mut s, seconds);
        append_str(&mut s, "s");
    } else {
        push_decimal(&mut s, seconds);
        append_str(&mut s, "s");
    }
    s
}

/// When an instance was last played, as shown.
pub enum LastPlayed {
    Never,
    JustNow,
    MinutesAgo(i64),
    HoursAgo(i64),
    DaysAgo(i64),
    /// The day, as `chrono` formats `"%b %d, %Y"` (such as `Mar 05, 2024`).
    Date(String),
}

/// The content of a last-played label.
pub enum LastPlayedView {
    Never,
    JustNow,
    MinutesAgo(int),
    HoursAgo(int),
    DaysAgo(int),
    Date(Seq<char>),
}

impl View for LastPlayed {
    type V = LastPlayedView;

    open spec fn view(&self) -> LastPlayedView {
        match self {
            LastPlayed::Never => LastPlayedView::Never,
            LastPlayed::JustNow => LastPlayedView::JustNow,
            LastPlayed::MinutesAgo(n) => LastPlayedView::MinutesAgo(*n as int),
            LastPlayed::HoursAgo(n) => LastPlayedView::HoursAgo(*n as int),
            LastPlayed::DaysAgo(n) => LastPlayedView::DaysAgo(*n as int),
            LastPlayed::Date(t) => LastPlayedView::Date(t@),
        }
    }
}

/// Whether `chrono` can represent the instant `ms` milliseconds after the Unix epoch
/// (`DateTime::from_timestamp_millis` gives a value).
pub uninterp spec fn chrono_millis_valid(ms: int) -> bool;

/// The instant `ms` milliseconds after the Unix epoch, in UTC, as `chrono` formats it with a
/// strftime-style pattern; none when the pattern does not format.
pub uninterp spec fn chrono_formatted(ms: int, pattern: Seq<char>) -> Option<Seq<char>>;

/// Calls `chrono::DateTime::from_timestamp_millis`; its contract claims that it gives a value
/// exactly for the instants the name says `chrono` can represent.
#[verifier::external_body]
fn millis_in_range(ms: i64) -> (res: bool)
    ensures
        res == chrono_millis_valid(ms as int),
{
    chrono::DateTime::from_timestamp_millis(ms).is_some()
}

/// Calls `chrono::DateTime::from_timestamp_millis` and writes the result's `format(pattern)`
/// into a string, giving none when writing fails (a pattern `chrono` cannot format); its
/// contract claims that the result is the named formatting of that instant with the pattern.
#[verifier::external_body]
fn chrono_format(ms: i64, pattern: &str) -> (res: Option<String>)
    requires
        chrono_millis_valid(ms as int),
    ensures
        match res {
            Some(t) => chrono_formatted(ms as int, pattern@) == Some(t@),
            None => chrono_formatted(ms as int, pattern@) is None,
        },
{
    match chrono::DateTime::from_timestamp_millis(ms) {
        Some(dt) => {
            let mut out = String::new();
            match write!(out, "{}", dt.format(pattern)) {
                Ok(()) => Some(out),
                Err(_) => None,
            }
        },
        None => None,
    }
}

/// How the day of a last-played label is written (such as `Mar 05, 2024`).
pub const DATE_PATTERN: &'static str = "%b %d, %Y";

/// The day of a last-played label: the instant's date written with `DATE_PATTERN`, or empty
/// should the pattern not format.
pub open spec fn date_text(ms: int) -> Seq<char> {
    match chrono_formatted(ms, DATE_PATTERN@) {
        Some(t) => t,
        None => Seq::empty(),
    }
}

/// A point in time of the system clock (`std::time::SystemTime`), opaque here.
#[verifier::external_type_specification]
#[verifier::external_body]
pub struct ExSystemTime(std::time::SystemTime);

/// Calls `std::time::SystemTime::now`; nothing is claimed of the result, which is the time of
/// the call.
#[verifier::external_body]
fn system_now() -> (res: std::time::SystemTime) {
    std::time::SystemTime::now()
}

/// Calls `SystemTime::duration_since` with `UNIX_EPOCH`: the time elapsed since the epoch, or
/// none when the clock reads before it. Nothing more is claimed: the time is opaque here.
#[verifier::external_body]
fn since_epoch(t: &std::time::SystemTime) -> (res: Option<std::time::Duration>) {
    match t.duration_since(std::time::UNIX_EPOCH) {
        Ok(d) => Some(d),
        Err(_) => None,
    }
}

/// Calls `Duration::as_millis`; nothing is claimed of the count, the duration being opaque
/// here.
#[verifier::external_body]
fn duration_millis(d: &std::time::Duration) -> (res: u128) {
    d.as_millis()
}

/// The clock's milliseconds since the Unix epoch (capped at `i64::MAX`), or none when the
/// clock reads before the epoch.
fn now_millis() -> (res: Option<i64>)
    ensures
        res matches Some(n) ==> n >= 0,
{
    let t = system_now();
    match since_epoch(&t) {
        None => None,
        Some(d) => {
            let m = duration_millis(&d);
            if m > 0x7fff_ffff_ffff_ffffu128 {
                Some(0x7fff_ffff_ffff_ffffi64)
            } else {
                Some(m as i64)
            }
        },
    }
}

pub const MINUTE_MS: i128 = 60_000;

pub const HOUR_MS: i128 = 3_600_000;

pub const DAY_MS: i128 = 86_400_000;

pub const WEEK_MS: i128 = 604_800_000;

/// The label for an instance last played at `unix_ms` (if ever), seen at `now_ms`: never for
/// no time, a time not after the epoch, or one `chrono` cannot represent; just now under a
/// minute (or in the future); whole minutes under an hour, whole hours under a day, whole
/// days under a week; else the day.
pub open spec fn spec_last_played(unix_ms: Option<i64>, now_ms: int) -> LastPlayedView {
    match unix_ms {
        Some(ms) => if ms <= 0 || !chrono_millis_valid(ms as int) {
            LastPlayedView::Never
        } else {
            let diff = now_ms - ms;
            if diff < MINUTE_MS {
                LastPlayedView::JustNow
            } else if diff < HOUR_MS {
                LastPlayedView::MinutesAgo(diff / (MINUTE_MS as int))
            } else if diff < DAY_MS {
                LastPlayedView::HoursAgo(diff / (HOUR_MS as int))
            } else if diff < WEEK_MS {
                LastPlayedView::DaysAgo(diff / (DAY_MS as int))
            } else {
                LastPlayedView::Date(date_text(ms as int))
            }
        },
        None => LastPlayedView::Never,
    }
}

/// The label for an instance last played at `unix_ms`, seen at `now_ms`.
pub fn last_played_at(unix_ms: Option<i64>, now_ms: i64) -> (res: LastPlayed)
    ensures
        res@ == spec_last_played(unix_ms, now_ms as int),
{
    let ms = match unix_ms {
        Some(ms) => ms,
        None => {
            return LastPlayed::Never;
        },
    };
    if ms <= 0 || !millis_in_range(ms) {
        return LastPlayed::Never;
    }
    let diff: i128 = now_ms as i128 - ms as i128;
    if diff < MINUTE_MS {
        LastPlayed::JustNow
    } else if diff < HOUR_MS {
        LastPlayed::MinutesAgo((diff / MINUTE_MS) as i64)
    } else if diff < DAY_MS {
        LastPlayed::HoursAgo((diff / HOUR_MS) as i64)
    } else if diff < WEEK_MS {
        LastPlayed::DaysAgo((diff / DAY_MS) as i64)
    } else {
        LastPlayed::Date(
            match chrono_format(ms, DATE_PATTERN) {
                Some(t) => t,
                None => String::new(),
            },
        )
    }
}

/// The label for an instance last played at `unix_ms`, seen now: as `last_played_at` gives it
/// for the clock's time, a time at or after the epoch; a clock that reads before the epoch
/// counts as the epoch itself.
pub fn format_last_played(unix_ms: Option<i64>) -> (res: LastPlayed)
    ensures
        exists|now: i64| now >= 0 && res@ == spec_last_played(unix_ms, now as int),
{
    let now = match now_millis() {
        Some(n) => n,
        None => 0,
    };
    last_played_at(unix_ms, now)
}

} // verus!
