//! Wall-clock access and the day/time derivation used by schedule
//! reconciliation: an ISO day of week (1 = Monday .. 7 = Sunday) and a
//! zero-padded 24-hour `HH:MM` string, both computed purely from seconds
//! since the Unix epoch.

use vstd::prelude::*;
use vstd::string::StringExecFns;

verus! {

/// Relies on std::time::SystemTime::now and SystemTime::duration_since:
/// seconds elapsed since the Unix epoch, or 0 if the host clock reads
/// earlier than the epoch.
#[verifier::external_body]
fn unix_time_secs() -> u64 {
    std::time::SystemTime::now()
        .duration_since(std::time::UNIX_EPOCH)
        .map(|d| d.as_secs())
        .unwrap_or(0)
}

/// The current Unix time, clamped into a non-negative `i64`.
pub fn now_secs() -> (r: i64)
    ensures
        r >= 0,
{
    let t = unix_time_secs();
    if t > i64::MAX as u64 {
        i64::MAX
    } else {
        t as i64
    }
}

pub open spec fn spec_day_of_week(now: int) -> int {
    (now / 86400 + 3) % 7 + 1
}

pub open spec fn spec_hours(now: int) -> int {
    (now % 86400) / 3600
}

pub open spec fn spec_minutes(now: int) -> int {
    ((now % 86400) % 3600) / 60
}

pub open spec fn spec_digit_char(d: int) -> char {
    if d == 0 { '0' }
    else if d == 1 { '1' }
    else if d == 2 { '2' }
    else if d == 3 { '3' }
    else if d == 4 { '4' }
    else if d == 5 { '5' }
    else if d == 6 { '6' }
    else if d == 7 { '7' }
    else if d == 8 { '8' }
    else { '9' }
}

/// Two decimal digits, zero padded.
pub open spec fn spec_two_digits(n: int) -> Seq<char> {
    seq![spec_digit_char(n / 10), spec_digit_char(n % 10)]
}

/// The `HH:MM` rendering of an hour and minute pair.
pub open spec fn spec_hhmm(h: int, m: int) -> Seq<char> {
    spec_two_digits(h) + seq![':'] + spec_two_digits(m)
}

fn digit_str(d: u64) -> (r: &'static str)
    requires
        d < 10,
    ensures
        r@ =~= seq![spec_digit_char(d as int)],
{
    proof {
        reveal_strlit("0");
        reveal_strlit("1");
        reveal_strlit("2");
        reveal_strlit("3");
        reveal_strlit("4");
        reveal_strlit("5");
        reveal_strlit("6");
        reveal_strlit("7");
        reveal_strlit("8");
        reveal_strlit("9");
    }
    if d == 0 { "0" }
    else if d == 1 { "1" }
    else if d == 2 { "2" }
    else if d == 3 { "3" }
    else if d == 4 { "4" }
    else if d == 5 { "5" }
    else if d == 6 { "6" }
    else if d == 7 { "7" }
    else if d == 8 { "8" }
    else { "9" }
}

/// Renders `h:m` as a zero-padded `HH:MM` string.
pub fn format_hhmm(h: u64, m: u64) -> (r: String)
    requires
        h < 24,
        m < 60,
    ensures
        r@ == spec_hhmm(h as int, m as int),
{
    proof {
        reveal_strlit(":");
    }
    let mut s = String::new();
    s.append(digit_str(h / 10));
    s.append(digit_str(h % 10));
    s.append(":");
    s.append(digit_str(m / 10));
    s.append(digit_str(m % 10));
    proof {
        assert(s@ =~= spec_hhmm(h as int, m as int));
    }
    s
}

/// Derives the ISO day of week (1 = Monday .. 7 = Sunday) and the `HH:MM`
/// wall time from a Unix timestamp, treating the epoch count as UTC wall
/// time. The epoch fell on a Thursday, hence the offset of 3.
pub fn day_and_time_of(now: i64) -> (r: (u32, String))
    requires
        now >= 0,
    ensures
        r.0 == spec_day_of_week(now as int),
        1 <= r.0 <= 7,
        r.1@ == spec_hhmm(spec_hours(now as int), spec_minutes(now as int)),
{
    let n = now as u64;
    let days_since_epoch = n / 86400;
    let day_of_week = (days_since_epoch + 3) % 7 + 1;
    let seconds_today = n % 86400;
    let hours = seconds_today / 3600;
    let minutes = (seconds_today % 3600) / 60;
    let time = format_hhmm(hours, minutes);
    (day_of_week as u32, time)
}

/// The current (day of week, `HH:MM`) pair read from the host clock.
pub fn get_current_day_and_time() -> (r: (u32, String))
    ensures
        1 <= r.0 <= 7,
        exists|now: int|
            0 <= now && r.0 == spec_day_of_week(now) && r.1@ == spec_hhmm(
                spec_hours(now),
                spec_minutes(now),
            ),
{
    let now = now_secs();
    let r = day_and_time_of(now);
    proof {
        assert(0 <= now as int && r.0 == spec_day_of_week(now as int) && r.1@ == spec_hhmm(
            spec_hours(now as int),
            spec_minutes(now as int),
        ));
    }
    r
}

} // verus!
