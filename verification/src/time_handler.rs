//! Elapsed time of a session, the lifetime total it adds up to, and durations
//! as text.

use vstd::prelude::*;
use crate::decimal::{decimal, render_signed, render_unsigned, signed_decimal};

verus! {

/// Milliseconds in a second.
pub const SECOND_MS: i64 = 1_000;

/// Milliseconds in a minute.
pub const MINUTE_MS: i64 = 60_000;

/// Milliseconds in an hour.
pub const HOUR_MS: i64 = 3_600_000;

/// Milliseconds in a day.
pub const DAY_MS: i64 = 86_400_000;

/// The phrase for `n` of a unit that comes before the seconds: the number, a
/// space, the unit's name and a space; nothing at all where `n` is zero.
pub open spec fn leading_part(n: int, unit: Seq<char>) -> Seq<char> {
    if n > 0 {
        decimal(n as nat) + seq![' '] + unit + seq![' ']
    } else {
        Seq::empty()
    }
}

/// A duration of `ms` milliseconds as text: whole days, hours, minutes and
/// seconds, days first, joined by single spaces. A unit of which there is
/// none is left out, but for the seconds, which always close the text.
///
/// A negative duration shows only its seconds: the whole seconds of what is
/// left beyond whole minutes, with a minus sign unless that is zero.
pub open spec fn duration_text(ms: int) -> Seq<char> {
    if ms < 0 {
        signed_decimal(-(((-ms) % MINUTE_MS as int) / SECOND_MS as int)) + " seconds"@
    } else {
        leading_part(ms / DAY_MS as int, "days"@) + leading_part(
            (ms / HOUR_MS as int) % 24,
            "hours"@,
        ) + leading_part((ms / MINUTE_MS as int) % 60, "minutes"@) + decimal(
            ((ms / SECOND_MS as int) % 60) as nat,
        ) + " seconds"@
    }
}

/// Appends to `out` the phrase for `n` of the unit `unit`.
fn push_leading_part(out: &mut String, n: u64, unit: &str)
    ensures
        final(out)@ == old(out)@ + leading_part(n as int, unit@),
{
    if n > 0 {
        proof {
            reveal_strlit(" ");
            assert(" "@ =~= seq![' ']);
        }
        let digits = render_unsigned(n);
        out.append(digits.as_str());
        out.append(" ");
        out.append(unit);
        out.append(" ");
        assert(out@ =~= old(out)@ + leading_part(n as int, unit@));
    } else {
        assert(out@ =~= old(out)@ + leading_part(n as int, unit@));
    }
}

/// A duration cut into whole days, hours of the day, minutes of the hour and
/// seconds of the minute.
pub struct Breakdown {
    pub days: u64,
    pub hours: u64,
    pub minutes: u64,
    pub seconds: u64,
}

/// Cuts a duration of `ms` milliseconds into its units.
pub fn break_down(ms: u64) -> (b: Breakdown)
    ensures
        b.days == ms as int / DAY_MS as int,
        b.hours == (ms as int / HOUR_MS as int) % 24,
        b.minutes == (ms as int / MINUTE_MS as int) % 60,
        b.seconds == (ms as int / SECOND_MS as int) % 60,
{
    Breakdown {
        days: ms / 86_400_000,
        hours: (ms / 3_600_000) % 24,
        minutes: (ms / 60_000) % 60,
        seconds: (ms / 1_000) % 60,
    }
}

/// Formats a duration that is not negative.
pub fn convert_duration(ms: u64) -> (text: String)
    ensures
        text@ == duration_text(ms as int),
{
    let b = break_down(ms);
    let mut out = String::new();
    push_leading_part(&mut out, b.days, "days");
    push_leading_part(&mut out, b.hours, "hours");
    push_leading_part(&mut out, b.minutes, "minutes");
    let digits = render_unsigned(b.seconds);
    out.append(digits.as_str());
    out.append(" seconds");
    assert(out@ =~= duration_text(ms as int));
    out
}

/// Formats a duration in milliseconds as days, hours, minutes and seconds.
pub fn convert_time(time: i64) -> (text: String)
    ensures
        text@ == duration_text(time as int),
{
    if time < 0 {
        let magnitude: u64 = if time == i64::MIN {
            9_223_372_036_854_775_808
        } else {
            (-time) as u64
        };
        let seconds: u64 = (magnitude % 60_000) / 1_000;
        let mut out = render_signed(-(seconds as i64));
        out.append(" seconds");
        out
    } else {
        convert_duration(time as u64)
    }
}

/// Whether an `i64` can hold `v`.
pub open spec fn fits_i64(v: int) -> bool {
    i64::MIN <= v <= i64::MAX
}

/// The time that a session begun at `start` has run when the clock reads
/// `now`. Negative where the clock has been set back behind `start`.
pub open spec fn time_today(start: int, now: int) -> int {
    now - start
}

/// The lifetime total when the clock reads `now`: the total `previous` that
/// was last persisted, and the time that the session begun at `start` has run
/// since, counted as nothing where the clock reads less than `start`.
pub open spec fn total_time(start: int, now: int, previous: int) -> int {
    if now > start {
        previous + (now - start)
    } else {
        previous
    }
}

/// `Some` of the lifetime total at `now` where an `i64` can hold it, else
/// `None`.
pub open spec fn checked_total_time(start: int, now: int, previous: int) -> Option<i64> {
    if fits_i64(total_time(start, now, previous)) {
        Some(total_time(start, now, previous) as i64)
    } else {
        None
    }
}

/// The clock: milliseconds since the first instant of 1970, UTC.
///
/// Calls `chrono::Utc::now` and `DateTime::timestamp_millis` on what it
/// gives. Nothing is proved of the reading; the contract claims only that it
/// is not negative, since `Utc::now` does not return where the system's time
/// lies before 1970.
#[verifier::external_body]
pub fn get_current_time() -> (now: i64)
    ensures
        0 <= now,
{
    chrono::Utc::now().timestamp_millis()
}

/// The time that a session begun at `start` has run at the reading `now`.
pub fn time_today_at(start: i64, now: i64) -> (elapsed: i64)
    requires
        fits_i64(time_today(start as int, now as int)),
    ensures
        elapsed == time_today(start as int, now as int),
{
    now - start
}

/// The lifetime total at the reading `now`, for a session begun at `start`
/// and a persisted total of `previous`.
pub fn total_time_at(start: i64, now: i64, previous: i64) -> (total: i64)
    requires
        fits_i64(total_time(start as int, now as int, previous as int)),
    ensures
        total == total_time(start as int, now as int, previous as int),
{
    if now > start {
        let sum: i128 = previous as i128 + (now as i128 - start as i128);
        sum as i64
    } else {
        previous
    }
}

/// The lifetime total at the reading `now`, or `None` where it is more than
/// an `i64` can hold.
pub fn checked_total_time_at(start: i64, now: i64, previous: i64) -> (total: Option<i64>)
    ensures
        total == checked_total_time(start as int, now as int, previous as int),
{
    let elapsed: i128 = if now > start {
        now as i128 - start as i128
    } else {
        0
    };
    let sum: i128 = previous as i128 + elapsed;
    if sum > 9_223_372_036_854_775_807 || sum < -9_223_372_036_854_775_808 {
        None
    } else {
        Some(total_time_at(start, now, previous))
    }
}

/// The time that the session begun at the clock's reading `time` has run by
/// now: the difference between some reading of the clock and `time`.
pub fn get_time_today(time: &i64) -> (elapsed: i64)
    requires
        0 <= *time,
    ensures
        exists|now: i64| 0 <= now && elapsed == #[trigger] time_today(*time as int, now as int),
{
    let now = get_current_time();
    time_today_at(*time, now)
}

/// The lifetime total as of now, for a session begun at `time` and a
/// persisted total of `previous`: the total at some reading of the clock, or
/// `None` where that total is more than an `i64` can hold.
pub fn get_total_time(time: &i64, previous: i64) -> (total: Option<i64>)
    ensures
        exists|now: i64|
            0 <= now && total == #[trigger] checked_total_time(
                *time as int,
                now as int,
                previous as int,
            ),
{
    let now = get_current_time();
    checked_total_time_at(*time, now, previous)
}

/// Where the clock reads less than the session's start, the lifetime total
/// is the persisted total, unchanged.
pub proof fn lemma_clock_behind_start(start: int, now: int, previous: int)
    requires
        now < start,
    ensures
        total_time(start, now, previous) == previous,
{
}

/// The lifetime total never falls below the persisted total that it builds
/// on, and never falls as the clock goes on.
pub proof fn lemma_total_never_falls(start: int, now: int, later: int, previous: int)
    requires
        now <= later,
    ensures
        previous <= total_time(start, now, previous) <= total_time(start, later, previous),
{
}

} // verus!
