//! A report: the lines that tell how long the session has run and what the
//! lifetime total has become, with the text that persists that total.

use vstd::prelude::*;
use crate::badge::{badge_of, get_badge, glyph_of};
use crate::file_handler::{
    content_of,
    lemma_write_then_read,
    parse_total,
    read_from_file,
    save_to_file,
    stored_text,
    total_of,
    StoreError,
};
use crate::quotes::{is_quote, random_quote};
use crate::time_handler::{
    checked_total_time,
    checked_total_time_at,
    convert_duration,
    convert_time,
    duration_text,
    get_current_time,
    total_time,
};

verus! {

/// What a report says and what it persists.
pub struct Report {
    /// The line on the time that this session has run.
    pub headline: String,
    /// The reminder that goes with a periodic report; none with the last one.
    pub quote: Option<String>,
    /// The line on the lifetime total, with the glyph of its tier.
    pub total_line: String,
    /// The lifetime total, in milliseconds.
    pub total: i64,
    /// The text to persist in place of what the slot held.
    pub persist: String,
}

/// Why no report could be made.
#[derive(Clone, Copy, Debug, PartialEq, Eq, Structural)]
pub enum ReportError {
    /// What the slot holds is not a lifetime total.
    Malformed,
    /// The lifetime total has grown beyond what an `i64` can hold.
    Overflow,
}

/// The text held by a slot, as a ghost value.
pub open spec fn raw_view(raw: Option<&str>) -> Option<Seq<char>> {
    match raw {
        Some(text) => Some(text@),
        None => None,
    }
}

/// The session's running time as a report shows it at the reading `now`:
/// never negative, even where the clock was set back behind `start`.
pub open spec fn shown_elapsed(start: int, now: int) -> int {
    if now > start {
        now - start
    } else {
        0
    }
}

/// The lifetime total that a report made at `now` arrives at, for a session
/// begun at `start` and a slot that holds `raw`, or why it arrives at none.
pub open spec fn outcome(start: int, now: int, raw: Option<Seq<char>>) -> Result<
    i64,
    ReportError,
> {
    match total_of(content_of(raw)) {
        Ok(previous) => match checked_total_time(start, now, previous as int) {
            Some(total) => Ok(total),
            None => Err(ReportError::Overflow),
        },
        Err(_) => Err(ReportError::Malformed),
    }
}

/// The headline of a periodic report on a running time of `elapsed`.
pub open spec fn periodic_headline(elapsed: int) -> Seq<char> {
    "Elapsed time : "@ + duration_text(elapsed) + " seconds"@
}

/// The headline of the last report on a running time of `elapsed`.
pub open spec fn final_headline(elapsed: int) -> Seq<char> {
    "Stopped the count, time programmed today: "@ + duration_text(elapsed) + " seconds"@
}

/// The line on a lifetime total of `total`.
pub open spec fn total_line_of(total: int) -> Seq<char> {
    "Total time (all sessions):"@ + duration_text(total) + " "@ + glyph_of(badge_of(total))
}

/// Whether `r` is the report with the given headline on a lifetime total of
/// `total`.
pub open spec fn describes(r: Report, headline: Seq<char>, total: int) -> bool {
    &&& r.headline@ == headline
    &&& r.total_line@ == total_line_of(total)
    &&& r.total == total
    &&& r.persist@ == stored_text(total)
}

/// Whether `r` is what a periodic report at the reading `now` comes to.
pub open spec fn is_periodic_report(
    r: Result<Report, ReportError>,
    start: int,
    now: int,
    raw: Option<Seq<char>>,
) -> bool {
    match outcome(start, now, raw) {
        Ok(total) => {
            &&& r is Ok
            &&& describes(r->Ok_0, periodic_headline(shown_elapsed(start, now)), total as int)
            &&& r->Ok_0.quote is Some
            &&& is_quote(r->Ok_0.quote->Some_0@)
        },
        Err(e) => r is Err && r->Err_0 == e,
    }
}

/// Whether `r` is what the last report, made at the reading `now`, comes to.
pub open spec fn is_final_report(
    r: Result<Report, ReportError>,
    start: int,
    now: int,
    raw: Option<Seq<char>>,
) -> bool {
    match outcome(start, now, raw) {
        Ok(total) => {
            &&& r is Ok
            &&& describes(r->Ok_0, final_headline(shown_elapsed(start, now)), total as int)
            &&& r->Ok_0.quote is None
        },
        Err(e) => r is Err && r->Err_0 == e,
    }
}

/// Reads the slot and adds the session's running time to what it holds.
pub fn new_total_at(start: i64, now: i64, raw: Option<&str>) -> (r: Result<i64, ReportError>)
    ensures
        r == outcome(start as int, now as int, raw_view(raw)),
{
    let content = read_from_file(raw);
    match parse_total(content.as_str()) {
        Ok(previous) => match checked_total_time_at(start, now, previous) {
            Some(total) => Ok(total),
            None => Err(ReportError::Overflow),
        },
        Err(_) => Err(ReportError::Malformed),
    }
}

/// The running time to show at the reading `now`, as text.
fn shown_elapsed_text(start: i64, now: i64) -> (text: String)
    ensures
        text@ == duration_text(shown_elapsed(start as int, now as int)),
{
    if now > start {
        convert_duration((now as i128 - start as i128) as u64)
    } else {
        convert_duration(0)
    }
}

/// The line on a lifetime total.
fn total_line(total: i64) -> (line: String)
    ensures
        line@ == total_line_of(total as int),
{
    let mut line = String::from_str("Total time (all sessions):");
    let text = convert_time(total);
    line.append(text.as_str());
    line.append(" ");
    let glyph = get_badge(&total);
    line.append(glyph.as_str());
    assert(line@ =~= total_line_of(total as int));
    line
}

/// The report with the headline that `prefix` opens.
fn compose(prefix: &str, quote: Option<String>, start: i64, now: i64, raw: Option<&str>) -> (r:
    Result<Report, ReportError>)
    ensures
        match outcome(start as int, now as int, raw_view(raw)) {
            Ok(total) => {
                &&& r is Ok
                &&& describes(
                    r->Ok_0,
                    prefix@ + duration_text(shown_elapsed(start as int, now as int))
                        + " seconds"@,
                    total as int,
                )
                &&& r->Ok_0.quote == quote
            },
            Err(e) => r is Err && r->Err_0 == e,
        },
{
    match new_total_at(start, now, raw) {
        Ok(total) => {
            let mut headline = String::from_str(prefix);
            let elapsed = shown_elapsed_text(start, now);
            headline.append(elapsed.as_str());
            headline.append(" seconds");
            Ok(
                Report {
                    headline,
                    quote,
                    total_line: total_line(total),
                    total,
                    persist: save_to_file(total),
                },
            )
        },
        Err(e) => Err(e),
    }
}

/// The periodic report at the reading `now`, for a session begun at `start`
/// and a slot that holds `raw`, with `quote` as its reminder.
pub fn periodic_report_at(start: i64, now: i64, raw: Option<&str>, quote: String) -> (r: Result<
    Report,
    ReportError,
>)
    ensures
        match outcome(start as int, now as int, raw_view(raw)) {
            Ok(total) => {
                &&& r is Ok
                &&& describes(
                    r->Ok_0,
                    periodic_headline(shown_elapsed(start as int, now as int)),
                    total as int,
                )
                &&& r->Ok_0.quote == Some(quote)
            },
            Err(e) => r is Err && r->Err_0 == e,
        },
{
    compose("Elapsed time : ", Some(quote), start, now, raw)
}

/// The last report of a session begun at `start`, made at the reading `now`
/// on a slot that holds `raw`.
pub fn final_report_at(start: i64, now: i64, raw: Option<&str>) -> (r: Result<Report, ReportError>)
    ensures
        is_final_report(r, start as int, now as int, raw_view(raw)),
{
    compose("Stopped the count, time programmed today: ", None, start, now, raw)
}

/// The periodic report as of now, for a session begun at `timestamp` and a
/// slot that holds `raw`: what such a report comes to at some reading of the
/// clock, with a reminder drawn at random.
pub fn get_time_hourly(timestamp: &i64, raw: Option<&str>) -> (r: Result<Report, ReportError>)
    ensures
        exists|now: i64|
            0 <= now && #[trigger] is_periodic_report(
                r,
                *timestamp as int,
                now as int,
                raw_view(raw),
            ),
{
    let now = get_current_time();
    let r = periodic_report_at(*timestamp, now, raw, random_quote());
    assert(is_periodic_report(r, *timestamp as int, now as int, raw_view(raw)));
    r
}

/// The last report as of now, for a session begun at `start_time` and a slot
/// that holds `raw`: what the last report comes to at some reading of the
/// clock.
pub fn stop_logging(start_time: &i64, raw: Option<&str>) -> (r: Result<Report, ReportError>)
    ensures
        exists|now: i64|
            0 <= now && #[trigger] is_final_report(
                r,
                *start_time as int,
                now as int,
                raw_view(raw),
            ),
{
    let now = get_current_time();
    let r = final_report_at(*start_time, now, raw);
    assert(is_final_report(r, *start_time as int, now as int, raw_view(raw)));
    r
}

/// A report depends on the slot only through the total that the slot reads
/// as: made again at the same reading on an unchanged slot, it arrives at the
/// same total.
pub proof fn lemma_recomputation_repeats(
    start: int,
    now: int,
    first: Option<Seq<char>>,
    second: Option<Seq<char>>,
)
    requires
        total_of(content_of(first)) == total_of(content_of(second)),
    ensures
        outcome(start, now, first) == outcome(start, now, second),
{
}

/// Where the clock reads less than the session's start, a report arrives at
/// exactly the total that the slot reads as.
pub proof fn lemma_clock_behind_start_keeps_total(start: int, now: int, raw: Option<Seq<char>>)
    requires
        now < start,
    ensures
        outcome(start, now, raw) == match total_of(content_of(raw)) {
            Ok(previous) => Ok::<i64, ReportError>(previous),
            Err(_) => Err::<i64, ReportError>(ReportError::Malformed),
        },
{
}

/// What a report persists is the lifetime total it arrived at: the total at
/// its reading of the clock, built on what the slot read as, and the slot
/// reads as that total afterwards.
pub proof fn lemma_report_persists_its_total(start: int, now: int, raw: Option<Seq<char>>)
    requires
        outcome(start, now, raw) is Ok,
    ensures
        total_of(content_of(raw)) is Ok,
        outcome(start, now, raw)->Ok_0 == total_time(
            start,
            now,
            total_of(content_of(raw))->Ok_0 as int,
        ),
        total_of(content_of(Some(stored_text(outcome(start, now, raw)->Ok_0 as int)))) == Ok::<
            i64,
            StoreError,
        >(outcome(start, now, raw)->Ok_0),
{
    lemma_write_then_read(outcome(start, now, raw)->Ok_0);
}

} // verus!
