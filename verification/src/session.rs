//! The life of a session as a state machine: when a periodic report is due,
//! and that the last report is made exactly once.

use vstd::prelude::*;
use crate::time_handler::{get_current_time, lemma_total_never_falls, total_time};

verus! {

/// Seconds between two periodic reports, unless the driver chooses otherwise.
pub const REPORT_INTERVAL_S: i64 = 3_600;

/// Milliseconds that the driver sleeps between two wakes, which bounds how
/// long a stop goes unnoticed.
pub const POLL_INTERVAL_MS: u64 = 100;

/// Where a session stands.
#[derive(Clone, Copy, Debug, PartialEq, Eq, Structural)]
pub enum Phase {
    /// Not begun: no start has been taken from the clock yet.
    Starting,
    /// Begun, and asked at every wake whether a report is due.
    Running,
    /// Told to stop; the last report is owed.
    Stopping,
    /// Over. Nothing is reported or persisted any more.
    Stopped,
}

/// What the one who drives the session does after a wake.
#[derive(Clone, Copy, Debug, PartialEq, Eq, Structural)]
pub enum Action {
    /// Nothing; sleep until the next wake.
    Sleep,
    /// Make the periodic report and persist its total, then sleep.
    Tick,
    /// Leave the loop and finish the session.
    Finish,
    /// Leave the loop; the session has been told to stop before.
    Exit,
}

/// A session: its phase, the reading of the clock at which it began, the
/// reading at which the current reporting period began, and the length of
/// such a period in seconds.
#[derive(Clone, Copy, Debug, PartialEq, Eq, Structural)]
pub struct Session {
    pub phase: Phase,
    pub start: i64,
    pub last_tick: i64,
    pub interval: i64,
}

/// Whether, at the reading `now`, the current reporting period of `s` has
/// run its full length.
pub open spec fn due(s: Session, now: int) -> bool {
    now - s.last_tick >= s.interval * 1000
}

/// What a wake at the reading `now` asks for, `running` being what the
/// running flag holds then.
pub open spec fn action_on_wake(s: Session, now: int, running: bool) -> Action {
    match s.phase {
        Phase::Starting => Action::Sleep,
        Phase::Running => if !running {
            Action::Finish
        } else if due(s, now) {
            Action::Tick
        } else {
            Action::Sleep
        },
        Phase::Stopping => Action::Exit,
        Phase::Stopped => Action::Exit,
    }
}

/// The session after a wake at the reading `now`.
pub open spec fn after_wake(s: Session, now: i64, running: bool) -> Session {
    match action_on_wake(s, now as int, running) {
        Action::Finish => Session { phase: Phase::Stopping, ..s },
        Action::Tick => Session { last_tick: now, ..s },
        _ => s,
    }
}

/// The session once it has begun at the reading `now`.
pub open spec fn after_begin(s: Session, now: i64) -> Session {
    if s.phase == Phase::Starting {
        Session { phase: Phase::Running, start: now, last_tick: now, ..s }
    } else {
        s
    }
}

/// Whether finishing `s` makes the last report: whether `s` has begun and is
/// not over.
pub open spec fn owes_final_report(s: Session) -> bool {
    s.phase == Phase::Running || s.phase == Phase::Stopping
}

/// The session once it is finished.
pub open spec fn after_finish(s: Session) -> Session {
    Session { phase: Phase::Stopped, ..s }
}

impl Session {
    /// A session that has not begun, with reporting periods of `interval`
    /// seconds.
    pub fn new(interval: i64) -> (s: Session)
        ensures
            s == (Session { phase: Phase::Starting, start: 0, last_tick: 0, interval }),
    {
        Session { phase: Phase::Starting, start: 0, last_tick: 0, interval }
    }

    /// Begins the session at the reading `now`. A session that has begun
    /// before stays as it is.
    pub fn begin_at(&mut self, now: i64)
        ensures
            *final(self) == after_begin(*old(self), now),
    {
        if self.phase == Phase::Starting {
            self.phase = Phase::Running;
            self.start = now;
            self.last_tick = now;
        }
    }

    /// Begins the session at some reading of the clock.
    pub fn begin(&mut self)
        ensures
            exists|now: i64| 0 <= now && *final(self) == #[trigger] after_begin(*old(self), now),
    {
        let now = get_current_time();
        self.begin_at(now);
    }

    /// Takes a wake at the reading `now`, `running` being what the running
    /// flag holds, and says what is to be done.
    pub fn wake_at(&mut self, now: i64, running: bool) -> (action: Action)
        ensures
            action == action_on_wake(*old(self), now as int, running),
            *final(self) == after_wake(*old(self), now, running),
    {
        match self.phase {
            Phase::Starting => Action::Sleep,
            Phase::Running => {
                if !running {
                    self.phase = Phase::Stopping;
                    Action::Finish
                } else if now as i128 - self.last_tick as i128 >= self.interval as i128 * 1000 {
                    self.last_tick = now;
                    Action::Tick
                } else {
                    Action::Sleep
                }
            },
            Phase::Stopping => Action::Exit,
            Phase::Stopped => Action::Exit,
        }
    }

    /// Takes a wake at some reading of the clock.
    pub fn wake(&mut self, running: bool) -> (action: Action)
        ensures
            exists|now: i64|
                0 <= now && action == #[trigger] action_on_wake(*old(self), now as int, running)
                    && *final(self) == after_wake(*old(self), now, running),
    {
        let now = get_current_time();
        let action = self.wake_at(now, running);
        assert(action == action_on_wake(*old(self), now as int, running));
        action
    }

    /// Finishes the session, on whatever path it ends. Returns whether the
    /// last report is to be made now: it is for a session that has begun and
    /// was not finished before.
    pub fn finish(&mut self) -> (owed: bool)
        ensures
            owed == owes_final_report(*old(self)),
            *final(self) == after_finish(*old(self)),
    {
        let owed = self.phase == Phase::Running || self.phase == Phase::Stopping;
        self.phase = Phase::Stopped;
        owed
    }
}

/// One wake of a driven session, as the driver answers it: the session and
/// the persisted total `stored` before the wake, and both after it. A
/// periodic report persists the lifetime total at the reading `now`; a wake
/// that finds the flag down finishes the session, and the last report
/// persists the total at that reading.
pub open spec fn drive_one(s: Session, stored: int, now: i64, running: bool) -> (Session, int) {
    let next = after_wake(s, now, running);
    match action_on_wake(s, now as int, running) {
        Action::Tick => (next, total_time(s.start as int, now as int, stored)),
        Action::Finish => (after_finish(next), total_time(s.start as int, now as int, stored)),
        _ => (next, stored),
    }
}

/// A driven session after the wakes `wakes`, each a reading of the clock and
/// what the running flag held then.
pub open spec fn drive(s: Session, stored: int, wakes: Seq<(i64, bool)>) -> (Session, int)
    decreases wakes.len(),
{
    if wakes.len() == 0 {
        (s, stored)
    } else {
        let before = drive(s, stored, wakes.drop_last());
        drive_one(before.0, before.1, wakes.last().0, wakes.last().1)
    }
}

/// No wake lowers the persisted total.
pub proof fn lemma_wake_never_lowers(s: Session, stored: int, now: i64, running: bool)
    ensures
        drive_one(s, stored, now, running).1 >= stored,
        drive_one(s, stored, now, running).0.start == s.start,
{
    lemma_total_never_falls(s.start as int, now as int, now as int, stored);
}

/// Over a run of wakes the persisted total never falls: after any number of
/// the wakes it is at least what it was after fewer of them.
pub proof fn lemma_totals_never_fall(s: Session, stored: int, wakes: Seq<(i64, bool)>, k: int)
    requires
        0 <= k <= wakes.len(),
    ensures
        drive(s, stored, wakes.take(k)).1 <= drive(s, stored, wakes).1,
    decreases wakes.len() - k,
{
    if k == wakes.len() {
        assert(wakes.take(k) =~= wakes);
    } else {
        lemma_totals_never_fall(s, stored, wakes, k + 1);
        let longer = wakes.take(k + 1);
        assert(longer.drop_last() =~= wakes.take(k));
        let before = drive(s, stored, wakes.take(k));
        lemma_wake_never_lowers(before.0, before.1, longer.last().0, longer.last().1);
    }
}

/// While the flag is up a running session keeps running, with the start it
/// began with.
pub proof fn lemma_stays_running(s: Session, stored: int, wakes: Seq<(i64, bool)>)
    requires
        s.phase == Phase::Running,
        forall|i: int| 0 <= i < wakes.len() ==> (#[trigger] wakes[i]).1,
    ensures
        drive(s, stored, wakes).0.phase == Phase::Running,
        drive(s, stored, wakes).0.start == s.start,
    decreases wakes.len(),
{
    if wakes.len() > 0 {
        lemma_stays_running(s, stored, wakes.drop_last());
        assert(wakes.last().1);
    }
}

/// A session that is over stays as it is, and so does the persisted total,
/// whatever wakes follow.
pub proof fn lemma_stopped_is_final(s: Session, stored: int, wakes: Seq<(i64, bool)>)
    requires
        s.phase == Phase::Stopped,
    ensures
        drive(s, stored, wakes) == (s, stored),
    decreases wakes.len(),
{
    if wakes.len() > 0 {
        lemma_stopped_is_final(s, stored, wakes.drop_last());
    }
}

/// The last report is made once, and it has the last word. A running session
/// takes the wakes `ticks` with the flag up, then one wake at the reading
/// `stop` that finds the flag down, then the wakes `later`. However many
/// periodic reports `ticks` brought, the persisted total in the end is the
/// lifetime total at `stop`, built on what was persisted just before that
/// wake; the session is over, and nothing in `later` changes either.
pub proof fn lemma_final_report_once(
    s: Session,
    stored: int,
    ticks: Seq<(i64, bool)>,
    stop: i64,
    later: Seq<(i64, bool)>,
)
    requires
        s.phase == Phase::Running,
        forall|i: int| 0 <= i < ticks.len() ==> (#[trigger] ticks[i]).1,
    ensures
        ({
            let before = drive(s, stored, ticks);
            let after = drive(s, stored, ticks.push((stop, false)) + later);
            &&& after.0.phase == Phase::Stopped
            &&& after.1 == total_time(s.start as int, stop as int, before.1)
            &&& after == drive(s, stored, ticks.push((stop, false)))
        }),
{
    let stopped = ticks.push((stop, false));
    lemma_stays_running(s, stored, ticks);
    assert(stopped.drop_last() =~= ticks);
    let at_stop = drive(s, stored, stopped);
    assert(at_stop.0.phase == Phase::Stopped);
    lemma_drive_in_two(s, stored, stopped, later);
    lemma_stopped_is_final(at_stop.0, at_stop.1, later);
}

/// Driving through two runs of wakes, one after the other, is driving
/// through the first and going on from there through the second.
pub proof fn lemma_drive_in_two(
    s: Session,
    stored: int,
    first: Seq<(i64, bool)>,
    second: Seq<(i64, bool)>,
)
    ensures
        drive(s, stored, first + second) == ({
            let middle = drive(s, stored, first);
            drive(middle.0, middle.1, second)
        }),
    decreases second.len(),
{
    if second.len() == 0 {
        assert(first + second =~= first);
    } else {
        lemma_drive_in_two(s, stored, first, second.drop_last());
        assert((first + second).drop_last() =~= first + second.drop_last());
        assert((first + second).last() == second.last());
    }
}

} // verus!
