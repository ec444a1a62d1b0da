use code_clocker::report::{final_report_at, periodic_report_at};
use code_clocker::session::{Action, Phase, Session};
use code_clocker::time_handler::get_current_time;

fn running(start: i64, interval: i64) -> Session {
    let mut s = Session::new(interval);
    s.begin_at(start);
    s
}

#[test]
fn a_new_session_has_not_begun() {
    let s = Session::new(3600);
    assert_eq!(s, Session { phase: Phase::Starting, start: 0, last_tick: 0, interval: 3600 });
}

#[test]
fn beginning_takes_the_start() {
    let s = running(5_000, 3600);
    assert_eq!(s, Session { phase: Phase::Running, start: 5_000, last_tick: 5_000, interval: 3600 });
}

#[test]
fn beginning_twice_keeps_the_first_start() {
    let mut s = running(5_000, 3600);
    s.begin_at(9_000);
    assert_eq!(s.start, 5_000);
    assert_eq!(s.last_tick, 5_000);
    assert_eq!(s.phase, Phase::Running);
}

#[test]
fn beginning_by_the_clock() {
    let before = get_current_time();
    let mut s = Session::new(3600);
    s.begin();
    assert_eq!(s.phase, Phase::Running);
    assert!(s.start >= before);
    assert_eq!(s.last_tick, s.start);
}

#[test]
fn a_wake_before_the_beginning_does_nothing() {
    let mut s = Session::new(1);
    assert_eq!(s.wake_at(10_000_000, true), Action::Sleep);
    assert_eq!(s.wake_at(10_000_000, false), Action::Sleep);
    assert_eq!(s.phase, Phase::Starting);
}

#[test]
fn a_report_is_due_when_the_period_is_over() {
    let mut s = running(1_000, 3600);
    assert_eq!(s.wake_at(1_100, true), Action::Sleep);
    assert_eq!(s.wake_at(3_600_999, true), Action::Sleep);
    assert_eq!(s.last_tick, 1_000);
    assert_eq!(s.wake_at(3_601_000, true), Action::Tick);
    assert_eq!(s.last_tick, 3_601_000);
    assert_eq!(s.start, 1_000);
    assert_eq!(s.phase, Phase::Running);
}

#[test]
fn a_report_opens_a_new_period() {
    let mut s = running(0, 3600);
    assert_eq!(s.wake_at(3_600_050, true), Action::Tick);
    assert_eq!(s.wake_at(3_600_150, true), Action::Sleep);
    assert_eq!(s.wake_at(7_200_049, true), Action::Sleep);
    assert_eq!(s.wake_at(7_200_050, true), Action::Tick);
    assert_eq!(s.last_tick, 7_200_050);
}

#[test]
fn a_clock_set_back_brings_no_report() {
    let mut s = running(10_000, 60);
    assert_eq!(s.wake_at(-5_000_000, true), Action::Sleep);
    assert_eq!(s.last_tick, 10_000);
}

#[test]
fn readings_at_the_ends_of_the_range() {
    let mut s = running(i64::MIN, i64::MAX);
    assert_eq!(s.wake_at(i64::MAX, true), Action::Sleep);
    let mut s = running(i64::MIN, 1);
    assert_eq!(s.wake_at(i64::MAX, true), Action::Tick);
    let mut s = running(i64::MAX, i64::MIN);
    assert_eq!(s.wake_at(i64::MIN, true), Action::Tick);
}

#[test]
fn the_flag_down_stops_the_session() {
    let mut s = running(0, 3600);
    assert_eq!(s.wake_at(500, false), Action::Finish);
    assert_eq!(s.phase, Phase::Stopping);
    assert_eq!(s.last_tick, 0);
}

#[test]
fn the_flag_down_wins_over_a_due_report() {
    let mut s = running(0, 3600);
    assert_eq!(s.wake_at(3_600_000, false), Action::Finish);
    assert_eq!(s.phase, Phase::Stopping);
}

#[test]
fn no_wake_after_the_stop_asks_for_anything() {
    let mut s = running(0, 1);
    assert_eq!(s.wake_at(500, false), Action::Finish);
    assert_eq!(s.wake_at(5_000, true), Action::Exit);
    assert_eq!(s.wake_at(5_000, false), Action::Exit);
    assert_eq!(s.phase, Phase::Stopping);
    assert!(s.finish());
    assert_eq!(s.wake_at(9_000, true), Action::Exit);
    assert_eq!(s.phase, Phase::Stopped);
}

#[test]
fn the_last_report_is_owed_once() {
    let mut s = running(0, 3600);
    assert_eq!(s.wake_at(500, false), Action::Finish);
    assert!(s.finish());
    assert_eq!(s.phase, Phase::Stopped);
    assert!(!s.finish());
    assert!(!s.finish());
    assert_eq!(s.phase, Phase::Stopped);
}

#[test]
fn a_running_session_that_ends_owes_the_last_report() {
    let mut s = running(0, 3600);
    assert!(s.finish());
    assert!(!s.finish());
}

#[test]
fn a_session_that_never_began_owes_nothing() {
    let mut s = Session::new(3600);
    assert!(!s.finish());
    assert_eq!(s.phase, Phase::Stopped);
    s.begin_at(100);
    assert_eq!(s.phase, Phase::Stopped);
}

#[test]
fn waking_by_the_clock() {
    let mut s = Session::new(3600);
    s.begin();
    assert_eq!(s.wake(true), Action::Sleep);
    s.last_tick -= 3_600_000;
    assert_eq!(s.wake(true), Action::Tick);
    assert!(s.last_tick >= s.start);
    assert_eq!(s.wake(false), Action::Finish);
    assert_eq!(s.wake(false), Action::Exit);
}

// Drives a session over a slot held in memory, as the program does over the
// file: reports on `Tick`, the last report on `Finish`.
fn drive(s: &mut Session, slot: &mut Option<String>, wakes: &[(i64, bool)]) -> Vec<i64> {
    let mut totals: Vec<i64> = Vec::new();
    for &(now, flag) in wakes {
        match s.wake_at(now, flag) {
            Action::Sleep => {}
            Action::Tick => {
                let r = periodic_report_at(s.start, now, slot.as_deref(), String::from("Hi :)"))
                    .unwrap();
                totals.push(r.total);
                *slot = Some(r.persist);
            }
            Action::Finish => {
                if s.finish() {
                    let r = final_report_at(s.start, now, slot.as_deref()).unwrap();
                    totals.push(r.total);
                    *slot = Some(r.persist);
                }
            }
            Action::Exit => {}
        }
    }
    totals
}

#[test]
fn a_run_without_a_periodic_report_still_persists_at_the_stop() {
    let mut s = running(1_000, 3600);
    let mut slot = Some(String::from("5000\n"));
    let totals = drive(&mut s, &mut slot, &[(1_100, true), (1_200, true), (1_300, false)]);
    assert_eq!(totals, vec![5_300]);
    assert_eq!(slot, Some(String::from("5300\n")));
    assert_eq!(s.phase, Phase::Stopped);
}

#[test]
fn the_stop_has_the_last_word_after_periodic_reports() {
    let hour: i64 = 3_600_000;
    let mut s = running(0, 3600);
    let mut slot: Option<String> = None;
    let wakes = [
        (100, true),
        (hour, true),
        (hour + 100, true),
        (2 * hour, true),
        (2 * hour + 500, true),
        (2 * hour + 700, false),
        (2 * hour + 800, false),
        (9 * hour, true),
    ];
    let totals = drive(&mut s, &mut slot, &wakes);
    // Two periodic reports, then the last one, each on top of what the slot held.
    assert_eq!(totals, vec![hour, hour + 2 * hour, 3 * hour + 2 * hour + 700]);
    assert_eq!(slot, Some(format!("{}\n", 5 * hour + 700)));
    assert_eq!(s.phase, Phase::Stopped);
}

#[test]
fn totals_never_fall_over_a_run() {
    let mut s = running(50_000, 1);
    let mut slot = Some(String::from("123\n"));
    let wakes = [
        (51_000, true),
        (40_000, true),
        (52_500, true),
        (52_400, true),
        (53_500, true),
        (10, true),
        (60_000, true),
        (20, false),
    ];
    let totals = drive(&mut s, &mut slot, &wakes);
    assert_eq!(totals, vec![1_123, 3_623, 7_123, 17_123, 17_123]);
    for pair in totals.windows(2) {
        assert!(pair[0] <= pair[1]);
    }
}
