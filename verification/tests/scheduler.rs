use pomodoro::scheduler::{
    clock_display, duration_for, Advanced, ClockDisplay, DurationOverflowError, DurationsConfig,
    Pomodoro, State, TickResult,
};

fn cfg() -> DurationsConfig {
    DurationsConfig { work: 1500, short_pause: 300, long_pause: 900, long_pause_every: 4 }
}

#[test]
fn initial_state_is_elapsed_pause() {
    let s = State::new(77);
    assert_eq!(s.phase, Pomodoro::Pause);
    assert_eq!(s.deadline, 77);
    assert!(s.notified);
    assert_eq!(s.round, 0);
}

#[test]
fn tick_before_deadline_reports_remaining() {
    let mut s = State::new(0);
    s.advance(0, &cfg()).unwrap();
    let r = s.tick(1000);
    assert_eq!(r, TickResult::Remaining { remaining: 500 });
    assert!(!s.notified);
    let r = s.tick(1499);
    assert_eq!(r, TickResult::Remaining { remaining: 1 });
    assert!(!s.notified);
}

#[test]
fn tick_at_deadline_expires() {
    let mut s = State::new(0);
    s.advance(0, &cfg()).unwrap();
    let r = s.tick(1500);
    assert_eq!(r, TickResult::JustExpired { phase: Pomodoro::Working, round: 1, overrun: 0 });
    assert!(s.notified);
}

#[test]
fn expiry_is_reported_exactly_once() {
    let mut s = State::new(0);
    s.advance(0, &cfg()).unwrap();
    let first = s.tick(1600);
    assert_eq!(first, TickResult::JustExpired { phase: Pomodoro::Working, round: 1, overrun: 100 });
    let second = s.tick(1700);
    assert_eq!(second, TickResult::Overrun { overrun: 200 });
    let third = s.tick(1800);
    assert_eq!(third, TickResult::Overrun { overrun: 300 });
}

#[test]
fn tick_is_idempotent_at_one_instant() {
    let mut s = State::new(0);
    s.advance(0, &cfg()).unwrap();
    let first = s.tick(2000);
    assert_eq!(first, TickResult::JustExpired { phase: Pomodoro::Working, round: 1, overrun: 500 });
    let again = s.tick(2000);
    assert_eq!(again, TickResult::Overrun { overrun: 500 });
    let again = s.tick(2000);
    assert_eq!(again, TickResult::Overrun { overrun: 500 });
    let before = State { phase: Pomodoro::Pause, deadline: 100, notified: false, round: 2 };
    let mut s = before;
    let r = s.tick(50);
    assert_eq!(r, TickResult::Remaining { remaining: 50 });
    assert_eq!(s, before);
    let r = s.tick(50);
    assert_eq!(r, TickResult::Remaining { remaining: 50 });
    assert_eq!(s, before);
}

#[test]
fn advance_resets_flag_and_schedules() {
    let mut s = State { phase: Pomodoro::Working, deadline: 40, notified: true, round: 2 };
    let a = s.advance(100, &cfg()).unwrap();
    assert_eq!(a, Advanced { phase: Pomodoro::Pause, round: 2, deadline: 100 + 300 });
    assert!(!s.notified);
    assert_eq!(s.deadline, 400);
}

#[test]
fn round_increments_only_when_work_starts() {
    let c = cfg();
    let mut s = State::new(0);
    let mut now: u64 = 0;
    for expected_round in 1..=5u64 {
        let a = s.advance(now, &c).unwrap();
        assert_eq!(a.phase, Pomodoro::Working);
        assert_eq!(a.round, expected_round);
        now = a.deadline;
        let a = s.advance(now, &c).unwrap();
        assert_eq!(a.phase, Pomodoro::Pause);
        assert_eq!(a.round, expected_round);
        now = a.deadline;
    }
    assert_eq!(s.round, 5);
}

#[test]
fn pause_after_every_third_round_is_long() {
    let c = DurationsConfig { work: 100, short_pause: 7, long_pause: 31, long_pause_every: 3 };
    for round in 0..10u64 {
        let d = duration_for(Pomodoro::Pause, round, &c);
        if round % 3 == 0 {
            assert_eq!(d, 31);
        } else {
            assert_eq!(d, 7);
        }
        assert_eq!(duration_for(Pomodoro::Working, round, &c), 100);
    }
}

#[test]
fn every_pause_is_long_when_interval_is_one() {
    let c = DurationsConfig { work: 100, short_pause: 7, long_pause: 31, long_pause_every: 1 };
    for round in 0..5u64 {
        assert_eq!(duration_for(Pomodoro::Pause, round, &c), 31);
    }
}

#[test]
fn scenario_work_then_short_pause() {
    let c = cfg();
    let mut s = State::new(0);
    let a = s.advance(0, &c).unwrap();
    assert_eq!(a, Advanced { phase: Pomodoro::Working, round: 1, deadline: 1500 });
    let r = s.tick(1500);
    assert_eq!(r, TickResult::JustExpired { phase: Pomodoro::Working, round: 1, overrun: 0 });
    let a = s.advance(1500, &c).unwrap();
    assert_eq!(a, Advanced { phase: Pomodoro::Pause, round: 1, deadline: 1800 });
}

#[test]
fn scenario_fourth_round_earns_long_pause() {
    let c = cfg();
    let mut s = State::new(0);
    let mut now: u64 = 0;
    for _ in 0..3 {
        now = s.advance(now, &c).unwrap().deadline;
        now = s.advance(now, &c).unwrap().deadline;
    }
    assert_eq!(s.round, 3);
    assert_eq!(s.phase, Pomodoro::Pause);
    let a = s.advance(now, &c).unwrap();
    assert_eq!(a.phase, Pomodoro::Working);
    assert_eq!(a.round, 4);
    let before = a.deadline;
    let a = s.advance(before, &c).unwrap();
    assert_eq!(a.phase, Pomodoro::Pause);
    assert_eq!(a.deadline, before + 900);
}

#[test]
fn scenario_late_tick_reports_full_overrun() {
    let mut s = State { phase: Pomodoro::Working, deadline: 1000, notified: false, round: 1 };
    let r = s.tick(6000);
    assert_eq!(r, TickResult::JustExpired { phase: Pomodoro::Working, round: 1, overrun: 5000 });
    let r = s.tick(6001);
    assert_eq!(r, TickResult::Overrun { overrun: 5001 });
}

#[test]
fn scenario_overflowing_deadline_changes_nothing() {
    let c = cfg();
    let mut s = State::new(0);
    s.tick(3);
    let before = s;
    let r = s.advance(u64::MAX - 5, &c);
    assert_eq!(r, Err(DurationOverflowError));
    assert_eq!(s, before);
    let r = s.tick(9);
    assert_eq!(r, TickResult::Overrun { overrun: 9 });
    let a = s.advance(9, &c).unwrap();
    assert_eq!(a, Advanced { phase: Pomodoro::Working, round: 1, deadline: 1509 });
}

#[test]
fn deadline_at_instant_range_end_is_allowed() {
    let c = DurationsConfig { work: 10, short_pause: 1, long_pause: 2, long_pause_every: 4 };
    let mut s = State::new(0);
    let a = s.advance(u64::MAX - 10, &c).unwrap();
    assert_eq!(a.deadline, u64::MAX);
    assert_eq!(s.tick(u64::MAX - 1), TickResult::Remaining { remaining: 1 });
}

#[test]
fn clock_display_splits_minutes_and_seconds() {
    let d = clock_display(&TickResult::Remaining { remaining: 800 });
    assert_eq!(d, ClockDisplay { overrun: false, minutes: 13, seconds: 20 });
    let d = clock_display(&TickResult::Overrun { overrun: 61 });
    assert_eq!(d, ClockDisplay { overrun: true, minutes: 1, seconds: 1 });
    let d = clock_display(&TickResult::JustExpired { phase: Pomodoro::Pause, round: 2, overrun: 0 });
    assert_eq!(d, ClockDisplay { overrun: true, minutes: 0, seconds: 0 });
}
