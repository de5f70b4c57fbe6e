//! The interval scheduler: phase transitions, deadlines, rounds, and the
//! once-per-interval notification guard.

use vstd::prelude::*;

verus! {

/// Whether the scheduler currently represents a work interval or a break.
#[derive(Clone, Copy, Debug, PartialEq, Eq, Structural)]
pub enum Pomodoro {
    Working,
    Pause,
}

/// The interval-length settings, immutable for the process lifetime.
/// All durations are in whole seconds; `long_pause_every` is the round
/// interval at which a pause becomes long rather than short.
#[derive(Clone, Copy, Debug, PartialEq, Eq, Structural)]
pub struct DurationsConfig {
    pub work: u64,
    pub short_pause: u64,
    pub long_pause: u64,
    pub long_pause_every: u64,
}

impl DurationsConfig {
    /// A usable configuration: the round interval must not be zero, since
    /// duration selection takes the round count modulo this value.
    pub open spec fn wf(self) -> bool {
        self.long_pause_every >= 1
    }
}

/// The length of the interval being entered. A work interval always lasts
/// `work` seconds; a pause is long exactly when the round of work it
/// follows is a multiple of `long_pause_every`, and short otherwise.
pub open spec fn spec_duration(phase: Pomodoro, round: u64, cfg: DurationsConfig) -> u64
    recommends
        cfg.wf(),
{
    match phase {
        Pomodoro::Working => cfg.work,
        Pomodoro::Pause => if round % cfg.long_pause_every == 0 {
            cfg.long_pause
        } else {
            cfg.short_pause
        },
    }
}

/// Duration-selection policy, exposed independently of the scheduler's
/// mutable state. `phase` is the phase being entered and `round` the round
/// count after the transition.
pub fn duration_for(phase: Pomodoro, round: u64, cfg: &DurationsConfig) -> (d: u64)
    requires
        cfg.wf(),
    ensures
        d == spec_duration(phase, round, *cfg),
{
    match phase {
        Pomodoro::Working => cfg.work,
        Pomodoro::Pause => {
            if round % cfg.long_pause_every == 0 {
                cfg.long_pause
            } else {
                cfg.short_pause
            }
        },
    }
}

/// The scheduler's state: the sole stateful entity. `deadline` is the
/// absolute instant at which the current interval is complete; `notified`
/// is true once the end of the current interval has been reported;
/// `round` counts the work intervals begun since the state was created.
#[derive(Clone, Copy, Debug, PartialEq, Eq, Structural)]
pub struct State {
    pub phase: Pomodoro,
    pub deadline: u64,
    pub notified: bool,
    pub round: u64,
}

/// What one call of `tick` reports: time left before the deadline, the
/// single end-of-interval signal, or the overrun past an already-reported
/// deadline.
#[derive(Clone, Copy, Debug, PartialEq, Eq, Structural)]
pub enum TickResult {
    Remaining { remaining: u64 },
    JustExpired { phase: Pomodoro, round: u64, overrun: u64 },
    Overrun { overrun: u64 },
}

/// The next deadline would not be representable; the state was left
/// unchanged.
#[derive(Clone, Copy, Debug, PartialEq, Eq, Structural)]
pub struct DurationOverflowError;

/// What a successful `advance` reports: the phase and round just entered
/// and the deadline scheduled for them.
#[derive(Clone, Copy, Debug, PartialEq, Eq, Structural)]
pub struct Advanced {
    pub phase: Pomodoro,
    pub round: u64,
    pub deadline: u64,
}

/// What `tick` returns, as a function of the state and the clock reading.
/// The difference taken is always the earlier instant subtracted from the
/// later, so it is defined on every input.
pub open spec fn spec_tick_result(s: State, now: u64) -> TickResult {
    if now < s.deadline {
        TickResult::Remaining { remaining: (s.deadline - now) as u64 }
    } else if !s.notified {
        TickResult::JustExpired { phase: s.phase, round: s.round, overrun: (now - s.deadline) as u64 }
    } else {
        TickResult::Overrun { overrun: (now - s.deadline) as u64 }
    }
}

/// The state after `tick`: at most the notification flag advances; the
/// phase, round and deadline are never touched.
pub open spec fn spec_tick_state(s: State, now: u64) -> State {
    State {
        phase: s.phase,
        deadline: s.deadline,
        notified: s.notified || now >= s.deadline,
        round: s.round,
    }
}

/// The phase entered by the next transition: the two phases alternate.
pub open spec fn spec_next_phase(phase: Pomodoro) -> Pomodoro {
    match phase {
        Pomodoro::Working => Pomodoro::Pause,
        Pomodoro::Pause => Pomodoro::Working,
    }
}

/// The round count after the next transition: entering a work interval
/// (that is, leaving a pause) increments it by exactly one; entering a
/// pause leaves it unchanged.
pub open spec fn spec_next_round(phase: Pomodoro, round: u64) -> u64
    recommends
        phase is Pause ==> round < u64::MAX,
{
    match phase {
        Pomodoro::Pause => (round + 1) as u64,
        Pomodoro::Working => round,
    }
}

/// The deadline `advance` would schedule, as an unbounded integer, so
/// that overflow of the representable instant range can be spoken of.
pub open spec fn spec_next_deadline(s: State, now: u64, cfg: DurationsConfig) -> int {
    now + spec_duration(spec_next_phase(s.phase), spec_next_round(s.phase, s.round), cfg)
}

/// The state after a successful `advance`: the next phase and round, the
/// freshly scheduled deadline, and the notification guard re-armed.
pub open spec fn spec_advance_state(s: State, now: u64, cfg: DurationsConfig) -> State
    recommends
        spec_next_deadline(s, now, cfg) <= u64::MAX,
{
    State {
        phase: spec_next_phase(s.phase),
        deadline: spec_next_deadline(s, now, cfg) as u64,
        notified: false,
        round: spec_next_round(s.phase, s.round),
    }
}

/// What `advance` does, as a function of the state, the clock reading and
/// the configuration: the new state paired with what it returns. When the
/// next deadline would not fit, the state is unchanged and the call fails.
pub open spec fn spec_advance(s: State, now: u64, cfg: DurationsConfig) -> (
    State,
    Result<Advanced, DurationOverflowError>,
) {
    if spec_next_deadline(s, now, cfg) <= u64::MAX {
        let s2 = spec_advance_state(s, now, cfg);
        (s2, Ok(Advanced { phase: s2.phase, round: s2.round, deadline: s2.deadline }))
    } else {
        (s, Err(DurationOverflowError))
    }
}

impl State {
    /// The state at application start: a pause whose deadline has already
    /// arrived and has already been reported, so the first transition waits
    /// on the user. No work interval has begun yet.
    pub fn new(now: u64) -> (s: State)
        ensures
            s == (State { phase: Pomodoro::Pause, deadline: now, notified: true, round: 0u64 }),
    {
        State { phase: Pomodoro::Pause, deadline: now, notified: true, round: 0 }
    }

    /// Compare the clock against the deadline and report the remaining or
    /// overrun seconds. Crossing the deadline is reported as `JustExpired`
    /// exactly once — the single signal meant to trigger a notification —
    /// and as `Overrun` on every later call. Only the notification flag is
    /// ever written; the phase, round and deadline stay as they are.
    pub fn tick(&mut self, now: u64) -> (r: TickResult)
        ensures
            *final(self) == spec_tick_state(*old(self), now),
            r == spec_tick_result(*old(self), now),
            final(self).phase == old(self).phase,
            final(self).round == old(self).round,
            final(self).deadline == old(self).deadline,
    {
        if now < self.deadline {
            TickResult::Remaining { remaining: self.deadline - now }
        } else {
            let overrun: u64 = now - self.deadline;
            if !self.notified {
                self.notified = true;
                TickResult::JustExpired { phase: self.phase, round: self.round, overrun }
            } else {
                TickResult::Overrun { overrun }
            }
        }
    }

    /// End the current interval and schedule the next one: leaving a pause
    /// enters a work interval and increments the round; leaving work enters
    /// a pause whose length the round decides. On success the deadline
    /// becomes `now` plus the selected duration and the notification guard
    /// is re-armed. If that deadline would not be representable, nothing
    /// changes and the call fails.
    pub fn advance(&mut self, now: u64, cfg: &DurationsConfig) -> (r: Result<
        Advanced,
        DurationOverflowError,
    >)
        requires
            cfg.wf(),
            old(self).phase is Pause ==> old(self).round < u64::MAX,
        ensures
            *final(self) == spec_advance(*old(self), now, *cfg).0,
            r == spec_advance(*old(self), now, *cfg).1,
            r is Ok <==> spec_next_deadline(*old(self), now, *cfg) <= u64::MAX,
            r is Ok ==> !final(self).notified,
            r is Err ==> *final(self) == *old(self),
    {
        let new_phase = match self.phase {
            Pomodoro::Working => Pomodoro::Pause,
            Pomodoro::Pause => Pomodoro::Working,
        };
        let new_round: u64 = match self.phase {
            Pomodoro::Pause => self.round + 1,
            Pomodoro::Working => self.round,
        };
        let d = duration_for(new_phase, new_round, cfg);
        if d <= u64::MAX - now {
            self.phase = new_phase;
            self.round = new_round;
            self.deadline = now + d;
            self.notified = false;
            Ok(Advanced { phase: new_phase, round: new_round, deadline: now + d })
        } else {
            Err(DurationOverflowError)
        }
    }
}

/// The numbers a clock face shows for one tick report: a sign and the
/// seconds split into minutes and seconds.
#[derive(Clone, Copy, Debug, PartialEq, Eq, Structural)]
pub struct ClockDisplay {
    pub overrun: bool,
    pub minutes: u64,
    pub seconds: u64,
}

/// The signed second count behind a tick report: the remaining seconds
/// counting down, or the seconds elapsed past the deadline counting up.
pub open spec fn spec_display_seconds(r: TickResult) -> (bool, u64) {
    match r {
        TickResult::Remaining { remaining } => (false, remaining),
        TickResult::JustExpired { phase: _, round: _, overrun } => (true, overrun),
        TickResult::Overrun { overrun } => (true, overrun),
    }
}

/// Split a tick report into the minutes and seconds a presentation
/// renders as `m:ss`, prefixed with a minus sign when the deadline is
/// overrun.
pub fn clock_display(r: &TickResult) -> (d: ClockDisplay)
    ensures
        d.overrun == spec_display_seconds(*r).0,
        d.minutes == spec_display_seconds(*r).1 / 60,
        d.seconds == spec_display_seconds(*r).1 % 60,
        d.seconds < 60,
{
    let (overrun, secs): (bool, u64) = match *r {
        TickResult::Remaining { remaining } => (false, remaining),
        TickResult::JustExpired { phase: _, round: _, overrun } => (true, overrun),
        TickResult::Overrun { overrun } => (true, overrun),
    };
    ClockDisplay { overrun, minutes: secs / 60, seconds: secs % 60 }
}

} // verus!
