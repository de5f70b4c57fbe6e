//! The scheduler's laws: properties that relate several calls, stated over
//! the spec functions that `tick` and `advance` are proved against.

use vstd::prelude::*;
use crate::scheduler::{
    spec_advance, spec_duration, spec_next_deadline, spec_next_phase, spec_next_round,
    spec_tick_result, spec_tick_state, DurationsConfig, Pomodoro, State, TickResult,
};

verus! {

/// A tick before the deadline reports exactly the seconds remaining and
/// changes nothing at all — in particular the notification flag keeps
/// whatever value it had.
pub proof fn lemma_tick_before_deadline(s: State, now: u64)
    requires
        now < s.deadline,
    ensures
        spec_tick_result(s, now) == (TickResult::Remaining {
            remaining: (s.deadline - now) as u64,
        }),
        spec_tick_state(s, now) == s,
{
}

/// The end of an interval is reported exactly once. The first tick at or
/// past a deadline not yet reported returns `JustExpired` and sets the
/// flag; from then on, any tick at or past the deadline returns `Overrun`
/// with the elapsed seconds, and never `JustExpired` again — only
/// `advance` re-arms the flag.
pub proof fn lemma_notifies_exactly_once(s: State, now: u64, later: u64)
    requires
        !s.notified,
        s.deadline <= now,
        s.deadline <= later,
    ensures
        spec_tick_result(s, now) == (TickResult::JustExpired {
            phase: s.phase,
            round: s.round,
            overrun: (now - s.deadline) as u64,
        }),
        spec_tick_state(s, now).notified,
        spec_tick_result(spec_tick_state(s, now), later) == (TickResult::Overrun {
            overrun: (later - s.deadline) as u64,
        }),
        spec_tick_state(spec_tick_state(s, now), later) == spec_tick_state(s, now),
{
}

/// Ticking is idempotent: after one tick at some instant, further ticks at
/// the same instant leave the state fixed and all return one same result,
/// which is never a second `JustExpired`.
pub proof fn lemma_tick_idempotent(s: State, now: u64)
    ensures
        spec_tick_state(spec_tick_state(s, now), now) == spec_tick_state(s, now),
        spec_tick_result(spec_tick_state(s, now), now) == spec_tick_result(
            spec_tick_state(spec_tick_state(s, now), now),
            now,
        ),
        !(spec_tick_result(spec_tick_state(s, now), now) is JustExpired),
{
}

/// A successful advance always re-arms the notification guard and
/// schedules the deadline at `now` plus the duration selected for the
/// phase and round being entered.
pub proof fn lemma_advance_schedules(s: State, now: u64, cfg: DurationsConfig)
    requires
        spec_next_deadline(s, now, cfg) <= u64::MAX,
    ensures
        !spec_advance(s, now, cfg).0.notified,
        spec_advance(s, now, cfg).0.deadline == now + spec_duration(
            spec_next_phase(s.phase),
            spec_next_round(s.phase, s.round),
            cfg,
        ),
{
}

/// Which pause follows which round: a pause is long exactly when the round
/// of work it follows is a multiple of the configured interval, and short
/// otherwise; a work interval always gets the work duration.
pub proof fn lemma_duration_selection(round: u64, cfg: DurationsConfig)
    requires
        cfg.wf(),
    ensures
        spec_duration(Pomodoro::Working, round, cfg) == cfg.work,
        round % cfg.long_pause_every == 0 ==> spec_duration(Pomodoro::Pause, round, cfg)
            == cfg.long_pause,
        round % cfg.long_pause_every != 0 ==> spec_duration(Pomodoro::Pause, round, cfg)
            == cfg.short_pause,
{
}

/// The phase and round after `k` transitions. Each transition is exactly
/// the phase/round step a successful `advance` takes, which depends on
/// neither the clock nor the configuration.
pub open spec fn steps(phase: Pomodoro, round: u64, k: nat) -> (Pomodoro, u64)
    decreases k,
{
    if k == 0 {
        (phase, round)
    } else {
        let prev = steps(phase, round, (k - 1) as nat);
        (spec_next_phase(prev.0), spec_next_round(prev.0, prev.1))
    }
}

/// One successful advance performs exactly one step of the phase/round
/// machine.
pub proof fn lemma_advance_is_step(s: State, now: u64, cfg: DurationsConfig)
    requires
        spec_next_deadline(s, now, cfg) <= u64::MAX,
    ensures
        steps(s.phase, s.round, 1) == (spec_advance(s, now, cfg).0.phase, spec_advance(
            s,
            now,
            cfg,
        ).0.round),
{
    assert(steps(s.phase, s.round, 0) == (s.phase, s.round));
}

/// The round counts completed work intervals: starting from a pause, `n`
/// full cycles (work, then the pause after it) raise the round by exactly
/// `n` and return to a pause. The round never moves on the transition into
/// a pause.
pub proof fn lemma_round_counts_cycles(round: u64, n: nat)
    requires
        round + n <= u64::MAX,
    ensures
        steps(Pomodoro::Pause, round, 2 * n) == (Pomodoro::Pause, (round + n) as u64),
    decreases n,
{
    if n > 0 {
        lemma_round_counts_cycles(round, (n - 1) as nat);
        assert(2 * n - 2 == 2 * ((n - 1) as nat));
        assert(steps(Pomodoro::Pause, round, (2 * n - 1) as nat) == (Pomodoro::Working, (round
            + n) as u64));
    }
}

} // verus!
