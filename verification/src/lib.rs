//! A Pomodoro focus timer's core: a round-tracking interval scheduler.
//!
//! The scheduler owns the current phase (work or pause), the absolute
//! deadline of the current interval, a round counter, and a flag that
//! guards the end-of-interval notification so it fires exactly once per
//! interval. Instants and durations are whole seconds; an instant is the
//! number of seconds since an arbitrary fixed epoch.
//!
//! Everything with temporal logic lives here, verified; the surrounding
//! application supplies the clock, renders the clock face, delivers
//! notifications, and stores the to-do list on disk.

pub mod laws;
pub mod scheduler;
pub mod tasks;
