//! A deadline-triggered reservation race.
//!
//! At a chosen instant the session fetches the candidate slots of a venue,
//! ranks them by closeness to a preferred time of day, and races them: each
//! candidate draws a quote and then commits it, while an exclusivity guard
//! makes sure that at most one commit is in flight and at most one succeeds.
//!
//! - `schedule`: validating the start time and stepping the wait for it.
//! - `slots`: reading candidate slots from an availability answer and
//!   ranking them.
//! - `task`: what a quote or commit answer means, and the commit request.
//! - `race`: the coordinator that decides the race, with its laws.
//! - `config`, `lookup`: session parameters and the identifiers they need.
//! - `json`, `error`: the answers' plain-value form and the error types.
pub mod config;
pub mod error;
pub mod json;
pub mod lookup;
pub mod race;
pub mod schedule;
pub mod slots;
pub mod task;
