//! Constrained random selection of inspection counterparts.
//!
//! A draw assigns a counterpart to a target department under exclusion
//! rules: the counterpart must match the requested specialty, must not be
//! (or belong to) the target, must not repeat the most recent winner for
//! the same pair, and must honor the round-scoped exclusions — nobody is
//! selected twice per round and category, and reciprocal assignments are
//! avoided. A uniform random pick over the filtered set decides the draw,
//! and a timed rolling-animation state machine, fed by injected time
//! deltas, reveals the outcome.

pub mod helpers;
pub mod models;
pub mod rng;
pub mod round;
pub mod draw;
pub mod animation;
pub mod session;
pub mod panel;
