//! Core of a desktop activity tracker: it turns a stream of window-focus and
//! idle readings into debounced focus transitions and contiguous, time-bounded
//! activity sessions.
//!
//! The operating-system queries themselves (which window is focused, how long
//! the user has been idle) are performed by the surrounding application; this
//! crate holds the logic that normalizes their readings, classifies
//! transitions, and assembles sessions, all with verified contracts.

pub mod classify;
pub mod sample;
pub mod session;
pub mod tracker;
