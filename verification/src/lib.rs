//! Time-interval scheduling engine for a dynamic wallpaper setter.
//!
//! The library models clock times as minutes since midnight, builds and
//! validates daily breakpoint schedules (allowing a single wraparound past
//! midnight), and selects the image that is active at a given time.

pub mod errors;
pub mod schedule;
pub mod time_track;
