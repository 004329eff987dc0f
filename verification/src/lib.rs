//! Cuts an audio timeline into consecutive segments at the midpoints of long
//! silences, and numbers the resulting files so that repeated runs never
//! collide.
//!
//! All times are whole microseconds held in a `u64`.

pub mod allocator;
pub mod cut_points;
pub mod decimal;
pub mod detector;
pub mod driver;
pub mod matcher;
pub mod parameters;
pub mod pattern;
pub mod planner;
pub mod silence;
pub mod timestamp;
