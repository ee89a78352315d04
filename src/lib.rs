//! Per-frame UI interaction toolkit: responsive layout, position and colour
//! smoothing, pointer hit-testing and click dispatch.
//!
//! All quantities are fixed-point integers: lengths, positions and colour
//! channels count thousandths of a unit, durations count microseconds, and
//! proportional rates count thousandths per second.
pub mod geometry;
pub mod smoothing;
pub mod color;
pub mod responsive;
pub mod buttoning;
pub mod world;
pub mod pipeline;
pub mod menu;
