//! A brick-breaking arcade game simulation in fixed-point integer units.
//!
//! Lengths are micro-pixels (one millionth of a pixel), times are
//! milliseconds, and speeds are micro-pixels per millisecond, so a speed of
//! `1_000` is one pixel per second. Every step of the simulation is exact
//! integer arithmetic, and each step is specified by a spec function over
//! plain values.

pub mod config;
pub mod geometry;
pub mod ball;
pub mod paddle;
pub mod brick;
pub mod particle;
pub mod game;
pub mod laws;
