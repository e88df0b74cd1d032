//! Core of a terminal radar sweep simulator.
//!
//! A rotating beam advances at a fixed angular rate over a polar field of
//! moving objects; objects the beam sweeps over become contacts whose
//! visibility fades with time since the last detection.  All quantities are
//! fixed-point integers: angles in millidegrees, distances in thousandths of
//! a range unit, times in milliseconds, and visibility in thousandths.

pub mod radar;
mod rng;
pub mod scheduler;
pub mod threadpool;
pub mod units;
