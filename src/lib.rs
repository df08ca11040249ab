//! Recursive smoothing filters for fixed-rate, single-channel signals.
//!
//! Real quantities are carried in fixed point: samples are integers in the
//! caller's own unit, time constants are whole nanoseconds and per-sample
//! gains are parts of `gain::GAIN_ONE`.
pub mod error;
pub mod gain;
pub mod smoothing;
pub mod signal;
