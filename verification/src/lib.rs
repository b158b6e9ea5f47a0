//! Verified integer core of the sonar simulator's DSP engine.
//!
//! The floating-point synthesis runs around this crate; what is decided or
//! computed on integers and bytes stands here with its contracts.

pub mod analysis;
pub mod bit_reverse;
pub mod offline;
pub mod ring;
pub mod source;
