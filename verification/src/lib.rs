//! Verified core of a bridge between byte-oriented callers and a frame-based
//! noise-suppression engine.
//!
//! The engine is never called from here. This crate owns what surrounds it:
//! the little-endian sample codec, the validation and staging of frames, the
//! fixed parameters an engine is built with, and the table that turns engine
//! instances into opaque tokens. Samples and tuning values travel as the bit
//! patterns of 32-bit IEEE-754 numbers, held in `u32`.

pub mod codec;
pub mod error;
pub mod frame;
pub mod handle;
pub mod params;
pub mod bridge;
