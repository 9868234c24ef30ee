//! Real-time per-block audio processing core for a gain effect.
//!
//! The engine applies a smoothly time-varying gain to each block of audio
//! samples, keeps a decaying peak-level estimate for metering, and reacts to
//! timestamped control events inside a block. Samples and gains are held as
//! Q16.16 fixed-point integers so that every arithmetic step has an exact
//! contract; the host boundary converts to and from its native sample type.

pub mod fixed;
pub mod smoother;
pub mod meter;
pub mod events;
pub mod block;
pub mod trajectory;
pub mod amplitude;
pub mod engine;
