//! A multi-track audio playback core: speaker-topology modeling and channel
//! routing, per-asset time addressing within a track, and the bookkeeping of
//! asynchronous sample-rate conversion feeding a real-time mixing callback.
//!
//! Sample amplitudes are carried as fixed-point `i64` values; the unverified
//! shell converts to the device's floating-point format at the boundary.

pub mod id;
pub mod mapping;
pub mod playback;
pub mod resampler;
pub mod router;
pub mod sample;
pub mod speakers;
pub mod state;
pub mod track;
pub mod util;
