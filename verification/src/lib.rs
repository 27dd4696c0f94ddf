//! Streaming spectral analysis: fixed-size frame aggregation and a rolling
//! spectrogram history, with machine-checked contracts.
//!
//! Samples and magnitudes are opaque to this crate: every container is
//! generic over its element type, so the numeric transform that turns an
//! analysis window into a spectral frame is supplied by the caller.

pub mod aggregator;
pub mod audio;
pub mod constants;
pub mod display;
pub mod frame;
pub mod history;
pub mod shared;
pub mod util;
