//! Default dimensions of the analysis pipeline.

use vstd::prelude::*;

verus! {

/// Number of samples in one analysis window.
pub const FFT_SIZE: usize = 512;

/// Number of magnitude bins in one spectral frame: the positive-frequency
/// half of a transform of `FFT_SIZE` points.
pub const SPECTRUM_BINS: usize = FFT_SIZE / 2;

/// Number of spectral frames kept in the rolling history.
pub const SPEC_WIDTH: usize = 200;

} // verus!
