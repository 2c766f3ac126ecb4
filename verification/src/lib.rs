//! A live-spectrogram pipeline: fixed-size audio frames are reduced to
//! decibel spectra, accumulated in a bounded rolling history, and mapped to
//! colored cells for display.
//!
//! Sample frames arrive from a real-time capture driver and the display loop
//! runs at its own cadence; both drivers, together with the frequency-domain
//! transform itself, are collaborators at the edge. The library holds the
//! logic between them on a fixed-point scale: the decibel conversion of a
//! bin's power, the append/trim discipline of the rolling history, and the
//! geometry and color of every rendered cell.

use vstd::prelude::*;

pub mod analyzer;
pub mod decibel;
pub mod history;
pub mod render;
pub mod shared;

verus! {

/// Number of time-domain samples in one captured frame.
pub const N_FFT: usize = 512;

/// Height in pixels of one history row on screen; also the divisor that
/// turns a viewport height into a row budget.
pub const TIME_SCALE: usize = 5;

/// Sample rate the capture stream is opened with, in Hz.
pub const SAMPLE_RATE: u32 = 44_100;

} // verus!
