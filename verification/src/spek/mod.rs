//! Spectral-analysis building blocks: signal padding, spectrogram storage
//! layout, the integer geometry of the short-time Fourier transform and the
//! sizes of the FFT backends.
pub mod fft_backend;
pub mod pad;
pub mod phastft;
pub mod strided;
pub mod spectrogram;
pub mod stft;
pub mod windows;

use vstd::prelude::*;

use crate::spek::pad::PadError;
use crate::spek::windows::WindowError;

verus! {

/// Any error of the spectral-analysis building blocks.
#[derive(Debug, Clone, Copy, PartialEq, Eq, Structural)]
pub enum SpekError {
    Pad(PadError),
    Window(WindowError),
}

impl SpekError {
    /// Wraps a padding error.
    pub fn from_pad(e: PadError) -> (r: Self)
        ensures
            r == SpekError::Pad(e),
    {
        SpekError::Pad(e)
    }

    /// Wraps a window error.
    pub fn from_window(e: WindowError) -> (r: Self)
        ensures
            r == SpekError::Window(e),
    {
        SpekError::Window(e)
    }
}

} // verus!
