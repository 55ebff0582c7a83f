use vstd::prelude::*;

verus! {

/// The direction of a Fourier transform.
#[derive(Debug, Clone, Copy, PartialEq, Eq, Structural)]
pub enum FftDirection {
    Forward,
    Inverse,
}

/// Why a Fourier transform could not run.
#[derive(Debug, Clone, Copy, PartialEq, Eq)]
pub enum FftError {
    /// A buffer (or plan) has length `a` where length `b` is needed.
    SizeNotEqual { name: &'static str, a: usize, b: usize },
}

/// Checks that the buffer called `name` has the length a transform needs.
pub fn check_size(name: &'static str, actual: usize, expected: usize) -> (r: Result<(), FftError>)
    ensures
        r is Ok <==> actual == expected,
        r matches Err(e) ==> e == (FftError::SizeNotEqual { name, a: actual, b: expected }),
{
    if actual != expected {
        return Err(FftError::SizeNotEqual { name, a: actual, b: expected });
    }
    Ok(())
}

/// The number of complex bins of a real transform of `fft_size` points:
/// the non-negative frequencies, `fft_size / 2 + 1` of them.
pub fn real_spectrum_len(fft_size: usize) -> (r: usize)
    ensures
        r == fft_size / 2 + 1,
{
    fft_size / 2 + 1
}

/// A real-to-complex Fourier transform of a fixed size, with the buffers it
/// works on. Implemented by the FFT backends.
pub trait IFftBackend<T> {
    /// The stored type of spectrum values.
    type Spectrum;

    /// The number of points of the transform, as a value.
    spec fn spec_fft_size(&self) -> usize;

    /// The number of points of the transform.
    fn fft_size(&self) -> (r: usize)
        ensures
            r == self.spec_fft_size(),
    ;

    /// The number of signal samples a transform reads.
    fn signal_size(&self) -> usize;

    /// The number of spectrum values a transform writes.
    fn spectrum_size(&self) -> usize;

    /// The scratch length the forward transform needs.
    fn forward_scratch_size(&self) -> usize;

    /// The scratch length the inverse transform needs.
    fn inverse_scratch_size(&self) -> usize;

    /// A zeroed signal buffer.
    fn new_signal(&self) -> Vec<T>;

    /// A zeroed spectrum buffer.
    fn new_spectrum(&self) -> Vec<Self::Spectrum>;

    /// A zeroed scratch buffer for the forward transform.
    fn new_forward_scratch(&self) -> Vec<Self::Spectrum>;

    /// A zeroed scratch buffer for the inverse transform.
    fn new_inverse_scratch(&self) -> Vec<Self::Spectrum>;

    /// Transforms `signal` into `spectrum`.
    fn fft(
        &self,
        signal: &mut [T],
        spectrum: &mut [Self::Spectrum],
        scratch: &mut [Self::Spectrum],
    ) -> Result<(), FftError>;

    /// Transforms `spectrum` back into `signal`.
    fn ifft(
        &self,
        spectrum: &mut [Self::Spectrum],
        signal: &mut [T],
        scratch: &mut [Self::Spectrum],
    ) -> Result<(), FftError>;
}

} // verus!
