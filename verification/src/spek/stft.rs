use vstd::prelude::*;

use crate::spek::fft_backend::IFftBackend;
use crate::spek::pad::PadError;
use crate::spek::windows::WindowError;

verus! {

/// Why a short-time Fourier transform could not be set up.
#[derive(Debug, Clone, Copy, PartialEq, Eq)]
pub enum StftError {
    Pad(PadError),
    Window(WindowError),
    /// The size called `name` is not acceptable, for the given reason.
    InvalidSize { name: &'static str, size: usize, reason: &'static str },
    /// Two sizes do not fit together, for the given reason.
    Invalid2Size {
        name_a: &'static str,
        name_b: &'static str,
        size_a: usize,
        size_b: usize,
        reason: &'static str,
    },
}

/// The first rule that hop size, window size and transform size break, in
/// the order they are checked: hop and window must be non-empty, the
/// transform at least two points, the window no longer than the transform
/// and the hop no longer than the window.
pub open spec fn size_check(hop_size: usize, win_size: usize, fft_size: usize) -> Result<
    (),
    StftError,
> {
    if hop_size == 0 {
        Err(
            StftError::InvalidSize {
                name: "hop_size",
                size: 0,
                reason: "must be greater than 0, got 0",
            },
        )
    } else if win_size == 0 {
        Err(
            StftError::InvalidSize {
                name: "win_size",
                size: 0,
                reason: "must be greater than 0, got 0",
            },
        )
    } else if fft_size < 2 {
        Err(StftError::InvalidSize { name: "fft_size", size: fft_size, reason: "must be greater than 1" })
    } else if win_size > fft_size {
        Err(
            StftError::Invalid2Size {
                name_a: "win_size",
                name_b: "fft_size",
                size_a: win_size,
                size_b: fft_size,
                reason: "must be less than or equal to fft_size",
            },
        )
    } else if hop_size > win_size {
        Err(
            StftError::Invalid2Size {
                name_a: "hop_size",
                name_b: "win_size",
                size_a: hop_size,
                size_b: win_size,
                reason: "must be less than or equal to win_size",
            },
        )
    } else {
        Ok(())
    }
}

/// Checks hop size, window size and transform size together.
pub fn check_sizes(hop_size: usize, win_size: usize, fft_size: usize) -> (r: Result<(), StftError>)
    ensures
        r == size_check(hop_size, win_size, fft_size),
{
    if hop_size == 0 {
        return Err(
            StftError::InvalidSize {
                name: "hop_size",
                size: 0,
                reason: "must be greater than 0, got 0",
            },
        );
    }
    if win_size == 0 {
        return Err(
            StftError::InvalidSize {
                name: "win_size",
                size: 0,
                reason: "must be greater than 0, got 0",
            },
        );
    }
    if fft_size < 2 {
        return Err(
            StftError::InvalidSize { name: "fft_size", size: fft_size, reason: "must be greater than 1" },
        );
    }
    if win_size > fft_size {
        return Err(
            StftError::Invalid2Size {
                name_a: "win_size",
                name_b: "fft_size",
                size_a: win_size,
                size_b: fft_size,
                reason: "must be less than or equal to fft_size",
            },
        );
    }
    if hop_size > win_size {
        return Err(
            StftError::Invalid2Size {
                name_a: "hop_size",
                name_b: "win_size",
                size_a: hop_size,
                size_b: win_size,
                reason: "must be less than or equal to win_size",
            },
        );
    }
    Ok(())
}

/// A short-time Fourier transform: frames of `win_size` samples, `hop_size`
/// samples apart, each weighted by the window and zero-padded to the
/// transform size.
///
/// ```text
/// signal    #####################################################...
///                  win_size
///          |<--------------------->|
///                      fft_size
///          |<----------------------------->|
/// frame 0   ########################00000000
///          |<-- hop_size -->|
/// frame 1                   ########################00000000
/// ```
pub struct Stft<T, FftBackend> {
    hop_size: usize,
    win_size: usize,
    fft_size: usize,
    window: Vec<T>,
    fft_backend: FftBackend,
}

impl<T, FftBackend> Stft<T, FftBackend> {
    /// The distance between the starts of consecutive frames.
    pub closed spec fn hop(&self) -> nat {
        self.hop_size as nat
    }

    /// The number of samples in a frame.
    pub closed spec fn win(&self) -> nat {
        self.win_size as nat
    }

    /// The number of points of the transform.
    pub closed spec fn fft(&self) -> nat {
        self.fft_size as nat
    }

    /// The transform backend the frames go through.
    pub closed spec fn backend(&self) -> FftBackend {
        self.fft_backend
    }

    /// The window samples.
    pub closed spec fn window_samples(&self) -> Seq<T> {
        self.window@
    }

    /// The sizes satisfy every rule of [`size_check`].
    pub open spec fn wf(&self) -> bool {
        &&& 0 < self.hop() <= self.win() <= self.fft()
        &&& 2 <= self.fft()
    }

    /// The number of frames a signal of `signal_len` samples is cut into:
    /// one frame for signals shorter than a window, otherwise every frame
    /// that fits entirely.
    pub open spec fn frame_count_spec(&self, signal_len: int) -> int {
        if signal_len < self.win() {
            1
        } else {
            (signal_len - self.win()) / (self.hop() as int) + 1
        }
    }

    /// The number of samples `frame_count` overlapping frames span.
    pub open spec fn reconstructed_len_spec(&self, frame_count: int) -> int {
        if frame_count == 0 {
            0
        } else {
            (frame_count - 1) * self.hop() + self.win()
        }
    }

    /// Sets up a transform whose backend has `fft_size` points. The sizes
    /// are checked first; then the window is taken, or its error reported.
    pub fn with_fft_size(
        hop_size: usize,
        win_size: usize,
        window: Result<Vec<T>, WindowError>,
        fft_backend: FftBackend,
        fft_size: usize,
    ) -> (r: Result<Self, StftError>)
        ensures
            size_check(hop_size, win_size, fft_size) matches Err(e) ==> r == Err::<Self, _>(e),
            size_check(hop_size, win_size, fft_size) is Ok ==> match window {
                Err(we) => r == Err::<Self, _>(StftError::Window(we)),
                Ok(w) => r matches Ok(s) && s.hop() == hop_size && s.win() == win_size && s.fft()
                    == fft_size && s.window_samples() == w@ && s.backend() == fft_backend && s.wf(),
            },
    {
        match check_sizes(hop_size, win_size, fft_size) {
            Err(e) => Err(e),
            Ok(()) => match window {
                Err(we) => Err(StftError::Window(we)),
                Ok(w) => Ok(Stft { hop_size, win_size, fft_size, window: w, fft_backend }),
            },
        }
    }

    /// Sets up a transform. The transform size is the one the backend
    /// reports; the outcome is that of [`Stft::with_fft_size`] for it.
    pub fn new(
        hop_size: usize,
        win_size: usize,
        window: Result<Vec<T>, WindowError>,
        fft_backend: FftBackend,
    ) -> (r: Result<Self, StftError>) where FftBackend: IFftBackend<T>
        ensures
            ({
                let fft_size = fft_backend.spec_fft_size();
                &&& size_check(hop_size, win_size, fft_size) matches Err(e) ==> r == Err::<Self, _>(e)
                &&& size_check(hop_size, win_size, fft_size) is Ok ==> match window {
                    Err(we) => r == Err::<Self, _>(StftError::Window(we)),
                    Ok(w) => r matches Ok(s) && s.hop() == hop_size && s.win() == win_size
                        && s.fft() == fft_size && s.window_samples() == w@ && s.backend()
                        == fft_backend && s.wf(),
                }
            }),
    {
        let fft_size = fft_backend.fft_size();
        Self::with_fft_size(hop_size, win_size, window, fft_backend, fft_size)
    }

    /// The distance between the starts of consecutive frames.
    pub fn hop_size(&self) -> (r: usize)
        ensures
            r == self.hop(),
    {
        self.hop_size
    }

    /// The number of samples in a frame.
    pub fn win_size(&self) -> (r: usize)
        ensures
            r == self.win(),
    {
        self.win_size
    }

    /// The number of points of the transform.
    pub fn fft_size(&self) -> (r: usize)
        ensures
            r == self.fft(),
    {
        self.fft_size
    }

    /// The window samples.
    pub fn window(&self) -> (r: &[T])
        ensures
            r@ == self.window_samples(),
    {
        self.window.as_slice()
    }

    /// The transform backend.
    pub fn fft_backend(&self) -> (r: &FftBackend)
        ensures
            *r == self.backend(),
    {
        &self.fft_backend
    }

    /// The number of frames a signal of `signal_len` samples is cut into.
    pub fn frame_count(&self, signal_len: usize) -> (r: usize)
        requires
            self.wf(),
        ensures
            r == self.frame_count_spec(signal_len as int),
    {
        if signal_len < self.win_size {
            1
        } else {
            ((signal_len - self.win_size) / self.hop_size) + 1
        }
    }

    /// The number of samples `frame_count` overlapping frames span, the
    /// length of the signal an inverse transform rebuilds.
    pub fn reconstructed_len(&self, frame_count: usize) -> (r: usize)
        requires
            self.wf(),
            self.reconstructed_len_spec(frame_count as int) <= usize::MAX,
        ensures
            r == self.reconstructed_len_spec(frame_count as int),
    {
        if frame_count == 0 {
            0
        } else {
            proof {
                assert(0 <= (frame_count - 1) * self.hop()) by (nonlinear_arith)
                    requires frame_count >= 1;
            }
            (frame_count - 1) * self.hop_size + self.win_size
        }
    }

    /// The samples frame `index` covers: `index * hop_size` up to
    /// `index * hop_size + win_size`.
    pub fn frame_range(&self, index: usize) -> (r: (usize, usize))
        requires
            self.wf(),
            index * self.hop() + self.win() <= usize::MAX,
        ensures
            r.0 == index * self.hop(),
            r.1 == index * self.hop() + self.win(),
    {
        proof {
            assert(0 <= index * self.hop()) by (nonlinear_arith);
        }
        let start = index * self.hop_size;
        (start, start + self.win_size)
    }
}

/// Framing a signal at least one window long uses every frame that fits
/// entirely, and no more: the last frame ends within the signal and one
/// more would run past its end.
pub proof fn lemma_frames_fit<T, B>(stft: Stft<T, B>, signal_len: nat)
    requires
        stft.wf(),
        signal_len >= stft.win(),
    ensures
        ({
            let n = stft.frame_count_spec(signal_len as int);
            &&& n >= 1
            &&& (n - 1) * stft.hop() + stft.win() <= signal_len
            &&& n * stft.hop() + stft.win() > signal_len
        }),
{
    let h = stft.hop() as int;
    let w = stft.win() as int;
    let l = signal_len as int;
    let q = (l - w) / h;
    assert(q * h <= l - w < (q + 1) * h) by (nonlinear_arith)
        requires h > 0, l - w >= 0, q == (l - w) / h;
    assert(q >= 0) by (nonlinear_arith)
        requires h > 0, l - w >= 0, q == (l - w) / h;
    assert((q + 1) * h == q * h + h) by (nonlinear_arith);
}

/// The inverse transform of a framed signal rebuilds all of it but fewer
/// than `hop_size` trailing samples.
pub proof fn lemma_reconstruction_length<T, B>(stft: Stft<T, B>, signal_len: nat)
    requires
        stft.wf(),
        signal_len >= stft.win(),
    ensures
        ({
            let r = stft.reconstructed_len_spec(stft.frame_count_spec(signal_len as int));
            &&& r <= signal_len
            &&& signal_len - r < stft.hop()
            &&& r >= stft.win()
        }),
{
    lemma_frames_fit(stft, signal_len);
    let n = stft.frame_count_spec(signal_len as int);
    assert(n * stft.hop() == (n - 1) * stft.hop() + stft.hop()) by (nonlinear_arith);
    assert((n - 1) * stft.hop() >= 0) by (nonlinear_arith)
        requires n >= 1;
}

/// Overlap-add leaves no gap: because frames are never further apart than
/// they are long, every sample the frames span is covered by some frame.
pub proof fn lemma_frames_cover<T, B>(stft: Stft<T, B>, frame_count: nat, p: int)
    requires
        stft.wf(),
        0 <= p < stft.reconstructed_len_spec(frame_count as int),
    ensures
        exists|i: int|
            0 <= i < frame_count && #[trigger] (i * stft.hop()) <= p < i * stft.hop() + stft.win(),
{
    let h = stft.hop() as int;
    let w = stft.win() as int;
    let n = frame_count as int;
    let q = p / h;
    assert(q * h <= p < q * h + h) by (nonlinear_arith)
        requires h > 0, p >= 0, q == p / h;
    assert(q >= 0) by (nonlinear_arith)
        requires h > 0, p >= 0, q == p / h;
    if q < n {
        assert(q * h <= p < q * h + w);
    } else {
        let i = n - 1;
        assert(p < i * h + w);
        assert(i * h <= q * h) by (nonlinear_arith)
            requires 0 <= i <= q, h > 0;
        assert(i * h <= p);
        assert(0 <= i < frame_count && i * h <= p < i * h + w);
    }
}

} // verus!
