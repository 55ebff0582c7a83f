use vstd::prelude::*;

verus! {

/// Why a frame could not be read.
#[derive(Debug, Clone, Copy, PartialEq, Eq, Structural)]
pub enum SpectrogramError {
    /// The frame index is not below the number of frames.
    FrameIndexOutOfBounds { index: usize, frames: usize },
}

/// Spectral data stored frame-major, `STRIDE` stored values per bin: one
/// for complex samples, two (real and imaginary parts) for split real
/// storage.
pub struct Spectrogram<T, const STRIDE: usize> {
    pub data: Vec<T>,
    pub frames: usize,
    pub bins: usize,
}

/// Frame-wise access to spectral data.
pub trait ISpectrogram<T>: Sized {
    /// The stored values.
    spec fn stored(&self) -> Seq<T>;

    /// The number of frames.
    spec fn frame_total(&self) -> nat;

    /// The number of bins per frame.
    spec fn bin_total(&self) -> nat;

    /// The number of stored values per frame.
    spec fn frame_width(&self) -> nat;

    /// An empty store for `frames` frames of `bins` bins.
    fn new(frames: usize, bins: usize) -> (r: Self)
        requires
            frames * bins * 2 <= usize::MAX,
        ensures
            r.stored().len() == 0,
            r.frame_total() == frames,
            r.bin_total() == bins,
    ;

    /// The values of frame `index`, which must be stored.
    fn frame_unchecked(&self, index: usize) -> (r: &[T])
        requires
            (index + 1) * self.frame_width() <= self.stored().len(),
        ensures
            r@ == self.stored().subrange(
                index * self.frame_width(),
                (index + 1) * self.frame_width(),
            ),
    ;

    /// The values of frame `index`, which must be stored, for writing.
    fn frame_mut_unchecked(&mut self, index: usize) -> (r: &mut [T])
        requires
            (index + 1) * old(self).frame_width() <= old(self).stored().len(),
        ensures
            r@ == old(self).stored().subrange(
                index * old(self).frame_width(),
                (index + 1) * old(self).frame_width(),
            ),
            final(self).frame_total() == old(self).frame_total(),
            final(self).bin_total() == old(self).bin_total(),
            final(self).frame_width() == old(self).frame_width(),
            final(self).stored() == old(self).stored().subrange(
                0,
                index * old(self).frame_width(),
            ) + final(r)@ + old(self).stored().subrange(
                (index + 1) * old(self).frame_width(),
                old(self).stored().len() as int,
            ),
    ;

    /// The values of frame `index`, or an error when there is no such frame.
    fn frame(&self, index: usize) -> (r: Result<&[T], SpectrogramError>)
        requires
            index < self.frame_total() ==> (index + 1) * self.frame_width() <= self.stored().len(),
        ensures
            r is Err <==> index >= self.frame_total(),
            r matches Err(e) ==> e == (SpectrogramError::FrameIndexOutOfBounds {
                index,
                frames: self.frame_total() as usize,
            }),
            r matches Ok(s) ==> s@ == self.stored().subrange(
                index * self.frame_width(),
                (index + 1) * self.frame_width(),
            ),
    ;

    /// The values of frame `index` for writing, or an error when there is
    /// no such frame.
    fn frame_mut(&mut self, index: usize) -> (r: Result<&mut [T], SpectrogramError>)
        requires
            index < old(self).frame_total() ==> (index + 1) * old(self).frame_width() <= old(
                self,
            ).stored().len(),
        ensures
            r is Err <==> index >= old(self).frame_total(),
            r matches Err(e) ==> e == (SpectrogramError::FrameIndexOutOfBounds {
                index,
                frames: old(self).frame_total() as usize,
            }),
            final(self).frame_total() == old(self).frame_total(),
            final(self).bin_total() == old(self).bin_total(),
            final(self).frame_width() == old(self).frame_width(),
            r is Err ==> final(self).stored() == old(self).stored(),
            r matches Ok(s) ==> s@ == old(self).stored().subrange(
                index * old(self).frame_width(),
                (index + 1) * old(self).frame_width(),
            ),
            r matches Ok(s) ==> final(self).stored() == old(self).stored().subrange(
                0,
                index * old(self).frame_width(),
            ) + final(s)@ + old(self).stored().subrange(
                (index + 1) * old(self).frame_width(),
                old(self).stored().len() as int,
            ),
    ;
}

impl<T, const STRIDE: usize> ISpectrogram<T> for Spectrogram<T, STRIDE> {
    open spec fn stored(&self) -> Seq<T> {
        self.data@
    }

    open spec fn frame_total(&self) -> nat {
        self.frames as nat
    }

    open spec fn bin_total(&self) -> nat {
        self.bins as nat
    }

    open spec fn frame_width(&self) -> nat {
        (self.bins * STRIDE) as nat
    }

    fn new(frames: usize, bins: usize) -> (r: Self)
        ensures
            r.frames == frames,
            r.bins == bins,
            r.data@.len() == 0,
    {
        Self { data: Vec::new(), frames, bins }
    }

    fn frame_unchecked(&self, index: usize) -> (r: &[T]) {
        let len = self.data.len();
        proof {
            lemma_stride_bounds(index as int, self.bins as int, STRIDE as int, len as int);
        }
        let width = self.bins * STRIDE;
        let start = index * width;
        vstd::slice::slice_subrange(self.data.as_slice(), start, start + width)
    }

    fn frame_mut_unchecked(&mut self, index: usize) -> (r: &mut [T]) {
        let len = self.data.len();
        proof {
            lemma_stride_bounds(index as int, self.bins as int, STRIDE as int, len as int);
        }
        let width = self.bins * STRIDE;
        let start = index * width;
        let all = self.data.as_mut_slice();
        let (_head, tail) = all.split_at_mut(start);
        let (frame, _rest) = tail.split_at_mut(width);
        frame
    }

    fn frame(&self, index: usize) -> (r: Result<&[T], SpectrogramError>) {
        if index >= self.frames {
            return Err(SpectrogramError::FrameIndexOutOfBounds { index, frames: self.frames });
        }
        Ok(self.frame_unchecked(index))
    }

    fn frame_mut(&mut self, index: usize) -> (r: Result<&mut [T], SpectrogramError>) {
        if index >= self.frames {
            return Err(SpectrogramError::FrameIndexOutOfBounds { index, frames: self.frames });
        }
        Ok(self.frame_mut_unchecked(index))
    }
}

impl<T: Copy, const STRIDE: usize> Spectrogram<T, STRIDE> {
    /// A store for `frames` frames of `bins` bins with every value set to
    /// `value`.
    pub fn filled(frames: usize, bins: usize, value: T) -> (r: Self)
        requires
            frames * bins <= usize::MAX,
            frames * bins * STRIDE <= usize::MAX,
        ensures
            r.frames == frames,
            r.bins == bins,
            r.data@ == Seq::new((frames * bins * STRIDE) as nat, |i: int| value),
    {
        proof {
            assert(0 <= frames * bins * STRIDE) by (nonlinear_arith);
        }
        let n = frames * bins * STRIDE;
        let mut data: Vec<T> = Vec::new();
        let mut i: usize = 0;
        while i < n
            invariant
                i <= n,
                data@ == Seq::new(i as nat, |k: int| value),
            decreases n - i,
        {
            data.push(value);
            assert(data@ =~= Seq::new((i + 1) as nat, |k: int| value));
            i = i + 1;
        }
        Self { data, frames, bins }
    }
}

/// A stored frame's bounds fit in `usize`.
proof fn lemma_stride_bounds(index: int, bins: int, stride: int, len: int)
    requires
        0 <= index,
        0 <= bins,
        0 <= stride,
        (index + 1) * (bins * stride) <= len,
        len <= usize::MAX,
    ensures
        0 <= index * (bins * stride),
        index * (bins * stride) + bins * stride == (index + 1) * (bins * stride),
        index * (bins * stride) + bins * stride <= len,
        bins * stride <= usize::MAX,
{
    assert(0 <= bins * stride) by (nonlinear_arith)
        requires 0 <= bins, 0 <= stride;
    assert(index * (bins * stride) + bins * stride == (index + 1) * (bins * stride)) by (nonlinear_arith);
    assert(0 <= index * (bins * stride)) by (nonlinear_arith)
        requires 0 <= index, 0 <= bins * stride;
}

} // verus!
