use vstd::prelude::*;
use vstd::std_specs::iter::IteratorSpec;

verus! {

broadcast use vstd::std_specs::slice::axiom_spec_slice_iter;

/// Real-valued time-frequency data stored frame-major: frame `f` occupies
/// the samples `f * bin_count .. (f + 1) * bin_count`.
#[derive(Debug)]
pub struct Spectrogram<T> {
    data: Vec<T>,
    frame_count: usize,
    bin_count: usize,
}

impl<T> Spectrogram<T> {
    /// All samples, frame after frame.
    pub closed spec fn samples(&self) -> Seq<T> {
        self.data@
    }

    /// The number of frames the spectrogram was made with.
    pub closed spec fn frames(&self) -> nat {
        self.frame_count as nat
    }

    /// The number of frequency bins per frame.
    pub closed spec fn bins(&self) -> nat {
        self.bin_count as nat
    }

    /// The samples of frame `index`.
    pub open spec fn frame_spec(&self, index: int) -> Seq<T> {
        self.samples().subrange(index * self.bins(), (index + 1) * self.bins())
    }

    /// Whether frame `index` lies within the stored samples.
    pub open spec fn holds_frame(&self, index: int) -> bool {
        0 <= index && (index + 1) * self.bins() <= self.samples().len()
    }

    /// The number of whole frames the stored samples hold.
    pub open spec fn whole_frames(&self) -> nat
        recommends
            self.bins() > 0,
    {
        self.samples().len() / self.bins()
    }

    /// Wraps frame-major samples.
    pub fn new(data: Vec<T>, frame_count: usize, bin_count: usize) -> (r: Self)
        ensures
            r.samples() == data@,
            r.frames() == frame_count,
            r.bins() == bin_count,
    {
        Self { data, frame_count, bin_count }
    }

    /// All samples, frame after frame.
    pub fn data(&self) -> (r: &[T])
        ensures
            r@ == self.samples(),
    {
        self.data.as_slice()
    }

    /// The number of frames.
    pub fn frame_count(&self) -> (r: usize)
        ensures
            r == self.frames(),
    {
        self.frame_count
    }

    /// The number of frequency bins per frame.
    pub fn bin_count(&self) -> (r: usize)
        ensures
            r == self.bins(),
    {
        self.bin_count
    }

    /// The samples of frame `index`.
    pub fn frame(&self, index: usize) -> (r: &[T])
        requires
            self.holds_frame(index as int),
        ensures
            r@ == self.frame_spec(index as int),
    {
        let len = self.data.len();
        proof {
            lemma_frame_bounds(index as int, self.bins() as int, len as int);
        }
        let start = index * self.bin_count;
        let end = start + self.bin_count;
        vstd::slice::slice_subrange(self.data.as_slice(), start, end)
    }

    /// The samples of frame `index`, for writing: every other sample stays
    /// as it is, and the frame holds what is written through the result.
    pub fn frame_mut(&mut self, index: usize) -> (r: &mut [T])
        requires
            old(self).holds_frame(index as int),
        ensures
            r@ == old(self).frame_spec(index as int),
            final(self).frames() == old(self).frames(),
            final(self).bins() == old(self).bins(),
            final(self).samples() == old(self).samples().subrange(0, index * old(self).bins())
                + final(r)@ + old(self).samples().subrange(
                (index + 1) * old(self).bins(),
                old(self).samples().len() as int,
            ),
    {
        let len = self.data.len();
        proof {
            lemma_frame_bounds(index as int, self.bins() as int, len as int);
        }
        let start = index * self.bin_count;
        let bins = self.bin_count;
        let all = self.data.as_mut_slice();
        let (_head, tail) = all.split_at_mut(start);
        let (frame, _rest) = tail.split_at_mut(bins);
        frame
    }

    /// An iterator over all samples, frame after frame.
    pub fn iter(&self) -> (r: core::slice::Iter<'_, T>)
        ensures
            r.remaining() == self.samples().as_ref(),
    {
        self.data.as_slice().iter()
    }

    /// All samples, frame after frame, for writing.
    pub fn iter_mut(&mut self) -> (r: &mut [T])
        ensures
            r@ == old(self).samples(),
            final(self).samples() == final(r)@,
            final(self).frames() == old(self).frames(),
            final(self).bins() == old(self).bins(),
    {
        self.data.as_mut_slice()
    }

    /// The whole frames, in order; samples after the last whole frame are
    /// left out.
    pub fn iter_frame(&self) -> (r: Vec<&[T]>)
        requires
            self.bins() > 0,
        ensures
            r@.len() == self.whole_frames(),
            forall|f: int| 0 <= f < r@.len() ==> (#[trigger] r@[f])@ == self.frame_spec(f),
    {
        let bins = self.bin_count;
        let n = self.data.len() / bins;
        let mut out: Vec<&[T]> = Vec::new();
        let mut f: usize = 0;
        while f < n
            invariant
                bins == self.bins(),
                bins > 0,
                n == self.whole_frames(),
                f <= n,
                out@.len() == f,
                forall|g: int| 0 <= g < f ==> (#[trigger] out@[g])@ == self.frame_spec(g),
            decreases n - f,
        {
            proof {
                lemma_whole_frame_held(f as int, bins as int, self.samples().len() as int);
            }
            out.push(self.frame(f));
            f = f + 1;
        }
        out
    }

    /// The whole frames, in order, for writing: the samples end up as the
    /// frames written, one after the other, followed by the samples after
    /// the last whole frame, which stay as they are.
    pub fn iter_frame_mut(&mut self) -> (r: Vec<&mut [T]>)
        requires
            old(self).bins() > 0,
        ensures
            r@.len() == old(self).whole_frames(),
            forall|f: int| 0 <= f < r@.len() ==> r@[f]@ == #[trigger] old(self).frame_spec(f),
            final(self).frames() == old(self).frames(),
            final(self).bins() == old(self).bins(),
            final(self).samples() == r@.map_values(|x: &mut [T]| final(x)@).flatten() + old(
                self,
            ).samples().subrange((r@.len() * old(self).bins()) as int, old(self).samples().len() as int),
    {
        let bins = self.bin_count;
        let len = self.data.len();
        let n = len / bins;
        let ghost old_samples = self.samples();
        let mut out: Vec<&mut [T]> = Vec::new();
        let mut rest: &mut [T] = self.data.as_mut_slice();
        let ghost target = final(rest)@;
        let mut f: usize = 0;
        while f < n
            invariant
                bins > 0,
                n == old_samples.len() / (bins as nat),
                len == old_samples.len(),
                f <= n,
                out@.len() == f,
                rest@ == old_samples.subrange(f * bins, old_samples.len() as int),
                forall|g: int|
                    0 <= g < f ==> out@[g]@ == #[trigger] old_samples.subrange(
                        g * bins,
                        (g + 1) * bins,
                    ),
                target == out@.map_values(|x: &mut [T]| final(x)@).flatten() + final(rest)@,
            decreases n - f,
        {
            proof {
                lemma_whole_frame_held(f as int, bins as int, old_samples.len() as int);
                lemma_frame_bounds(f as int, bins as int, old_samples.len() as int);
            }
            let ghost before = out@;
            let (frame, tail) = rest.split_at_mut(bins);
            let ghost written = final(frame)@;
            out.push(frame);
            proof {
                broadcast use vstd::seq::Seq::lemma_flatten_push;

                assert(out@.map_values(|x: &mut [T]| final(x)@) =~= before.map_values(
                    |x: &mut [T]| final(x)@,
                ).push(written));
            }
            rest = tail;
            f = f + 1;
        }
        out
    }

    /// The samples of bin `b` across the whole frames, in frame order.
    pub open spec fn bin_spec(&self, b: int) -> Seq<T> {
        Seq::new(self.whole_frames(), |f: int| self.samples()[f * self.bins() + b])
    }

    /// The bins, in order; bin `b` holds sample `b` of every whole frame,
    /// in frame order. This is [`Spectrogram::iter_frame`] transposed.
    pub fn iter_bin(&self) -> (r: Vec<Vec<&T>>)
        requires
            self.bins() > 0,
        ensures
            r@.len() == self.bins(),
            forall|b: int| 0 <= b < r@.len() ==> (#[trigger] r@[b])@.len() == self.whole_frames(),
            forall|b: int, f: int|
                0 <= b < r@.len() && 0 <= f < self.whole_frames() ==> *(#[trigger] r@[b]@[f])
                    == self.bin_spec(b)[f],
    {
        let bins = self.bin_count;
        let len = self.data.len();
        let n = len / bins;
        let mut out: Vec<Vec<&T>> = Vec::new();
        let mut b: usize = 0;
        while b < bins
            invariant
                bins == self.bins(),
                bins > 0,
                len == self.samples().len(),
                n == self.whole_frames(),
                b <= bins,
                out@.len() == b,
                forall|c: int| 0 <= c < b ==> (#[trigger] out@[c])@.len() == n,
                forall|c: int, f: int|
                    0 <= c < b && 0 <= f < n ==> *(#[trigger] out@[c]@[f]) == self.bin_spec(c)[f],
            decreases bins - b,
        {
            let mut column: Vec<&T> = Vec::new();
            let mut f: usize = 0;
            while f < n
                invariant
                    bins == self.bins(),
                    bins > 0,
                    len == self.samples().len(),
                    n == self.whole_frames(),
                    b < bins,
                    f <= n,
                    column@.len() == f,
                    forall|g: int| 0 <= g < f ==> *(#[trigger] column@[g]) == self.bin_spec(b as int)[g],
                decreases n - f,
            {
                proof {
                    lemma_whole_frame_held(f as int, bins as int, len as int);
                    lemma_frame_bounds(f as int, bins as int, len as int);
                }
                column.push(&self.data[f * bins + b]);
                f = f + 1;
            }
            out.push(column);
            b = b + 1;
        }
        out
    }

    /// The bins, in order, for writing: bin `b` holds sample `b` of every
    /// whole frame, in frame order. This is [`Spectrogram::iter_frame_mut`]
    /// transposed: what is written through sample `f` of bin `b` ends up as
    /// sample `b` of frame `f`, and the samples after the last whole frame
    /// stay as they are.
    pub fn iter_bin_mut(&mut self) -> (r: Vec<Vec<&mut T>>)
        requires
            old(self).bins() > 0,
        ensures
            r@.len() == old(self).bins(),
            forall|b: int| 0 <= b < r@.len() ==> (#[trigger] r@[b])@.len() == old(self).whole_frames(),
            forall|b: int, f: int|
                0 <= b < r@.len() && 0 <= f < old(self).whole_frames() ==> *(#[trigger] r@[b]@[f])
                    == old(self).bin_spec(b)[f],
            final(self).frames() == old(self).frames(),
            final(self).bins() == old(self).bins(),
            final(self).samples() == Seq::new(
                old(self).whole_frames(),
                |f: int| Seq::new(old(self).bins(), |b: int| *final(r@[b]@[f])),
            ).flatten() + old(self).samples().subrange(
                (old(self).whole_frames() * old(self).bins()) as int,
                old(self).samples().len() as int,
            ),
    {
        let bins = self.bin_count;
        let len = self.data.len();
        let n = len / bins;
        let ghost old_samples = self.samples();
        let mut out: Vec<Vec<&mut T>> = Vec::new();
        let mut c: usize = 0;
        while c < bins
            invariant
                c <= bins,
                out@.len() == c,
                forall|d: int| 0 <= d < c ==> (#[trigger] out@[d])@.len() == 0,
            decreases bins - c,
        {
            out.push(Vec::new());
            c = c + 1;
        }
        let mut rest: &mut [T] = self.data.as_mut_slice();
        let ghost target = final(rest)@;
        let mut f: usize = 0;
        while f < n
            invariant
                bins > 0,
                n == old_samples.len() / (bins as nat),
                len == old_samples.len(),
                f <= n,
                out@.len() == bins,
                rest@ == old_samples.subrange(f * bins, old_samples.len() as int),
                forall|d: int| 0 <= d < bins ==> (#[trigger] out@[d])@.len() == f,
                forall|d: int, g: int|
                    0 <= d < bins && 0 <= g < f ==> *(#[trigger] out@[d]@[g]) == old_samples[g
                        * bins + d],
                target == Seq::new(
                    f as nat,
                    |g: int| Seq::new(bins as nat, |d: int| *final(out@[d]@[g])),
                ).flatten() + final(rest)@,
            decreases n - f,
        {
            proof {
                lemma_whole_frame_held(f as int, bins as int, old_samples.len() as int);
                lemma_frame_bounds(f as int, bins as int, old_samples.len() as int);
            }
            let (frame, tail) = rest.split_at_mut(bins);
            rest = tail;
            let mut cur: &mut [T] = frame;
            let mut c: usize = 0;
            while c < bins
                invariant
                    bins > 0,
                    f < n,
                    (f + 1) * bins <= len,
                    len == old_samples.len(),
                    c <= bins,
                    out@.len() == bins,
                    cur@ == old_samples.subrange(f * bins + c, (f + 1) * bins),
                    forall|d: int| 0 <= d < c ==> (#[trigger] out@[d])@.len() == f + 1,
                    forall|d: int| c <= d < bins ==> (#[trigger] out@[d])@.len() == f,
                    forall|d: int, g: int|
                        0 <= d < bins && 0 <= g < f ==> *(#[trigger] out@[d]@[g]) == old_samples[g
                            * bins + d],
                    forall|d: int| 0 <= d < c ==> *(#[trigger] out@[d]@[f as int]) == old_samples[f
                        * bins + d],
                    target == Seq::new(
                        f as nat,
                        |g: int| Seq::new(bins as nat, |d: int| *final(out@[d]@[g])),
                    ).flatten() + Seq::new(c as nat, |d: int| *final(out@[d]@[f as int]))
                        + final(cur)@ + final(rest)@,
                decreases bins - c,
            {
                proof {
                    assert(f * bins + bins == (f + 1) * bins) by (nonlinear_arith);
                }
                let ghost before = out@;
                let (head, more) = cur.split_at_mut(1);
                cur = more;
                let x = head.first_mut().unwrap();
                let ghost value = *final(x);
                out[c].push(x);
                proof {
                    let done_before = Seq::new(
                        f as nat,
                        |g: int| Seq::new(bins as nat, |d: int| *final(before[d]@[g])),
                    );
                    let done_after = Seq::new(
                        f as nat,
                        |g: int| Seq::new(bins as nat, |d: int| *final(out@[d]@[g])),
                    );
                    assert forall|g: int| 0 <= g < f implies done_after[g] =~= done_before[g] by {
                        assert forall|d: int| 0 <= d < bins implies out@[d]@[g] == before[d]@[g] by {
                            if d != c {
                                assert(out@[d] == before[d]);
                            }
                        }
                    }
                    assert(done_after =~= done_before);
                    let row_before = Seq::new(c as nat, |d: int| *final(before[d]@[f as int]));
                    let row_after = Seq::new((c + 1) as nat, |d: int| *final(out@[d]@[f as int]));
                    assert forall|d: int| 0 <= d < c implies out@[d]@[f as int]
                        == before[d]@[f as int] by {}
                    assert(*final(out@[c as int]@[f as int]) == value);
                    assert(row_after =~= row_before.push(value));
                    assert(done_after.flatten() + row_after + final(cur)@ + final(rest)@
                        =~= done_before.flatten() + row_before + (seq![value] + final(cur)@)
                        + final(rest)@);
                }
                c = c + 1;
            }
            proof {
                broadcast use vstd::seq::Seq::lemma_flatten_push;

                assert(final(cur)@ =~= Seq::<T>::empty());
                let done = Seq::new(
                    f as nat,
                    |g: int| Seq::new(bins as nat, |d: int| *final(out@[d]@[g])),
                );
                let row = Seq::new(bins as nat, |d: int| *final(out@[d]@[f as int]));
                let next = Seq::new(
                    (f + 1) as nat,
                    |g: int| Seq::new(bins as nat, |d: int| *final(out@[d]@[g])),
                );
                assert(next =~= done.push(row));
                assert(next.flatten() =~= done.flatten() + row);
            }
            f = f + 1;
        }
        proof {
            assert(final(rest)@ == rest@);
        }
        out
    }

    /// The bins, as [`Spectrogram::iter_bin`] gives them; each bin can be
    /// consumed independently of the others.
    pub fn par_iter_bin(&self) -> (r: Vec<Vec<&T>>)
        requires
            self.bins() > 0,
        ensures
            r@.len() == self.bins(),
            forall|b: int| 0 <= b < r@.len() ==> (#[trigger] r@[b])@.len() == self.whole_frames(),
            forall|b: int, f: int|
                0 <= b < r@.len() && 0 <= f < self.whole_frames() ==> *(#[trigger] r@[b]@[f])
                    == self.bin_spec(b)[f],
    {
        self.iter_bin()
    }

    /// The bins, as [`Spectrogram::iter_bin_mut`] gives them, for writing;
    /// each bin can be consumed independently of the others.
    pub fn par_iter_bin_mut(&mut self) -> (r: Vec<Vec<&mut T>>)
        requires
            old(self).bins() > 0,
        ensures
            r@.len() == old(self).bins(),
            forall|b: int| 0 <= b < r@.len() ==> (#[trigger] r@[b])@.len() == old(self).whole_frames(),
            forall|b: int, f: int|
                0 <= b < r@.len() && 0 <= f < old(self).whole_frames() ==> *(#[trigger] r@[b]@[f])
                    == old(self).bin_spec(b)[f],
            final(self).frames() == old(self).frames(),
            final(self).bins() == old(self).bins(),
            final(self).samples() == Seq::new(
                old(self).whole_frames(),
                |f: int| Seq::new(old(self).bins(), |b: int| *final(r@[b]@[f])),
            ).flatten() + old(self).samples().subrange(
                (old(self).whole_frames() * old(self).bins()) as int,
                old(self).samples().len() as int,
            ),
    {
        self.iter_bin_mut()
    }
}

/// Bins and frames are two views of the same samples: sample `b` of frame
/// `f` is sample `f` of bin `b`.
pub proof fn lemma_bins_transpose_frames<T>(s: Spectrogram<T>, f: int, b: int)
    requires
        s.bins() > 0,
        0 <= f < s.whole_frames(),
        0 <= b < s.bins(),
    ensures
        s.frame_spec(f)[b] == s.bin_spec(b)[f],
        s.holds_frame(f),
{
    lemma_whole_frame_held(f, s.bins() as int, s.samples().len() as int);
    assert(f * s.bins() + b < (f + 1) * s.bins()) by (nonlinear_arith)
        requires 0 <= b < s.bins();
    assert(0 <= f * s.bins()) by (nonlinear_arith)
        requires 0 <= f, s.bins() > 0;
}

/// Frame `index` starts and ends within the samples and its bounds fit in
/// `usize`.
proof fn lemma_frame_bounds(index: int, bins: int, len: int)
    requires
        0 <= index,
        0 <= bins,
        (index + 1) * bins <= len,
        len <= usize::MAX,
    ensures
        0 <= index * bins,
        index * bins + bins == (index + 1) * bins,
        index * bins <= len,
{
    assert(index * bins + bins == (index + 1) * bins) by (nonlinear_arith);
    assert(0 <= index * bins) by (nonlinear_arith)
        requires 0 <= index, 0 <= bins;
}

/// Every frame below the number of whole frames is held.
proof fn lemma_whole_frame_held(f: int, bins: int, len: int)
    requires
        0 <= f < len / bins,
        bins > 0,
        len >= 0,
    ensures
        (f + 1) * bins <= len,
{
    assert((f + 1) * bins <= len) by (nonlinear_arith)
        requires 0 <= f < len / bins, bins > 0, len >= 0;
}

} // verus!
