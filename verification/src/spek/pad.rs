use vstd::prelude::*;

verus! {

/// Why a signal could not be padded.
#[derive(Debug, Clone, Copy, PartialEq, Eq, Structural)]
pub enum PadError {
    /// The signal holds no sample.
    EmptySignal,
    /// The signal is too short for the requested amount of reflection: it
    /// holds `actual` samples where at least `min_size` are needed.
    SignalSizeTooSmall { min_size: usize, actual: usize },
}

/// How the samples added before and after a signal are chosen.
pub enum PadMode<T> {
    /// Every added sample is the given value.
    Constant(T),
    /// Added samples repeat the first (before) or last (after) sample.
    Edge,
    /// Added samples ramp linearly from the edge sample towards zero.
    LinearRamp,
    /// Added samples are the largest sample of the signal.
    Maximum,
    /// Added samples are the mean of the signal.
    Mean,
    /// Added samples are the median of the signal.
    Median,
    /// Added samples are the smallest sample of the signal.
    Minimum,
    /// Mirror image of the signal that does not repeat the edge sample.
    Reflect,
    /// Mirror image of the signal that repeats the edge sample.
    Symmetric,
    /// The signal repeated periodically.
    Wrap,
    /// Added samples are zero.
    Empty,
}

impl<T> PadMode<T> {
    /// The modes whose added samples are copies of given values: the
    /// constant or samples of the signal itself. The remaining modes compute
    /// new sample values by arithmetic on the samples.
    pub open spec fn is_positional(&self) -> bool {
        match self {
            PadMode::Constant(_) | PadMode::Edge | PadMode::Reflect | PadMode::Symmetric
            | PadMode::Wrap => true,
            _ => false,
        }
    }

    /// Executable form of [`PadMode::is_positional`].
    pub fn positional(&self) -> (r: bool)
        ensures
            r == self.is_positional(),
    {
        match self {
            PadMode::Constant(_) | PadMode::Edge | PadMode::Reflect | PadMode::Symmetric
            | PadMode::Wrap => true,
            _ => false,
        }
    }
}

/// Sample `j` of the padded signal, for a positional mode, where `before`
/// samples precede the signal `s`.
pub open spec fn padded_at<T>(mode: PadMode<T>, s: Seq<T>, before: int, j: int) -> T {
    let len = s.len() as int;
    if before <= j < before + len {
        s[j - before]
    } else {
        match mode {
            PadMode::Constant(v) => v,
            PadMode::Edge => if j < before {
                s[0]
            } else {
                s[len - 1]
            },
            PadMode::Reflect => if j < before {
                s[before - j]
            } else {
                s[len - 2 - (j - before - len)]
            },
            PadMode::Symmetric => if j < before {
                s[if before - 1 - j < len - 1 { before - 1 - j } else { len - 1 }]
            } else {
                s[if len - 1 - (j - before - len) > 0 { len - 1 - (j - before - len) } else { 0 }]
            },
            PadMode::Wrap => s[(j - before) % len],
            _ => s[0],
        }
    }
}

/// The smallest signal length that reflects `n` samples, `n + 1`, held at
/// the largest `usize` when it does not fit.
pub open spec fn reflect_min(n: int) -> usize {
    if n < usize::MAX {
        (n + 1) as usize
    } else {
        usize::MAX as usize
    }
}

/// The error, if any, that padding `s` with `before` and `after` samples in
/// a positional mode reports.
pub open spec fn pad_error<T>(mode: PadMode<T>, s: Seq<T>, before: int, after: int) -> Option<
    PadError,
> {
    if s.len() == 0 {
        Some(PadError::EmptySignal)
    } else {
        match mode {
            PadMode::Reflect => if before >= s.len() {
                Some(PadError::SignalSizeTooSmall { min_size: reflect_min(before), actual: s.len() as usize })
            } else if after >= s.len() {
                Some(PadError::SignalSizeTooSmall { min_size: reflect_min(after), actual: s.len() as usize })
            } else {
                None
            },
            _ => None,
        }
    }
}

/// The result of padding `s` with `before` samples in front and `after`
/// samples behind, in a positional mode.
pub open spec fn spec_pad<T>(mode: PadMode<T>, s: Seq<T>, before: int, after: int) -> Result<
    Seq<T>,
    PadError,
> {
    match pad_error(mode, s, before, after) {
        Some(e) => Err(e),
        None => Ok(Seq::new((before + s.len() + after) as nat, |j: int| padded_at(mode, s, before, j))),
    }
}

/// The view of a padding result.
pub open spec fn pad_result_view<T>(r: Result<Vec<T>, PadError>) -> Result<Seq<T>, PadError> {
    match r {
        Ok(v) => Ok(v@),
        Err(e) => Err(e),
    }
}

/// Pads a signal on both sides.
pub trait IPad<T> {
    /// Whether padding a signal of `len` samples with `before` and `after`
    /// added samples is defined.
    spec fn pad_supported(&self, len: int, before: int, after: int) -> bool;

    /// What padding `signal` gives.
    spec fn pad_spec(&self, signal: Seq<T>, before: int, after: int) -> Result<Seq<T>, PadError>;

    /// Returns `signal` with `pad_before` samples added in front and
    /// `pad_after` samples added behind. The padded length must fit in
    /// `usize` when a padded signal is made; refusals need no such bound.
    fn pad(&self, signal: &[T], pad_before: usize, pad_after: usize) -> (r: Result<Vec<T>, PadError>)
        requires
            self.pad_supported(signal@.len() as int, pad_before as int, pad_after as int),
            self.pad_spec(signal@, pad_before as int, pad_after as int) is Ok ==> signal@.len()
                + pad_before + pad_after <= usize::MAX,
        ensures
            pad_result_view(r) == self.pad_spec(signal@, pad_before as int, pad_after as int),
    ;
}


impl<T: Copy> PadMode<T> {
    /// Appends sample `j` of the padded signal for each `j` in `from..to`.
    fn push_range(&self, signal: &[T], before: usize, from: usize, to: usize, out: &mut Vec<T>)
        requires
            self.is_positional(),
            signal@.len() > 0,
            from <= to,
            old(out)@.len() == from,
            to <= before + signal@.len() + usize::MAX,
            (self matches PadMode::Reflect) ==> (before < signal@.len() && to < before + 2
                * signal@.len()),
            (self matches PadMode::Wrap) ==> before < signal@.len(),
        ensures
            final(out)@ =~= old(out)@ + Seq::new(
                (to - from) as nat,
                |k: int| padded_at(*self, signal@, before as int, from + k),
            ),
    {
        let len = signal.len();
        let mut j = from;
        let ghost start = out@;
        while j < to
            invariant
                from <= j <= to,
                len == signal@.len(),
                len > 0,
                self.is_positional(),
                start.len() == from,
                (self matches PadMode::Reflect) ==> (before < signal@.len() && to < before + 2
                    * signal@.len()),
                (self matches PadMode::Wrap) ==> before < signal@.len(),
                out@ =~= start + Seq::new(
                    (j - from) as nat,
                    |k: int| padded_at(*self, signal@, before as int, from + k),
                ),
            decreases to - j,
        {
            proof {
                let jj = j as int;
                let b = before as int;
                let l = len as int;
                if (*self matches PadMode::Wrap) && jj < b {
                    assert((b - jj) % l == b - jj) by (nonlinear_arith)
                        requires 0 < b - jj < l;
                    assert((jj - b) % l == l - (b - jj)) by (nonlinear_arith)
                        requires 0 < b - jj < l;
                }
            }
            let v: T = if before <= j && j - before < len {
                signal[j - before]
            } else {
                match self {
                    PadMode::Constant(c) => *c,
                    PadMode::Edge => if j < before {
                        signal[0]
                    } else {
                        signal[len - 1]
                    },
                    PadMode::Reflect => if j < before {
                        signal[before - j]
                    } else {
                        signal[len - 2 - (j - before - len)]
                    },
                    PadMode::Symmetric => if j < before {
                        let i = before - 1 - j;
                        signal[if i < len - 1 { i } else { len - 1 }]
                    } else {
                        let i = j - before - len;
                        signal[if len - 1 > i { len - 1 - i } else { 0 }]
                    },
                    PadMode::Wrap => if j < before {
                        signal[len - (before - j) % len]
                    } else {
                        signal[(j - before) % len]
                    },
                    _ => signal[0],
                }
            };
            out.push(v);
            j = j + 1;
        }
    }

    /// Pads `signal` with `before` copies of `value` in front and `after`
    /// copies behind.
    pub fn pad_constant(signal: &[T], value: T, pad_before: usize, pad_after: usize) -> (r: Result<
        Vec<T>,
        PadError,
    >)
        requires
            signal@.len() > 0 ==> signal@.len() + pad_before + pad_after <= usize::MAX,
        ensures
            pad_result_view(r) == spec_pad(
                PadMode::Constant(value),
                signal@,
                pad_before as int,
                pad_after as int,
            ),
    {
        PadMode::Constant(value).pad(signal, pad_before, pad_after)
    }
}

impl<T: Copy> IPad<T> for PadMode<T> {
    open spec fn pad_supported(&self, len: int, before: int, after: int) -> bool {
        &&& self.is_positional()
        &&& (self matches PadMode::Wrap) ==> (len == 0 || before < len)
    }

    open spec fn pad_spec(&self, signal: Seq<T>, before: int, after: int) -> Result<Seq<T>, PadError> {
        spec_pad(*self, signal, before, after)
    }

    fn pad(&self, signal: &[T], pad_before: usize, pad_after: usize) -> (r: Result<Vec<T>, PadError>) {
        let len = signal.len();
        if len == 0 {
            return Err(PadError::EmptySignal);
        }
        if let PadMode::Reflect = self {
            if pad_before >= len {
                let min_size = if pad_before < usize::MAX { pad_before + 1 } else { usize::MAX };
                return Err(PadError::SignalSizeTooSmall { min_size, actual: len });
            }
            if pad_after >= len {
                let min_size = if pad_after < usize::MAX { pad_after + 1 } else { usize::MAX };
                return Err(PadError::SignalSizeTooSmall { min_size, actual: len });
            }
        }
        let total = len + pad_before + pad_after;
        let mut padded: Vec<T> = Vec::with_capacity(total);
        self.push_range(signal, pad_before, 0, total, &mut padded);
        assert(padded@ =~= Seq::new(
            (pad_before + len + pad_after) as nat,
            |j: int| padded_at(*self, signal@, pad_before as int, j),
        ));
        Ok(padded)
    }
}


/// Padding never changes the signal itself: a padded signal is
/// `before + len + after` samples long and holds the signal unchanged after
/// the first `before` samples.
pub proof fn lemma_pad_keeps_signal<T>(
    mode: PadMode<T>,
    s: Seq<T>,
    before: nat,
    after: nat,
    p: Seq<T>,
)
    requires
        mode.is_positional(),
        spec_pad(mode, s, before as int, after as int) == Ok::<Seq<T>, PadError>(p),
    ensures
        p.len() == before + s.len() + after,
        p.subrange(before as int, (before + s.len()) as int) == s,
{
    assert(p.subrange(before as int, (before + s.len()) as int) =~= s);
}

/// Padding succeeds on every non-empty signal, except that reflecting needs
/// more samples than are added on either side.
pub proof fn lemma_pad_succeeds<T>(mode: PadMode<T>, s: Seq<T>, before: nat, after: nat)
    requires
        mode.is_positional(),
        s.len() > 0,
        (mode matches PadMode::Reflect) ==> (before < s.len() && after < s.len()),
    ensures
        spec_pad(mode, s, before as int, after as int) is Ok,
{
}

/// A refused reflection reports the signal's length and a minimum it
/// falls short of: reflecting `n` samples needs at least `n + 1` (held at
/// the largest `usize`).
pub proof fn lemma_reflect_error_sizes<T>(
    s: Seq<T>,
    before: nat,
    after: nat,
    min_size: usize,
    actual: usize,
)
    requires
        spec_pad(PadMode::Reflect, s, before as int, after as int) == Err::<Seq<T>, PadError>(
            PadError::SignalSizeTooSmall { min_size, actual },
        ),
        s.len() < usize::MAX,
    ensures
        actual == s.len(),
        actual < min_size,
        min_size == reflect_min(before as int) || min_size == reflect_min(after as int),
{
}

/// Reflect padding mirrors the signal around its first and last samples,
/// which are not repeated.
pub proof fn lemma_reflect_mirrors<T>(s: Seq<T>, before: nat, after: nat, p: Seq<T>)
    requires
        spec_pad(PadMode::Reflect, s, before as int, after as int) == Ok::<Seq<T>, PadError>(p),
    ensures
        forall|d: int| 1 <= d <= before ==> #[trigger] p[before - d] == p[before + d],
        forall|d: int|
            1 <= d <= after ==> #[trigger] p[before + s.len() - 1 + d] == p[before + s.len() - 1
                - d],
{
}

/// Symmetric padding mirrors the signal around its edges, repeating the
/// edge samples, for as far as the signal reaches.
pub proof fn lemma_symmetric_mirrors<T>(s: Seq<T>, before: nat, after: nat, p: Seq<T>)
    requires
        spec_pad(PadMode::Symmetric, s, before as int, after as int) == Ok::<Seq<T>, PadError>(p),
    ensures
        forall|d: int|
            0 <= d < before && d < s.len() ==> #[trigger] p[before - 1 - d] == p[before + d],
        forall|d: int|
            0 <= d < after && d < s.len() ==> #[trigger] p[before + s.len() + d] == p[before
                + s.len() - 1 - d],
{
}

/// Wrap padding continues the signal periodically: every sample of the
/// result is the signal sample at its offset modulo the signal length.
pub proof fn lemma_wrap_periodic<T>(s: Seq<T>, before: nat, after: nat, p: Seq<T>)
    requires
        spec_pad(PadMode::Wrap, s, before as int, after as int) == Ok::<Seq<T>, PadError>(p),
    ensures
        forall|j: int| 0 <= j < p.len() ==> #[trigger] p[j] == s[(j - before) % (s.len() as int)],
{
    assert forall|j: int| 0 <= j < p.len() implies #[trigger] p[j] == s[(j - before) % (
    s.len() as int)] by {
        let l = s.len() as int;
        if before <= j < before + l {
            assert((j - before) % l == j - before) by (nonlinear_arith)
                requires 0 <= j - before < l;
        }
    }
}

/// Edge padding repeats the first sample in front and the last one behind.
pub proof fn lemma_edge_repeats<T>(s: Seq<T>, before: nat, after: nat, p: Seq<T>)
    requires
        spec_pad(PadMode::Edge, s, before as int, after as int) == Ok::<Seq<T>, PadError>(p),
    ensures
        forall|j: int| 0 <= j < before ==> #[trigger] p[j] == s[0],
        forall|j: int| before + s.len() <= j < p.len() ==> #[trigger] p[j] == s[s.len() - 1],
{
}

/// Apart from a constant, padding only ever adds samples taken from the
/// signal itself.
pub proof fn lemma_pad_samples_from_signal<T>(
    mode: PadMode<T>,
    s: Seq<T>,
    before: nat,
    after: nat,
    p: Seq<T>,
)
    requires
        mode.is_positional(),
        !(mode matches PadMode::Constant(_)),
        spec_pad(mode, s, before as int, after as int) == Ok::<Seq<T>, PadError>(p),
    ensures
        forall|j: int| 0 <= j < p.len() ==> s.contains(#[trigger] p[j]),
{
    assert forall|j: int| 0 <= j < p.len() implies s.contains(#[trigger] p[j]) by {
        let l = s.len() as int;
        let b = before as int;
        if b <= j < b + l {
            assert(p[j] == s[j - b]);
        } else {
            match mode {
                PadMode::Edge => {
                    if j < b {
                        assert(p[j] == s[0]);
                    } else {
                        assert(p[j] == s[l - 1]);
                    }
                },
                PadMode::Reflect => {
                    if j < b {
                        assert(p[j] == s[b - j]);
                    } else {
                        assert(p[j] == s[l - 2 - (j - b - l)]);
                    }
                },
                PadMode::Symmetric => {
                    if j < b {
                        let i = if b - 1 - j < l - 1 { b - 1 - j } else { l - 1 };
                        assert(p[j] == s[i]);
                    } else {
                        let i = if l - 1 - (j - b - l) > 0 { l - 1 - (j - b - l) } else { 0 };
                        assert(p[j] == s[i]);
                    }
                },
                PadMode::Wrap => {
                    let i = (j - b) % l;
                    assert(0 <= i < l) by (nonlinear_arith)
                        requires l > 0, i == (j - b) % l;
                    assert(p[j] == s[i]);
                },
                _ => {},
            }
        }
    }
}

} // verus!
