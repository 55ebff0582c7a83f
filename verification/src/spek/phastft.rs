use vstd::prelude::*;

verus! {

/// The tuning options of `phastft`.
#[verifier::external_type_specification]
#[verifier::external_body]
pub struct ExOptions(phastft::options::Options);

/// The `phastft` plan of real transforms in single precision.
#[verifier::external_type_specification]
#[verifier::external_body]
pub struct ExPlannerR2c32(phastft::planner::PlannerR2c32);

/// The `phastft` plan of real transforms in double precision.
#[verifier::external_type_specification]
#[verifier::external_body]
pub struct ExPlannerR2c64(phastft::planner::PlannerR2c64);

/// Whether `n` is a power of two.
pub open spec fn is_power_of_two(n: nat) -> bool
    decreases n,
{
    if n <= 1 {
        n == 1
    } else {
        n % 2 == 0 && is_power_of_two(n / 2)
    }
}

/// The transform sizes `phastft` plans real transforms for: powers of two
/// of at least four points.
pub open spec fn plannable(fft_size: nat) -> bool {
    fft_size >= 4 && is_power_of_two(fft_size)
}

/// A plannable size is a multiple of four.
proof fn lemma_plannable_multiple_of_four(n: nat)
    requires
        plannable(n),
    ensures
        n % 4 == 0,
{
    assert(n % 2 == 0 && is_power_of_two(n / 2));
    assert((n / 2) % 2 == 0);
}

/// `Options::guess_options`, which takes the base-2 logarithm of the size
/// and so panics for a size of zero. Nothing is claimed of the options.
#[verifier::external_body]
fn guess_options(input_size: usize) -> phastft::options::Options
    requires
        input_size > 0,
{
    phastft::options::Options::guess_options(input_size)
}

/// `phastft::planner::PlannerR2c32::new`, which panics unless the size is a power of two of
/// at least four. Nothing is claimed of the plan.
#[verifier::external_body]
fn plan_r2c32(n: usize) -> phastft::planner::PlannerR2c32
    requires
        plannable(n as nat),
{
    phastft::planner::PlannerR2c32::new(n)
}

/// `phastft::planner::PlannerR2c64::new`, which panics unless the size is a power of two of
/// at least four. Nothing is claimed of the plan.
#[verifier::external_body]
fn plan_r2c64(n: usize) -> phastft::planner::PlannerR2c64
    requires
        plannable(n as nat),
{
    phastft::planner::PlannerR2c64::new(n)
}

/// A real-to-complex transform backend on `phastft`, with the spectrum
/// stored split: all real parts, then all imaginary parts.
pub struct PhastftBackend<P> {
    fft_size: usize,
    options: phastft::options::Options,
    planner: P,
}

impl<P> PhastftBackend<P> {
    #[verifier::type_invariant]
    spec fn inv(&self) -> bool {
        plannable(self.fft_size as nat)
    }

    /// The number of points of the transform.
    pub closed spec fn size(&self) -> nat {
        self.fft_size as nat
    }

    /// The tuning options the backend was made with.
    pub closed spec fn tuning(&self) -> phastft::options::Options {
        self.options
    }

    /// The plan the backend was made with.
    pub closed spec fn plan(&self) -> P {
        self.planner
    }

    /// The number of points of the transform.
    pub fn fft_size(&self) -> (r: usize)
        ensures
            r == self.size(),
            plannable(r as nat),
    {
        proof {
            use_type_invariant(self);
        }
        self.fft_size
    }

    /// The number of signal samples a transform reads: one per point.
    pub fn signal_size(&self) -> (r: usize)
        ensures
            r == self.size(),
    {
        self.fft_size
    }

    /// The number of stored spectrum values: real and imaginary parts of
    /// the `fft_size / 2 + 1` bins.
    pub fn spectrum_size(&self) -> (r: usize)
        ensures
            r == (self.size() / 2 + 1) * 2,
    {
        proof {
            use_type_invariant(self);
            lemma_plannable_multiple_of_four(self.fft_size as nat);
            assert(usize::MAX % 4 == 3);
        }
        (self.fft_size / 2 + 1) * 2
    }

    /// The scratch length of either direction: real and imaginary parts of
    /// `fft_size / 2` values.
    pub fn scratch_size(&self) -> (r: usize)
        ensures
            r == (self.size() / 2) * 2,
    {
        proof {
            use_type_invariant(self);
        }
        (self.fft_size / 2) * 2
    }

    /// The tuning options.
    pub fn options(&self) -> (r: &phastft::options::Options)
        ensures
            *r == self.tuning(),
    {
        &self.options
    }

    /// The plan.
    pub fn planner(&self) -> (r: &P)
        ensures
            *r == self.plan(),
    {
        &self.planner
    }
}

impl PhastftBackend<phastft::planner::PlannerR2c32> {
    /// A single-precision backend for transforms of `fft_size` points.
    pub fn new(fft_size: usize) -> (r: Self)
        requires
            plannable(fft_size as nat),
        ensures
            r.size() == fft_size,
    {
        PhastftBackend { fft_size, options: guess_options(fft_size), planner: plan_r2c32(fft_size) }
    }
}

impl PhastftBackend<phastft::planner::PlannerR2c64> {
    /// A double-precision backend for transforms of `fft_size` points.
    pub fn new(fft_size: usize) -> (r: Self)
        requires
            plannable(fft_size as nat),
        ensures
            r.size() == fft_size,
    {
        PhastftBackend { fft_size, options: guess_options(fft_size), planner: plan_r2c64(fft_size) }
    }
}

} // verus!
