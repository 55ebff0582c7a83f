use vstd::prelude::*;

verus! {

/// Why a window could not be built.
#[derive(Debug, Clone, Copy, PartialEq, Eq, Structural)]
pub enum WindowError {
    /// The decay constant of an exponential window is not positive.
    ExponentialTau,
    /// A Kaiser-Bessel derived window was asked for in periodic form.
    KaiserBesselDerivedAsymmetric,
    /// A Kaiser-Bessel derived window was asked for with an odd length.
    KaiserBesselDerivedSize,
}

/// Whether a Kaiser-Bessel derived window of `size` points can be built:
/// the empty window always can; otherwise it must be symmetric and of even
/// length.
pub fn kaiser_bessel_derived_shape(size: usize, symmetric: bool) -> (r: Result<(), WindowError>)
    ensures
        r == (if size == 0 {
            Ok(())
        } else if !symmetric {
            Err(WindowError::KaiserBesselDerivedAsymmetric)
        } else if size % 2 != 0 {
            Err(WindowError::KaiserBesselDerivedSize)
        } else {
            Ok(())
        }),
{
    if size == 0 {
        return Ok(());
    }
    if !symmetric {
        return Err(WindowError::KaiserBesselDerivedAsymmetric);
    }
    if size % 2 != 0 {
        return Err(WindowError::KaiserBesselDerivedSize);
    }
    Ok(())
}

/// The number of points a window of `size` points is computed over before
/// truncation: periodic windows are computed one point longer and the last
/// point dropped.
pub fn extended_size(size: usize, symmetric: bool) -> (r: usize)
    requires
        size < usize::MAX,
    ensures
        r == (if symmetric { size } else { (size + 1) as usize }),
{
    if symmetric { size } else { size + 1 }
}

} // verus!
