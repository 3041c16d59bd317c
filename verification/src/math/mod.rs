//! Numerical method selectors.
use vstd::prelude::*;

verus! {

/// Interpolation method between curve pillars.
#[derive(Clone, Copy, Debug, PartialEq, Eq, Structural)]
pub enum Interpolator {
    Linear,
    LogLinear,
    LinearZeroRate,
    CubicSpline,
}

} // verus!
