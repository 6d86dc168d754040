//! The rectangular window.

use vstd::prelude::*;

use super::Function;
use crate::complex::Complex;

verus! {

/// A window that leaves every covered sample as it is.
pub struct Rectangular;

impl<S: Complex> Function<S> for Rectangular {
    fn compute(_n: usize, _width: usize) -> S {
        S::one()
    }
}

} // verus!
