//! The triangular window.

use vstd::prelude::*;

use super::Function;
use crate::complex::Complex;

verus! {

/// A triangle over the full width of the window.
pub struct Triangular;

impl<S: Complex> Function<S> for Triangular {
    fn compute(n: usize, width: usize) -> S {
        // 1 − (n − (width − 1)/2) / (width/2), as one exact ratio
        S::ratio(2 * (width as i64) - 1 - 2 * (n as i64), width as u64)
    }
}

} // verus!
