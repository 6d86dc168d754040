//! The Bartlett window.

use vstd::prelude::*;

use super::Function;
use crate::complex::Complex;

verus! {

/// A triangle reaching zero at both ends of the window.
pub struct Bartlett;

impl<S: Complex> Function<S> for Bartlett {
    fn compute(n: usize, width: usize) -> S {
        // 1 − (n − (width − 1)/2) / ((width − 1)/2), as one exact ratio; a
        // zero width turns the denominator negative, which flips both signs
        if width >= 1 {
            S::ratio(2 * (width as i64) - 2 - 2 * (n as i64), (width - 1) as u64)
        } else {
            S::ratio(2 + 2 * (n as i64), 1)
        }
    }
}

} // verus!
