//! The Hann window.

use vstd::prelude::*;

use super::{cosine, Function};
use crate::complex::Complex;

verus! {

/// A raised cosine reaching zero at both edges.
pub struct Hann;

impl<S: Complex> Function<S> for Hann {
    fn compute(n: usize, width: usize) -> S {
        // 0.5 · (1 − cos(2πn / (width − 1)))
        S::ratio(1, 2).mul(&S::one().sub(&cosine::<S>(1, n, width)))
    }
}

} // verus!
