//! The Nuttall window.

use vstd::prelude::*;

use super::{cosine, Function};
use crate::complex::Complex;

verus! {

/// A three-cosine window with a continuous first derivative.
pub struct Nuttall;

impl<S: Complex> Function<S> for Nuttall {
    fn compute(n: usize, width: usize) -> S {
        // 0.355768 − 0.487396 cos(2πn/(width−1)) + 0.144232 cos(4πn/(width−1))
        //          − 0.012604 cos(6πn/(width−1))
        S::ratio(355768, 1000000).sub(
            &S::ratio(487396, 1000000).mul(&cosine::<S>(1, n, width)),
        ).add(&S::ratio(144232, 1000000).mul(&cosine::<S>(2, n, width))).sub(
            &S::ratio(12604, 1000000).mul(&cosine::<S>(3, n, width)),
        )
    }
}

} // verus!
