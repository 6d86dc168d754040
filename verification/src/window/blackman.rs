//! The Blackman window.

use vstd::prelude::*;

use super::{cosine, Function};
use crate::complex::Complex;

verus! {

/// A two-cosine window with stronger sidelobe suppression.
pub struct Blackman;

impl<S: Complex> Function<S> for Blackman {
    fn compute(n: usize, width: usize) -> S {
        // 0.42 − 0.5 · cos(2πn / (width − 1)) + 0.08 · cos(4πn / (width − 1))
        S::ratio(42, 100).sub(&S::ratio(1, 2).mul(&cosine::<S>(1, n, width))).add(
            &S::ratio(8, 100).mul(&cosine::<S>(2, n, width)),
        )
    }
}

} // verus!
