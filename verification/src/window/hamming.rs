//! The Hamming window.

use vstd::prelude::*;

use super::{cosine, Function};
use crate::complex::Complex;

verus! {

/// A raised cosine that does not quite reach zero at the edges.
pub struct Hamming;

impl<S: Complex> Function<S> for Hamming {
    fn compute(n: usize, width: usize) -> S {
        // 0.53836 − 0.46164 · cos(2πn / (width − 1))
        S::ratio(53836, 100000).sub(&S::ratio(46164, 100000).mul(&cosine::<S>(1, n, width)))
    }
}

} // verus!
