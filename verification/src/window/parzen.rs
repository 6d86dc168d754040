//! The Parzen window.

use vstd::prelude::*;

use super::Function;
use crate::complex::Complex;

verus! {

/// A piecewise polynomial window.
pub struct Parzen;

impl<S: Complex> Function<S> for Parzen {
    fn compute(n: usize, width: usize) -> S {
        let quadrupled: u64 = 4 * (n as u64);
        let doubled: u64 = 2 * (n as u64);
        if quadrupled <= width as u64 {
            // 1 − 6 r² (1 − r) with r = n / (width/2)
            let r = S::ratio(2 * (n as i64), width as u64);
            S::one().sub(&S::ratio(6, 1).mul(&r).mul(&r).mul(&S::one().sub(&r)))
        } else if doubled <= width as u64 {
            // 2 (1 − r) with r = n / (width/2)
            let r = S::ratio(2 * (n as i64), width as u64);
            S::ratio(2, 1).mul(&S::one().sub(&r))
        } else {
            S::zero()
        }
    }
}

} // verus!
