//! The transform algorithms.

use vstd::prelude::*;

/// The Bluestein algorithm, for arbitrary lengths.
pub mod bluestein;

/// The Cooley-Tukey algorithm, for power-of-two lengths.
pub mod cooley_tukey;

/// The naive algorithm.
pub mod discrete;

verus! {

/// Whether `n` is a power of two.
pub open spec fn is_pow2(n: nat) -> bool
    decreases n,
{
    if n == 0 {
        false
    } else if n == 1 {
        true
    } else {
        n % 2 == 0 && is_pow2(n / 2)
    }
}

/// Tests whether `n` is a power of two.
pub fn is_power_of_two(n: usize) -> (b: bool)
    ensures
        b == is_pow2(n as nat),
{
    if n == 0 {
        return false;
    }
    let mut m: usize = n;
    while m > 1 && m % 2 == 0
        invariant
            m >= 1,
            is_pow2(n as nat) == is_pow2(m as nat),
        decreases m,
    {
        m = m / 2;
    }
    m == 1
}

} // verus!
