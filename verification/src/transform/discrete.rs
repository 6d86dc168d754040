//! The naive quadratic-time transform, kept as a correctness oracle.

use vstd::prelude::*;

use crate::complex::Complex;
use crate::stride::{element, store, Stride};

verus! {

/// One quadratic-time pass: output element `k` is the sum over `j` of
/// `input[j] · exp(−i · π · direction · j · k / length)`, with the phase
/// numerator reduced modulo `2 · length`.  `direction` is `±2`.
#[verifier::loop_isolation(false)]
pub fn dft<C: Complex>(direction: i64, input: &Vec<C>, iv: Stride, output: &mut Vec<C>, ov: Stride)
    requires
        direction == 2 || direction == -2,
        iv.wf(input@.len() as int),
        ov.wf(old(output)@.len() as int),
        iv.length == ov.length,
        4 * iv.length <= usize::MAX,
    ensures
        final(output)@.len() == old(output)@.len(),
        forall|j: int|
            0 <= j < old(output)@.len() && !ov.covers(j) ==> final(output)@[j] == old(
                output,
            )@[j],
{
    let length = iv.length;
    let mut k: usize = 0;
    while k < length
        invariant
            k <= length,
            output@.len() == old(output)@.len(),
            forall|j: int|
                0 <= j < output@.len() && !ov.covers(j) ==> output@[j] == old(output)@[j],
        decreases length - k,
    {
        let mut acc = C::zero();
        let mut j: usize = 0;
        while j < length
            invariant
                j <= length,
                k < length,
                output@.len() == old(output)@.len(),
                forall|j2: int|
                    0 <= j2 < output@.len() && !ov.covers(j2) ==> output@[j2] == old(
                        output,
                    )@[j2],
            decreases length - j,
        {
            let jj: u128 = j as u128;
            let kk: u128 = k as u128;
            proof {
                assert(jj * kk <= u128::MAX) by (nonlinear_arith)
                    requires
                        jj <= 0xFFFF_FFFF_FFFF_FFFFu128,
                        kk <= 0xFFFF_FFFF_FFFF_FFFFu128,
                ;
            }
            let r: u128 = (jj * kk) % (2 * (length as u128));
            let m: u128 = (2 * r) % (2 * (length as u128));
            let num: i64 = if direction > 0 {
                -(m as i64)
            } else {
                m as i64
            };
            acc = acc.add(&element(input, iv, j).mul(&C::unit(num, length as u64)));
            j = j + 1;
        }
        proof {
            assert(ov.covers(ov.pos(k as int)));
        }
        store(output, ov, k, acc);
        k = k + 1;
    }
}

/// Applies an unscaled forward transform, naively, to the elements of `iv`
/// over `input`, writing into the elements of `ov` over `output`.
pub fn forward<C: Complex>(input: &Vec<C>, iv: Stride, output: &mut Vec<C>, ov: Stride)
    requires
        iv.wf(input@.len() as int),
        ov.wf(old(output)@.len() as int),
        iv.length == ov.length,
        4 * iv.length <= usize::MAX,
    ensures
        final(output)@.len() == old(output)@.len(),
        forall|j: int|
            0 <= j < old(output)@.len() && !ov.covers(j) ==> final(output)@[j] == old(
                output,
            )@[j],
{
    dft(2, input, iv, output, ov);
}

/// Applies an unscaled inverse transform, naively, to the elements of `iv`
/// over `input`, writing into the elements of `ov` over `output`.
pub fn inverse<C: Complex>(input: &Vec<C>, iv: Stride, output: &mut Vec<C>, ov: Stride)
    requires
        iv.wf(input@.len() as int),
        ov.wf(old(output)@.len() as int),
        iv.length == ov.length,
        4 * iv.length <= usize::MAX,
    ensures
        final(output)@.len() == old(output)@.len(),
        forall|j: int|
            0 <= j < old(output)@.len() && !ov.covers(j) ==> final(output)@[j] == old(
                output,
            )@[j],
{
    dft(-2, input, iv, output, ov);
}

} // verus!
