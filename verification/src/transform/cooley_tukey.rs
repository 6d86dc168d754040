//! Recursive radix-2 decimation-in-time transform.
//!
//! The input view is split into even- and odd-indexed halves, the output view
//! into a front and a back half, and the two sub-transforms are combined in
//! place with a running twiddle factor.  The in-place combination is sound
//! because sibling views produced by a split never alias; the engine only
//! writes through the output view, and everything outside it is left alone.

use vstd::prelude::*;

use crate::complex::Complex;
use crate::stride::{
    element, lemma_decimate_wf, lemma_split_at_covers, lemma_split_at_wf, store, Stride,
};
use crate::transform::is_pow2;

verus! {

/// One recursive decimation-in-time pass.  `direction` is the `±2` multiplier
/// of the twiddle angle `π · direction / length`; no scaling is applied in
/// either direction.
#[verifier::loop_isolation(false)]
fn fft<C: Complex>(direction: i64, input: &Vec<C>, iv: Stride, output: &mut Vec<C>, ov: Stride)
    requires
        direction == 2 || direction == -2,
        iv.wf(input@.len() as int),
        ov.wf(old(output)@.len() as int),
        is_pow2(iv.length as nat),
        iv.length == ov.length,
        iv.length * iv.step <= usize::MAX,
        ov.length * ov.step <= usize::MAX,
    ensures
        final(output)@.len() == old(output)@.len(),
        forall|j: int|
            0 <= j < old(output)@.len() && !ov.covers(j) ==> final(output)@[j] == old(
                output,
            )@[j],
    decreases iv.length,
{
    let length = iv.length;
    let n_in = input.len();
    let n_out = output.len();

    // base case: the transform of a single element is itself.
    if length == 1 {
        let x = element(input, iv, 0).clone();
        proof {
            assert(0 * ov.step == 0);
            assert(ov.covers(ov.pos(0)));
        }
        store(output, ov, 0, x);
        return;
    }
    let half = length / 2;

    proof {
        assert(length % 2 == 0 && length >= 2);
        assert(1 * iv.step == iv.step);
        assert(2 * iv.step <= iv.length * iv.step) by (nonlinear_arith)
            requires
                iv.length >= 2,
                iv.step >= 0,
        ;
        assert(iv.pos(1) < n_in as int);
        lemma_decimate_wf(iv, n_in as int);
        lemma_split_at_wf(ov, half as int, n_out as int);
        assert((iv.length / 2) * (2 * iv.step) == iv.length * iv.step) by (nonlinear_arith)
            requires
                iv.length % 2 == 0,
        ;
        assert((ov.length / 2) * ov.step <= ov.length * ov.step) by (nonlinear_arith)
            requires
                ov.step >= 0,
                ov.length >= 0,
        ;
    }

    // split the input into alternating elements ("decimate in time") and the
    // output into a front and a back half.
    let (evens, odds) = iv.decimate();
    let (left, right) = ov.split_at(half);

    // transform each half of the input into its half of the output.
    fft(direction, input, evens, output, left);
    let ghost mid1 = output@;
    fft(direction, input, odds, output, right);
    let ghost mid2 = output@;

    proof {
        assert forall|j: int| 0 <= j < mid2.len() && !ov.covers(j) implies mid2[j] == old(
            output,
        )@[j] by {
            if left.covers(j) || right.covers(j) {
                lemma_split_at_covers(ov, half as int, j);
            }
        }
    }

    // combine with X_k = E_k + w^k O_k and X_{k+N/2} = E_k - w^k O_k, where
    // w = exp(i π direction / length), advanced by one multiplication per
    // iteration.
    let twiddle = C::unit(direction, length as u64);
    let mut factor = C::one();
    let mut k: usize = 0;
    while k < half
        invariant
            k <= half,
            output@.len() == old(output)@.len(),
            forall|j: int| 0 <= j < output@.len() && !ov.covers(j) ==> output@[j] == mid2[j],
        decreases half - k,
    {
        let t = factor.mul(element(output, right, k));
        let e = element(output, left, k).clone();
        proof {
            assert(left.covers(left.pos(k as int)));
            assert(right.covers(right.pos(k as int)));
            lemma_split_at_covers(ov, half as int, left.pos(k as int));
            lemma_split_at_covers(ov, half as int, right.pos(k as int));
        }
        store(output, left, k, e.add(&t));
        store(output, right, k, e.sub(&t));
        factor = factor.mul(&twiddle);
        k = k + 1;
    }
}

/// Applies an unscaled forward transform of power-of-two length to the
/// elements of `iv` over `input`, writing into the elements of `ov` over
/// `output`.  Elements of `output` outside the view are left unchanged.
pub fn forward<C: Complex>(input: &Vec<C>, iv: Stride, output: &mut Vec<C>, ov: Stride)
    requires
        iv.wf(input@.len() as int),
        ov.wf(old(output)@.len() as int),
        is_pow2(iv.length as nat),
        iv.length == ov.length,
        iv.length * iv.step <= usize::MAX,
        ov.length * ov.step <= usize::MAX,
    ensures
        final(output)@.len() == old(output)@.len(),
        forall|j: int|
            0 <= j < old(output)@.len() && !ov.covers(j) ==> final(output)@[j] == old(
                output,
            )@[j],
{
    fft(-2, input, iv, output, ov);
}

/// Applies an unscaled inverse transform of power-of-two length to the
/// elements of `iv` over `input`, writing into the elements of `ov` over
/// `output`.  Elements of `output` outside the view are left unchanged.
pub fn inverse<C: Complex>(input: &Vec<C>, iv: Stride, output: &mut Vec<C>, ov: Stride)
    requires
        iv.wf(input@.len() as int),
        ov.wf(old(output)@.len() as int),
        is_pow2(iv.length as nat),
        iv.length == ov.length,
        iv.length * iv.step <= usize::MAX,
        ov.length * ov.step <= usize::MAX,
    ensures
        final(output)@.len() == old(output)@.len(),
        forall|j: int|
            0 <= j < old(output)@.len() && !ov.covers(j) ==> final(output)@[j] == old(
                output,
            )@[j],
{
    fft(2, input, iv, output, ov);
}

} // verus!
