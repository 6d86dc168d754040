//! Chirp-z transform: an arbitrary-length transform built from a
//! power-of-two cyclic convolution.
//!
//! The input is multiplied by a quadratic-phase chirp, convolved with the
//! conjugate chirp kernel through three Cooley-Tukey transforms of the
//! smallest power-of-two size `M >= 2N + 1`, and multiplied by the chirp
//! again.  The convolution itself divides by `M`; no `1/N` scaling is
//! applied in either direction.

use vstd::prelude::*;

use crate::complex::Complex;
use crate::stride::{element, store, Stride};
use crate::transform::{cooley_tukey, is_pow2};

verus! {

/// Convolves `x` with `y` cyclically (both of power-of-two length, both
/// clobbered), dividing by their length, and writes the leading elements of
/// the result through `ov` over `output`.
#[verifier::loop_isolation(false)]
fn convolve<C: Complex>(x: &mut Vec<C>, y: &mut Vec<C>, output: &mut Vec<C>, ov: Stride)
    requires
        is_pow2(old(x)@.len() as nat),
        old(x)@.len() == old(y)@.len(),
        ov.wf(old(output)@.len() as int),
        ov.length <= old(x)@.len(),
    ensures
        final(output)@.len() == old(output)@.len(),
        forall|j: int|
            0 <= j < old(output)@.len() && !ov.covers(j) ==> final(output)@[j] == old(
                output,
            )@[j],
{
    let length = x.len();
    let full = Stride::full(length);

    // temporary buffer for the juggling
    let mut tmp: Vec<C> = Vec::new();
    let mut i: usize = 0;
    while i < length
        invariant
            i <= length,
            tmp@.len() == i,
        decreases length - i,
    {
        tmp.push(C::zero());
        i = i + 1;
    }

    // forward transform of the kernel, into tmp
    cooley_tukey::forward(y, full, &mut tmp, full);

    // forward transform of the data, reusing the kernel's buffer
    cooley_tukey::forward(x, full, y, full);

    // pointwise product of the two spectra
    let mut i: usize = 0;
    while i < length
        invariant
            i <= length,
            y@.len() == length,
            tmp@.len() == length,
        decreases length - i,
    {
        let v = y[i].mul(&tmp[i]);
        y.set(i, v);
        i = i + 1;
    }

    // inverse transform of the product, back into x
    cooley_tukey::inverse(y, full, x, full);

    // scale by the convolution length and set the output
    let mut i: usize = 0;
    while i < ov.length
        invariant
            i <= ov.length,
            x@.len() == length,
            output@.len() == old(output)@.len(),
            forall|j: int|
                0 <= j < output@.len() && !ov.covers(j) ==> output@[j] == old(output)@[j],
        decreases ov.length - i,
    {
        let v = x[i].unscale(length as u64);
        proof {
            assert(ov.covers(ov.pos(i as int)));
        }
        store(output, ov, i, v);
        i = i + 1;
    }
}

/// One chirp-z pass.  `direction` is the `±1` multiplier of the chirp angle
/// `π · direction · (i² mod 2N) / N`.
#[verifier::loop_isolation(false)]
fn fft<C: Complex>(direction: i64, input: &Vec<C>, iv: Stride, output: &mut Vec<C>, ov: Stride)
    requires
        direction == 1 || direction == -1,
        iv.wf(input@.len() as int),
        ov.wf(old(output)@.len() as int),
        iv.length == ov.length,
        4 * iv.length <= usize::MAX,
    ensures
        final(output)@.len() == old(output)@.len(),
        forall|j: int|
            0 <= j < old(output)@.len() && !ov.covers(j) ==> final(output)@[j] == old(
                output,
            )@[j],
{
    let length = iv.length;

    // the smallest power-of-two convolution size with next >= 2N + 1
    let mut next: usize = 1;
    while next < 2 * length + 1
        invariant
            next >= 1,
            is_pow2(next as nat),
            next == 1 || next <= 4 * length,
        decreases 4 * length + 2 - next,
    {
        next = 2 * next;
    }

    // chirp table t[i] = exp(i · π · direction · (i² mod 2N) / N); the
    // `i² mod 2N` reduction keeps the phase argument bounded
    let mut t: Vec<C> = Vec::new();
    let mut i: usize = 0;
    while i < length
        invariant
            i <= length,
            t@.len() == i,
        decreases length - i,
    {
        let ii: u128 = i as u128;
        proof {
            assert(ii * ii <= u128::MAX) by (nonlinear_arith)
                requires
                    ii <= 0xFFFF_FFFF_FFFF_FFFFu128,
            ;
        }
        let sq: u128 = ii * ii % (2 * (length as u128));
        let num: i64 = if direction < 0 {
            -(sq as i64)
        } else {
            sq as i64
        };
        t.push(C::unit(num, length as u64));
        i = i + 1;
    }

    // a is the chirped input zero-padded to the convolution size; b encodes
    // the conjugate chirp kernel symmetrically around both ends
    let mut a: Vec<C> = Vec::new();
    let mut b: Vec<C> = Vec::new();
    let mut i: usize = 0;
    while i < next
        invariant
            i <= next,
            a@.len() == i,
            b@.len() == i,
            t@.len() == length,
        decreases next - i,
    {
        if i < length {
            a.push(element(input, iv, i).mul(&t[i]));
        } else {
            a.push(C::zero());
        }
        if i < length || next - i < length {
            let k = if i < next - i {
                i
            } else {
                next - i
            };
            b.push(t[k].conj());
        } else {
            b.push(C::zero());
        }
        i = i + 1;
    }

    // convolve the chirped input with the kernel
    convolve(&mut a, &mut b, output, ov);
    let ghost mid = output@;

    // post-multiply by the chirp
    let mut k: usize = 0;
    while k < length
        invariant
            k <= length,
            t@.len() == length,
            output@.len() == old(output)@.len(),
            forall|j: int| 0 <= j < output@.len() && !ov.covers(j) ==> output@[j] == mid[j],
        decreases length - k,
    {
        let v = element(output, ov, k).mul(&t[k]);
        proof {
            assert(ov.covers(ov.pos(k as int)));
        }
        store(output, ov, k, v);
        k = k + 1;
    }
}

/// Applies an unscaled forward transform of arbitrary length to the elements
/// of `iv` over `input`, writing into the elements of `ov` over `output`.
/// Elements of `output` outside the view are left unchanged.
pub fn forward<C: Complex>(input: &Vec<C>, iv: Stride, output: &mut Vec<C>, ov: Stride)
    requires
        iv.wf(input@.len() as int),
        ov.wf(old(output)@.len() as int),
        iv.length == ov.length,
        4 * iv.length <= usize::MAX,
    ensures
        final(output)@.len() == old(output)@.len(),
        forall|j: int|
            0 <= j < old(output)@.len() && !ov.covers(j) ==> final(output)@[j] == old(
                output,
            )@[j],
{
    fft(-1, input, iv, output, ov);
}

/// Applies an unscaled inverse transform of arbitrary length to the elements
/// of `iv` over `input`, writing into the elements of `ov` over `output`.
/// Elements of `output` outside the view are left unchanged.
pub fn inverse<C: Complex>(input: &Vec<C>, iv: Stride, output: &mut Vec<C>, ov: Stride)
    requires
        iv.wf(input@.len() as int),
        ov.wf(old(output)@.len() as int),
        iv.length == ov.length,
        4 * iv.length <= usize::MAX,
    ensures
        final(output)@.len() == old(output)@.len(),
        forall|j: int|
            0 <= j < old(output)@.len() && !ov.covers(j) ==> final(output)@[j] == old(
                output,
            )@[j],
{
    fft(1, input, iv, output, ov);
}

} // verus!
