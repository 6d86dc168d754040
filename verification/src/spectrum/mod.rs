//! Spectrum computations.

use vstd::prelude::*;

/// Spectrum band averaging.
pub mod average;

pub use average::compute as average;
pub use average::compute_in as average_in;
pub use average::Average;

use crate::complex::Complex;
use crate::zeroes;
use vstd::arithmetic::div_mod::{
    lemma_div_is_ordered, lemma_div_pos_is_pos, lemma_fundamental_div_mod,
    lemma_fundamental_div_mod_converse_div, lemma_multiply_divide_le,
};
use vstd::arithmetic::mul::{lemma_mul_inequality, lemma_mul_is_commutative};

verus! {

/// Computes the magnitude of the leading `length / 2 + 1` bins of `input`
/// into a fresh vector of that many elements.
pub fn compute<C: Complex>(input: &Vec<C>) -> (output: Vec<C>)
    ensures
        output@.len() == input@.len() / 2 + 1,
{
    let mut output: Vec<C> = zeroes(input.len() / 2 + 1);
    compute_in(input, &mut output);
    output
}

/// Computes the magnitude of each bin of `input` into `output`, which must
/// hold `length / 2 + 1` elements.  Bins past the end of either buffer are
/// left alone.
#[verifier::loop_isolation(false)]
pub fn compute_in<C: Complex>(input: &Vec<C>, output: &mut Vec<C>)
    requires
        old(output)@.len() == input@.len() / 2 + 1,
    ensures
        final(output)@.len() == old(output)@.len(),
        forall|j: int|
            input@.len() <= j < old(output)@.len() ==> final(output)@[j] == old(output)@[j],
{
    let shared = if input.len() < output.len() {
        input.len()
    } else {
        output.len()
    };
    let mut i: usize = 0;
    while i < shared
        invariant
            i <= shared,
            output@.len() == old(output)@.len(),
            forall|j: int|
                input@.len() <= j < output@.len() ==> output@[j] == old(output)@[j],
        decreases shared - i,
    {
        let v = input[i].magnitude();
        output.set(i, v);
        i = i + 1;
    }
}

/// Returns the band at the given index, clamped to the last band.
pub fn band<C: Complex>(input: &Vec<C>, index: usize) -> (r: &C)
    requires
        input@.len() >= 1,
    ensures
        index < input@.len() ==> *r == input@[index as int],
        index >= input@.len() ==> *r == input@[input@.len() - 1],
{
    let mut index = index;
    if index > input.len() - 1 {
        index = input.len() - 1;
    }
    &input[index]
}

/// The bin that covers `frequency` in a spectrum of `size` bins at sampling
/// rate `rate`, by exact integer arithmetic: frequencies under half a
/// bandwidth map to the first bin, frequencies past the Nyquist edge map to
/// the last bin, and everything between rounds to the nearest bin.
pub open spec fn spec_index_for(frequency: int, size: int, rate: int) -> int {
    if frequency < rate / (2 * size) {
        0
    } else if frequency > (rate * (size - 1)) / (2 * size) {
        size / 2
    } else {
        (2 * size * frequency + rate) / (2 * rate)
    }
}

/// The frequency at the centre of bin `index`: the first bin reports a
/// quarter bandwidth, the last bin the Nyquist edge less a quarter
/// bandwidth, and every other bin its lower edge.
pub open spec fn spec_frequency_for(index: int, size: int, rate: int) -> int {
    if index == 0 {
        (2 * rate + 4 * size) / (8 * size)
    } else if index >= size / 2 {
        (2 * rate * (2 * size - 1) + 4 * size) / (8 * size)
    } else {
        (index * rate) / size
    }
}

/// The rounding branch of `spec_index_for` is a bin index no greater than
/// `size / 2`.
pub proof fn lemma_round_within_half(f: int, size: int, rate: int)
    requires
        size >= 1,
        rate >= 1,
        0 <= f,
        f <= (rate * (size - 1)) / (2 * size),
    ensures
        0 <= (2 * size * f + rate) / (2 * rate) <= size / 2,
{
    let u = (rate * (size - 1)) / (2 * size);
    lemma_fundamental_div_mod(rate * (size - 1), 2 * size);
    let m = (rate * (size - 1)) % (2 * size);
    assert(rate * (size - 1) == 2 * size * u + m) by {
        lemma_mul_is_commutative(2 * size, u);
    }
    lemma_mul_inequality(f, u, 2 * size);
    assert(2 * size * f <= 2 * size * u) by {
        lemma_mul_is_commutative(f, 2 * size);
        lemma_mul_is_commutative(u, 2 * size);
    }
    assert(rate * (size - 1) + rate == rate * size) by (nonlinear_arith);
    assert(2 * size * f + rate <= rate * size);
    lemma_div_is_ordered(2 * size * f + rate, rate * size, 2 * rate);
    assert(rate * size == (size / 2) * (2 * rate) + rate * (size % 2)) by (nonlinear_arith)
        requires
            size >= 1,
    ;
    assert(0 <= rate * (size % 2) < 2 * rate) by (nonlinear_arith)
        requires
            rate >= 1,
            size >= 1,
    ;
    lemma_fundamental_div_mod_converse_div(
        rate * size,
        2 * rate,
        size / 2,
        rate * (size % 2),
    );
    lemma_div_pos_is_pos(2 * size * f + rate, 2 * rate);
}

/// A higher frequency never maps to an earlier bin.
pub proof fn lemma_index_for_monotone(f1: int, f2: int, size: int, rate: int)
    requires
        size >= 1,
        rate >= 1,
        0 <= f1 <= f2,
    ensures
        spec_index_for(f1, size, rate) <= spec_index_for(f2, size, rate),
{
    let lower = rate / (2 * size);
    let upper = (rate * (size - 1)) / (2 * size);
    if f2 < lower {
        // both in the first branch
    } else if f2 > upper {
        if f1 < lower {
        } else if f1 > upper {
        } else {
            lemma_round_within_half(f1, size, rate);
        }
    } else {
        if f1 < lower {
            lemma_div_pos_is_pos(2 * size * f2 + rate, 2 * rate);
        } else {
            lemma_mul_inequality(f1, f2, 2 * size);
            assert(2 * size * f1 <= 2 * size * f2) by {
                lemma_mul_is_commutative(f1, 2 * size);
                lemma_mul_is_commutative(f2, 2 * size);
            }
            lemma_div_is_ordered(2 * size * f1 + rate, 2 * size * f2 + rate, 2 * rate);
        }
    }
}

/// Every bin index is at most `size / 2`.
pub proof fn lemma_index_for_bounded(frequency: int, size: int, rate: int)
    requires
        size >= 1,
        rate >= 1,
        0 <= frequency,
    ensures
        0 <= spec_index_for(frequency, size, rate) <= size / 2,
{
    if frequency < rate / (2 * size) {
    } else if frequency > (rate * (size - 1)) / (2 * size) {
    } else {
        lemma_round_within_half(frequency, size, rate);
    }
}

/// Maps a frequency to the bin that covers it.
pub fn index_for(frequency: u32, size: usize, rate: u32) -> (index: usize)
    requires
        size >= 1,
        rate >= 1,
    ensures
        index == spec_index_for(frequency as int, size as int, rate as int),
        index <= size / 2,
{
    let f = frequency as u128;
    let s = size as u128;
    let r = rate as u128;
    proof {
        assert(r * (s - 1) <= u128::MAX) by (nonlinear_arith)
            requires
                r <= 0xFFFF_FFFFu128,
                1 <= s <= 0xFFFF_FFFF_FFFF_FFFFu128,
        ;
        assert(2 * s * f + r <= u128::MAX) by (nonlinear_arith)
            requires
                r <= 0xFFFF_FFFFu128,
                f <= 0xFFFF_FFFFu128,
                1 <= s <= 0xFFFF_FFFF_FFFF_FFFFu128,
        ;
    }
    if f < r / (2 * s) {
        return 0;
    }
    if f > (r * (s - 1)) / (2 * s) {
        return size / 2;
    }
    let rounded = (2 * s * f + r) / (2 * r);
    proof {
        lemma_round_within_half(f as int, s as int, r as int);
    }
    rounded as usize
}

/// Maps a bin index to the frequency at its centre.
pub fn frequency_for(index: usize, size: usize, rate: u32) -> (frequency: u32)
    requires
        size >= 1,
        rate >= 1,
    ensures
        frequency == spec_frequency_for(index as int, size as int, rate as int),
        frequency <= rate,
{
    let i = index as u128;
    let s = size as u128;
    let r = rate as u128;
    proof {
        assert(2 * r * (2 * s - 1) + 4 * s <= u128::MAX) by (nonlinear_arith)
            requires
                r <= 0xFFFF_FFFFu128,
                1 <= s <= 0xFFFF_FFFF_FFFF_FFFFu128,
        ;
        assert(i * r <= u128::MAX) by (nonlinear_arith)
            requires
                r <= 0xFFFF_FFFFu128,
                i <= 0xFFFF_FFFF_FFFF_FFFFu128,
        ;
    }
    if index == 0 {
        let v = (2 * r + 4 * s) / (8 * s);
        proof {
            assert(2 * r + 4 * s <= 8 * s * r) by (nonlinear_arith)
                requires
                    r >= 1,
                    s >= 1,
            ;
            lemma_multiply_divide_le(2 * r as int + 4 * s as int, 8 * s as int, r as int);
        }
        return v as u32;
    }
    if index >= size / 2 {
        let v = (2 * r * (2 * s - 1) + 4 * s) / (8 * s);
        proof {
            assert(2 * r * (2 * s - 1) + 4 * s <= 8 * s * r) by (nonlinear_arith)
                requires
                    r >= 1,
                    s >= 1,
            ;
            lemma_multiply_divide_le(
                2 * (r as int) * (2 * (s as int) - 1) + 4 * (s as int),
                8 * s as int,
                r as int,
            );
        }
        return v as u32;
    }
    let v = (i * r) / s;
    proof {
        assert(i * r <= s * r) by (nonlinear_arith)
            requires
                i <= s,
                r >= 0,
        ;
        lemma_multiply_divide_le(i as int * r as int, s as int, r as int);
    }
    v as u32
}

} // verus!
