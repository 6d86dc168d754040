//! Fourier transforms over caller-supplied buffers.
//!
//! The transform engines are generic over the [`Complex`] capability trait,
//! so one process picks its working precision by the type it instantiates
//! them with, and they operate through [`Stride`] descriptors, which lets
//! them work over non-contiguous element layouts without copying.
//!
//! Power-of-two lengths go through the Cooley-Tukey engine; every other
//! length goes through the Bluestein engine.  Neither engine scales its
//! result: the inverse entry points here divide by the length exactly once.

use vstd::prelude::*;

mod complex;

/// Strided views over caller-owned buffers.
pub mod stride;

/// Various algorithms to compute the fourier transform.
pub mod transform;

/// Spectrum computations.
pub mod spectrum;

/// Window function application.
pub mod window;

pub use complex::Complex;
pub use stride::Stride;

use transform::{bluestein, cooley_tukey, is_pow2, is_power_of_two};

verus! {

/// The lengths the dispatcher accepts: any power of two, and otherwise any
/// length whose Bluestein convolution scratch (under four times the length)
/// still fits in a machine-sized buffer.
pub open spec fn admissible_length(len: int) -> bool {
    is_pow2(len as nat) || 4 * len <= usize::MAX
}

/// Fills a fresh buffer with `length` zero elements.
#[verifier::loop_isolation(false)]
pub(crate) fn zeroes<C: Complex>(length: usize) -> (output: Vec<C>)
    ensures
        output@.len() == length,
{
    let mut output: Vec<C> = Vec::new();
    let mut i: usize = 0;
    while i < length
        invariant
            i <= length,
            output@.len() == i,
        decreases length - i,
    {
        output.push(C::zero());
        i = i + 1;
    }
    output
}

/// Applies a forward fourier transform to the given input and returns a
/// vector with the result, unscaled.
pub fn forward<C: Complex>(input: &Vec<C>) -> (output: Vec<C>)
    requires
        admissible_length(input@.len() as int),
    ensures
        output@.len() == input@.len(),
{
    let mut output: Vec<C> = zeroes(input.len());
    forward_in(input, &mut output);
    output
}

/// Applies a forward fourier transform to the given input and puts it into
/// the given output, unscaled.  The two buffers must have the same length.
pub fn forward_in<C: Complex>(input: &Vec<C>, output: &mut Vec<C>)
    requires
        input@.len() == old(output)@.len(),
        admissible_length(input@.len() as int),
    ensures
        final(output)@.len() == old(output)@.len(),
{
    let n = input.len();
    let iv = Stride::full(n);
    let ov = Stride::full(n);
    proof {
        assert(iv.length * iv.step == n);
    }
    if is_power_of_two(n) {
        cooley_tukey::forward(input, iv, output, ov);
    } else {
        bluestein::forward(input, iv, output, ov);
    }
}

/// Applies an inverse fourier transform to the given input and returns a
/// vector with the result, every element divided by the length once.
pub fn inverse<C: Complex>(input: &Vec<C>) -> (output: Vec<C>)
    requires
        admissible_length(input@.len() as int),
    ensures
        output@.len() == input@.len(),
{
    let mut output: Vec<C> = zeroes(input.len());
    inverse_in(input, &mut output);
    output
}

/// Applies an inverse fourier transform to the given input and puts it into
/// the given output, dividing every element by the length exactly once.  The
/// two buffers must have the same length.
#[verifier::loop_isolation(false)]
pub fn inverse_in<C: Complex>(input: &Vec<C>, output: &mut Vec<C>)
    requires
        input@.len() == old(output)@.len(),
        admissible_length(input@.len() as int),
    ensures
        final(output)@.len() == old(output)@.len(),
{
    let n = input.len();
    let iv = Stride::full(n);
    let ov = Stride::full(n);
    proof {
        assert(iv.length * iv.step == n);
    }
    if is_power_of_two(n) {
        cooley_tukey::inverse(input, iv, output, ov);
    } else {
        bluestein::inverse(input, iv, output, ov);
    }

    // the engines do no scaling internally
    let mut i: usize = 0;
    while i < n
        invariant
            i <= n,
            output@.len() == n,
        decreases n - i,
    {
        let v = output[i].unscale(n as u64);
        output.set(i, v);
        i = i + 1;
    }
}

} // verus!
