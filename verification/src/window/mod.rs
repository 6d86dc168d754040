//! Window function application.

use vstd::prelude::*;

mod range;

pub use range::Range;
pub use range::{resolve_end, resolve_start};

mod window;

pub use window::Window;

mod rectangular;

pub use rectangular::Rectangular;

mod triangular;

pub use triangular::Triangular;

mod bartlett;

pub use bartlett::Bartlett;

mod hamming;

pub use hamming::Hamming;

mod hann;

pub use hann::Hann;

mod blackman;

pub use blackman::Blackman;

mod nuttall;

pub use nuttall::Nuttall;

mod parzen;

pub use parzen::Parzen;

mod welch;

pub use welch::Welch;

use crate::complex::Complex;
use crate::zeroes;

verus! {

/// A window function, as the coefficient each sample is scaled by.
pub trait Function<S: Complex> {
    /// The window coefficient at sample `n` of a window `width` samples
    /// wide.
    fn compute(n: usize, width: usize) -> S
        requires
            n <= u32::MAX,
            width <= u32::MAX,
    ;
}

/// The point of the unit circle at angle `2π · k · n / (width − 1)`, the
/// `k`-th harmonic the cosine-family windows are built from.  A zero width
/// turns the denominator negative, which reflects the angle instead.
pub(crate) fn harmonic<S: Complex>(k: i64, n: usize, width: usize) -> S
    requires
        0 <= k <= 3,
        n <= u32::MAX,
        width <= u32::MAX,
{
    proof {
        assert((2 * k) * (n as i64) <= i64::MAX) by (nonlinear_arith)
            requires
                0 <= 2 * k <= 6,
                0 <= n <= 0xFFFF_FFFFi64,
        ;
    }
    let num: i64 = 2 * k * (n as i64);
    if width >= 1 {
        S::unit(num, (width - 1) as u64)
    } else {
        S::unit(-num, 1)
    }
}

/// The cosine of the `k`-th harmonic angle, as a value with zero imaginary
/// part: `cos θ = (e^{iθ} + e^{−iθ}) / 2`.
pub(crate) fn cosine<S: Complex>(k: i64, n: usize, width: usize) -> S
    requires
        0 <= k <= 3,
        n <= u32::MAX,
        width <= u32::MAX,
{
    let u = harmonic::<S>(k, n, width);
    u.add(&u.conj()).unscale(2)
}

/// Whether a range argument is ordered for a buffer of `size` samples.
pub open spec fn ordered<R: Range>(range: &R, size: int) -> bool {
    resolve_start(range.spec_start()) <= resolve_end(range.spec_end(), size)
}

/// Computes one coefficient of the given window function.
pub fn compute<F: Function<S>, S: Complex>(index: usize, width: usize) -> S
    requires
        index <= u32::MAX,
        width <= u32::MAX,
{
    F::compute(index, width)
}

/// Applies the window to the samples of `input` that the range covers and
/// returns the result as a fresh buffer of the same length.
pub fn apply<F: Function<S>, S: Complex, R: Range>(range: R, input: &Vec<S>) -> (output: Vec<S>)
    requires
        input@.len() <= u32::MAX,
        ordered(&range, input@.len() as int),
    ensures
        output@.len() == input@.len(),
{
    let mut output: Vec<S> = zeroes(input.len());
    apply_in::<F, S, R>(range, input, &mut output);
    output
}

/// Applies the window to the samples of `input` that the range covers,
/// writing them into `output`; samples outside the range are left alone.
#[verifier::loop_isolation(false)]
pub fn apply_in<F: Function<S>, S: Complex, R: Range>(
    range: R,
    input: &Vec<S>,
    output: &mut Vec<S>,
)
    requires
        input@.len() == old(output)@.len(),
        input@.len() <= u32::MAX,
        ordered(&range, input@.len() as int),
    ensures
        final(output)@.len() == old(output)@.len(),
        forall|j: int|
            0 <= j < old(output)@.len() && !(resolve_start(range.spec_start()) <= j
                <= resolve_end(range.spec_end(), input@.len() as int)) ==> final(output)@[j]
                == old(output)@[j],
{
    let length = input.len();
    let w = range.width(length);
    let s: u32 = match range.start() {
        Option::Some(v) => v,
        Option::None => 0,
    };
    let e: u32 = match range.end() {
        Option::Some(v) => v,
        Option::None => length as u32,
    };
    let mut i: usize = 0;
    while i < length
        invariant
            i <= length,
            output@.len() == old(output)@.len(),
            forall|j: int|
                0 <= j < output@.len() && !(s as int <= j <= e as int) ==> output@[j] == old(
                    output,
                )@[j],
        decreases length - i,
    {
        if i >= s as usize && i <= e as usize {
            let v = input[i].mul(&F::compute(i, w as usize));
            output.set(i, v);
        }
        i = i + 1;
    }
}

/// Applies the window in place to the samples of `data` that the range
/// covers; samples outside the range are left alone.
#[verifier::loop_isolation(false)]
pub fn apply_on<F: Function<S>, S: Complex, R: Range>(range: R, data: &mut Vec<S>)
    requires
        old(data)@.len() <= u32::MAX,
        ordered(&range, old(data)@.len() as int),
    ensures
        final(data)@.len() == old(data)@.len(),
        forall|j: int|
            0 <= j < old(data)@.len() && !(resolve_start(range.spec_start()) <= j <= resolve_end(
                range.spec_end(),
                old(data)@.len() as int,
            )) ==> final(data)@[j] == old(data)@[j],
{
    let length = data.len();
    let w = range.width(length);
    let s: u32 = match range.start() {
        Option::Some(v) => v,
        Option::None => 0,
    };
    let e: u32 = match range.end() {
        Option::Some(v) => v,
        Option::None => length as u32,
    };
    let mut i: usize = 0;
    while i < length
        invariant
            i <= length,
            data@.len() == old(data)@.len(),
            forall|j: int|
                0 <= j < data@.len() && !(s as int <= j <= e as int) ==> data@[j] == old(
                    data,
                )@[j],
        decreases length - i,
    {
        if i >= s as usize && i <= e as usize {
            let v = data[i].mul(&F::compute(i, w as usize));
            data.set(i, v);
        }
        i = i + 1;
    }
}

/// Precomputes the window's coefficients over the given range into a
/// [`Window`], to be applied many times.
#[verifier::loop_isolation(false)]
pub fn generate<F: Function<S>, S: Complex, R: Range>(range: R, size: usize) -> (w: Window<S>)
    requires
        size <= u32::MAX,
        ordered(&range, size as int),
    ensures
        w.spec_len() == size,
        w.spec_start() == resolve_start(range.spec_start()),
        w.spec_end() == resolve_end(range.spec_end(), size as int),
{
    let width = range.width(size);
    let s: u32 = match range.start() {
        Option::Some(v) => v,
        Option::None => 0,
    };
    let e: u32 = match range.end() {
        Option::Some(v) => v,
        Option::None => size as u32,
    };
    let mut buffer: Vec<S> = zeroes(size);
    let mut i: usize = 0;
    while i < size
        invariant
            i <= size,
            buffer@.len() == size,
        decreases size - i,
    {
        if i >= s as usize && i <= e as usize {
            buffer.set(i, F::compute(i, width as usize));
        }
        i = i + 1;
    }
    Window::from_parts(s, e, buffer)
}

} // verus!
