//! Capability trait for the values the transform engines compute with.

use vstd::prelude::*;

verus! {

/// A complex number at the caller's working precision.
///
/// The engines never look inside a value: they move values between buffers
/// and combine them with the operations below.  An implementation chooses the
/// representation — typically a pair of machine floats, one width per
/// process — and gives each operation its usual complex-arithmetic meaning.
/// Angles are handed over as exact integer ratios of π so that an
/// implementation computes each transcendental itself, from plain values.
pub trait Complex: Sized + Clone {
    /// The additive identity, `0 + 0i`.
    fn zero() -> Self;

    /// The multiplicative identity, `1 + 0i`.
    fn one() -> Self;

    /// The point of the unit circle at angle `π · num / den` radians, that is
    /// `exp(i · π · num / den)`.
    fn unit(num: i64, den: u64) -> Self;

    /// A real value `num / den`, with zero imaginary part.
    fn ratio(num: i64, den: u64) -> Self;

    /// Componentwise sum.
    fn add(&self, other: &Self) -> Self;

    /// Componentwise difference.
    fn sub(&self, other: &Self) -> Self;

    /// The complex product `(ac − bd) + (ad + bc)i`.
    fn mul(&self, other: &Self) -> Self;

    /// The complex quotient `((ac + bd) + (bc − ad)i) / (c² + d²)`.
    fn div(&self, other: &Self) -> Self;

    /// The complex conjugate.
    fn conj(&self) -> Self;

    /// Both components multiplied by the integer `k`.
    fn scale(&self, k: u64) -> Self;

    /// Both components divided by the integer `k`.
    fn unscale(&self, k: u64) -> Self;

    /// The magnitude `√(re² + im²)`, as a value with zero imaginary part.
    fn magnitude(&self) -> Self;
}

} // verus!
