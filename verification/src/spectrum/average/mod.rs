//! Spectrum band averaging.

use vstd::prelude::*;

mod linear;

pub use linear::Linear;

mod logarithmic;

pub use logarithmic::Logarithmic;

use crate::complex::Complex;
use crate::zeroes;

verus! {

/// Trait to implement average algorithms.
pub trait Average {
    /// The additional arguments type.
    type Arguments;

    /// The arguments the algorithm is defined on.
    spec fn args_ok(args: &Self::Arguments) -> bool;

    /// The number of bands the algorithm produces.
    spec fn spec_size(args: &Self::Arguments) -> int;

    /// The buffer lengths `compute` accepts for the given arguments.
    spec fn permits(args: &Self::Arguments, input_len: int, output_len: int) -> bool;

    /// Computes the output size of the algorithm.
    fn size(args: &Self::Arguments) -> (n: usize)
        requires
            Self::args_ok(args),
        ensures
            n as int == Self::spec_size(args),
    ;

    /// Computes the average from the given arguments and input into the
    /// given output.
    fn compute<C: Complex>(args: &Self::Arguments, input: &Vec<C>, output: &mut Vec<C>)
        requires
            Self::args_ok(args),
            Self::permits(args, input@.len() as int, old(output)@.len() as int),
        ensures
            final(output)@.len() == old(output)@.len(),
    ;
}

/// Get the size of the output for the given algorithm.
pub fn size<A: Average>(args: &A::Arguments) -> (n: usize)
    requires
        A::args_ok(args),
    ensures
        n as int == A::spec_size(args),
{
    A::size(args)
}

/// Compute the average of the given input and return a vector with the
/// output.
pub fn compute<A: Average, C: Complex>(args: &A::Arguments, input: &Vec<C>) -> (output: Vec<C>)
    requires
        A::args_ok(args),
        A::permits(args, input@.len() as int, A::spec_size(args)),
    ensures
        output@.len() as int == A::spec_size(args),
{
    let mut output: Vec<C> = zeroes(A::size(args));
    A::compute(args, input, &mut output);
    output
}

/// Compute the average of the given input in the given output.
pub fn compute_in<A: Average, C: Complex>(
    args: &A::Arguments,
    input: &Vec<C>,
    output: &mut Vec<C>,
)
    requires
        A::args_ok(args),
        A::permits(args, input@.len() as int, old(output)@.len() as int),
    ensures
        final(output)@.len() == old(output)@.len(),
{
    A::compute(args, input, output)
}

} // verus!
