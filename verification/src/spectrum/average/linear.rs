//! Linear band averaging: equally wide groups of bins.

use vstd::prelude::*;

use super::Average;
use crate::complex::Complex;
use vstd::arithmetic::div_mod::lemma_fundamental_div_mod;
use vstd::arithmetic::mul::{lemma_mul_inequality, lemma_mul_is_distributive_add_other_way};

verus! {

/// Linear average: the argument is the number of bands, each averaging an
/// equally wide run of bins.
pub struct Linear;

impl Average for Linear {
    type Arguments = usize;

    /// Any number of bands can be asked for.
    open spec fn args_ok(args: &usize) -> bool {
        true
    }

    /// As many bands as asked for.
    open spec fn spec_size(args: &usize) -> int {
        *args as int
    }

    /// At least one band, no more than half the bins, and an output with
    /// exactly one element per band.
    open spec fn permits(args: &usize, input_len: int, output_len: int) -> bool {
        &&& 1 <= *args
        &&& *args <= input_len / 2
        &&& output_len == *args as int
    }

    fn size(args: &usize) -> usize {
        *args
    }

    #[verifier::loop_isolation(false)]
    fn compute<C: Complex>(args: &usize, input: &Vec<C>, output: &mut Vec<C>) {
        let amount = *args;
        let width = input.len() / amount;
        let mut i: usize = 0;
        while i < amount
            invariant
                i <= amount,
                output@.len() == old(output)@.len(),
            decreases amount - i,
        {
            proof {
                lemma_fundamental_div_mod(input@.len() as int, amount as int);
                lemma_mul_inequality(i as int + 1, amount as int, width as int);
                lemma_mul_is_distributive_add_other_way(width as int, i as int, 1);
                assert(i * width + width <= input@.len());
            }
            let mut sum = C::zero();
            let mut j: usize = 0;
            while j < width && j + i * width < output.len()
                invariant
                    j <= width,
                    i < amount,
                    output@.len() == old(output)@.len(),
                decreases width - j,
            {
                sum = sum.add(&input[j + i * width]);
                j = j + 1;
            }
            output.set(i, sum.unscale(j as u64));
            i = i + 1;
        }
    }
}

} // verus!
