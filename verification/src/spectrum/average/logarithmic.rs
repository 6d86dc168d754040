//! Logarithmic band averaging: a fixed number of bands per octave.

use vstd::prelude::*;

use super::Average;
use crate::complex::Complex;
use crate::spectrum::{index_for, lemma_index_for_bounded, lemma_index_for_monotone};
use vstd::arithmetic::div_mod::lemma_fundamental_div_mod;
use vstd::arithmetic::mul::{
    lemma_mul_inequality, lemma_mul_is_distributive_add_other_way,
    lemma_mul_is_distributive_sub_other_way,
};

verus! {

/// The number of octaves between a spectrum's Nyquist frequency and the
/// given lower frequency bound: one octave, plus one more for every halving
/// of `nyquist` that stays above `min`.
pub open spec fn spec_octaves(nyquist: nat, min: nat) -> nat
    decreases nyquist,
{
    if nyquist / 2 > min {
        1 + spec_octaves(nyquist / 2, min)
    } else {
        1
    }
}

/// There are never more octaves than the Nyquist frequency itself.
proof fn lemma_octaves_bounded(nyquist: nat, min: nat)
    ensures
        spec_octaves(nyquist, min) <= nyquist + 1,
    decreases nyquist,
{
    if nyquist / 2 > min {
        lemma_octaves_bounded(nyquist / 2, min);
    }
}

/// Logarithmic average: the arguments are the sampling rate, the lowest
/// frequency of interest, and the number of bands per octave.
pub struct Logarithmic;

impl Average for Logarithmic {
    type Arguments = (u32, u32, u32);

    /// The band count must fit the counter the bands are indexed with.
    open spec fn args_ok(args: &(u32, u32, u32)) -> bool {
        spec_octaves((args.0 / 2) as nat, args.1 as nat) * args.2 <= u32::MAX
    }

    /// One band per octave and band-per-octave asked for.
    open spec fn spec_size(args: &(u32, u32, u32)) -> int {
        spec_octaves((args.0 / 2) as nat, args.1 as nat) * args.2
    }

    /// A non-degenerate spectrum and rate, at least one band per octave, and
    /// an output with exactly one element per band.
    open spec fn permits(args: &(u32, u32, u32), input_len: int, output_len: int) -> bool {
        &&& input_len >= 1
        &&& args.0 >= 1
        &&& args.2 >= 1
        &&& output_len == Self::spec_size(args)
    }

    #[verifier::loop_isolation(false)]
    fn size(args: &(u32, u32, u32)) -> usize {
        let (rate, min, bands) = *args;
        let mut nyquist: u32 = rate / 2;
        let mut octaves: u32 = 1;
        proof {
            lemma_octaves_bounded((rate / 2) as nat, min as nat);
        }
        while nyquist / 2 > min
            invariant
                1 <= octaves,
                octaves + spec_octaves(nyquist as nat, min as nat) == 1 + spec_octaves(
                    (rate / 2) as nat,
                    min as nat,
                ),
                spec_octaves(nyquist as nat, min as nat) >= 1,
            decreases nyquist,
        {
            octaves = octaves + 1;
            nyquist = nyquist / 2;
        }
        (octaves * bands) as usize
    }

    #[verifier::loop_isolation(false)]
    fn compute<C: Complex>(args: &(u32, u32, u32), input: &Vec<C>, output: &mut Vec<C>) {
        let (rate, min, bands) = *args;
        let size = input.len();

        // octave edges: edges[k] is the Nyquist frequency halved k times
        let mut edges: Vec<u32> = Vec::new();
        let mut nyquist: u32 = rate / 2;
        let mut octaves: u32 = 1;
        edges.push(nyquist);
        proof {
            lemma_octaves_bounded((rate / 2) as nat, min as nat);
        }
        while nyquist / 2 > min
            invariant
                1 <= octaves,
                octaves + spec_octaves(nyquist as nat, min as nat) == 1 + spec_octaves(
                    (rate / 2) as nat,
                    min as nat,
                ),
                spec_octaves(nyquist as nat, min as nat) >= 1,
                edges@.len() == octaves,
                edges@[octaves - 1] == nyquist,
                forall|k: int| 1 <= k < octaves ==> #[trigger] edges@[k] == edges@[k - 1] / 2,
                forall|k: int| 0 <= k < octaves ==> edges@[k] <= rate / 2,
            decreases nyquist,
        {
            octaves = octaves + 1;
            nyquist = nyquist / 2;
            edges.push(nyquist);
        }

        let mut i: u32 = 0;
        while i < octaves
            invariant
                i <= octaves,
                octaves == spec_octaves((rate / 2) as nat, min as nat),
                edges@.len() == octaves,
                forall|k: int| 1 <= k < octaves ==> #[trigger] edges@[k] == edges@[k - 1] / 2,
                forall|k: int| 0 <= k < octaves ==> edges@[k] <= rate / 2,
                output@.len() == old(output)@.len(),
            decreases octaves - i,
        {
            // each octave spans from its lower edge (zero for the first) up
            // to the next halving edge
            let low: u32 = if i == 0 {
                0
            } else {
                edges[(octaves - i) as usize]
            };
            let hig: u32 = edges[(octaves - i - 1) as usize];
            proof {
                if i >= 1 {
                    assert(edges@[octaves - i] == edges@[octaves - i - 1] / 2);
                }
            }
            let step: u32 = (hig - low) / bands;
            proof {
                lemma_fundamental_div_mod((hig - low) as int, bands as int);
            }
            let mut f: u32 = low;
            let mut j: u32 = 0;
            while j < bands
                invariant
                    j <= bands,
                    i < octaves,
                    f == low + j * step,
                    low + bands * step <= hig,
                    hig <= rate / 2,
                    low <= hig,
                    output@.len() == old(output)@.len(),
                decreases bands - j,
            {
                proof {
                    lemma_mul_inequality(j as int + 1, bands as int, step as int);
                    lemma_mul_is_distributive_add_other_way(step as int, j as int, 1);
                    lemma_mul_inequality(i as int, octaves as int - 1, bands as int);
                    lemma_mul_is_distributive_sub_other_way(bands as int, octaves as int, 1);
                }
                let offset = j + i * bands;
                let lo = index_for(f, size, rate);
                let hi = index_for(f + step, size, rate);
                proof {
                    lemma_index_for_monotone(
                        f as int,
                        f as int + step as int,
                        size as int,
                        rate as int,
                    );
                    lemma_index_for_bounded(f as int + step as int, size as int, rate as int);
                }
                let mut sum = C::zero();
                let mut k: usize = lo;
                while k < hi
                    invariant
                        lo <= k <= hi,
                        hi < input@.len(),
                    decreases hi - k,
                {
                    sum = sum.add(&input[k]);
                    k = k + 1;
                }
                output.set(offset as usize, sum.unscale((hi - lo + 1) as u64));
                f = f + step;
                j = j + 1;
            }
            i = i + 1;
        }
    }
}

} // verus!
