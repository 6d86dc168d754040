//! A cached window: coefficients precomputed once over a fixed range.

use vstd::prelude::*;

use super::range::{resolve_end, resolve_start, Range};
use crate::complex::Complex;
use crate::zeroes;

verus! {

/// Represents a cached window function on a range and window size.
pub struct Window<S> {
    range_start: u32,
    range_end: u32,
    buffer: Vec<S>,
}

impl<S: Complex> Window<S> {
    /// The number of cached coefficients.
    pub closed spec fn spec_len(&self) -> int {
        self.buffer@.len() as int
    }

    /// The first sample the window covers.
    pub closed spec fn spec_start(&self) -> int {
        self.range_start as int
    }

    /// The last sample the window covers.
    pub closed spec fn spec_end(&self) -> int {
        self.range_end as int
    }

    /// The cached coefficients.
    pub closed spec fn spec_coefficients(&self) -> Seq<S> {
        self.buffer@
    }

    /// Builds a window over the given range with zeroed coefficients.
    pub fn new<R: Range>(range: &R, size: usize) -> (w: Window<S>)
        requires
            size <= u32::MAX,
        ensures
            w.spec_len() == size,
            w.spec_start() == resolve_start(range.spec_start()),
            w.spec_end() == resolve_end(range.spec_end(), size as int),
    {
        let s: u32 = match range.start() {
            Option::Some(v) => v,
            Option::None => 0,
        };
        let e: u32 = match range.end() {
            Option::Some(v) => v,
            Option::None => size as u32,
        };
        Window { range_start: s, range_end: e, buffer: zeroes(size) }
    }

    /// Assembles a window from already computed coefficients.
    pub(crate) fn from_parts(start: u32, end: u32, buffer: Vec<S>) -> (w: Window<S>)
        ensures
            w.spec_len() == buffer@.len(),
            w.spec_start() == start,
            w.spec_end() == end,
            w.spec_coefficients() == buffer@,
    {
        Window { range_start: start, range_end: end, buffer }
    }

    /// The number of cached coefficients.
    pub fn len(&self) -> (n: usize)
        ensures
            n == self.spec_len(),
    {
        self.buffer.len()
    }

    /// The cached coefficients.
    pub fn coefficients(&self) -> (r: &Vec<S>)
        ensures
            r@ == self.spec_coefficients(),
    {
        &self.buffer
    }

    /// Applies the cached window on the given input and returns a vector
    /// with the applied result.
    pub fn apply(&self, input: &Vec<S>) -> (output: Vec<S>)
        requires
            input@.len() == self.spec_len(),
        ensures
            output@.len() == input@.len(),
    {
        let mut output: Vec<S> = zeroes(input.len());
        self.apply_in(input, &mut output);
        output
    }

    /// Applies the cached window on the given input putting the result in
    /// the given output; samples outside the window's range are left alone.
    #[verifier::loop_isolation(false)]
    pub fn apply_in(&self, input: &Vec<S>, output: &mut Vec<S>)
        requires
            input@.len() == old(output)@.len(),
            input@.len() == self.spec_len(),
        ensures
            final(output)@.len() == old(output)@.len(),
            forall|j: int|
                0 <= j < old(output)@.len() && !(self.spec_start() <= j <= self.spec_end())
                    ==> final(output)@[j] == old(output)@[j],
    {
        let length = input.len();
        let mut i: usize = 0;
        while i < length
            invariant
                i <= length,
                output@.len() == old(output)@.len(),
                forall|j: int|
                    0 <= j < output@.len() && !(self.spec_start() <= j <= self.spec_end())
                        ==> output@[j] == old(output)@[j],
            decreases length - i,
        {
            if i >= self.range_start as usize && i <= self.range_end as usize {
                let v = input[i].mul(&self.buffer[i]);
                output.set(i, v);
            }
            i = i + 1;
        }
    }

    /// Applies the cached window in-place on the given data; samples outside
    /// the window's range are left alone.
    #[verifier::loop_isolation(false)]
    pub fn apply_on(&self, data: &mut Vec<S>)
        requires
            old(data)@.len() == self.spec_len(),
        ensures
            final(data)@.len() == old(data)@.len(),
            forall|j: int|
                0 <= j < old(data)@.len() && !(self.spec_start() <= j <= self.spec_end())
                    ==> final(data)@[j] == old(data)@[j],
    {
        let length = data.len();
        let mut i: usize = 0;
        while i < length
            invariant
                i <= length,
                data@.len() == old(data)@.len(),
                forall|j: int|
                    0 <= j < data@.len() && !(self.spec_start() <= j <= self.spec_end())
                        ==> data@[j] == old(data)@[j],
            decreases length - i,
        {
            if i >= self.range_start as usize && i <= self.range_end as usize {
                let v = data[i].mul(&self.buffer[i]);
                data.set(i, v);
            }
            i = i + 1;
        }
    }
}

} // verus!
