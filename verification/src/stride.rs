//! Strided views: non-owning descriptions of regularly spaced elements.
//!
//! A [`Stride`] names `length` logical elements of a buffer, the `i`-th one
//! living at physical index `offset + i * step`.  The transform engines never
//! touch a buffer except through such a view, and the two kinds of split
//! (`split_at` and `decimate`) are the only way to obtain two views into the
//! same buffer.  The lemmas in this module prove that sibling views produced
//! by a split never share a physical index, which is what lets the recursive
//! combination step write through both halves of an output view.

use vstd::prelude::*;

verus! {

/// A view of `length` logical elements located at `offset + i * step` for
/// `i` in `0 .. length`.  It owns nothing; the buffer travels separately.
#[derive(Clone, Copy, PartialEq, Eq, Structural, Debug)]
pub struct Stride {
    /// Physical index of the first logical element.
    pub offset: usize,
    /// Number of logical elements.
    pub length: usize,
    /// Physical distance between consecutive logical elements.
    pub step: usize,
}

impl Stride {
    /// The physical buffer index of logical element `i`.
    pub open spec fn pos(self, i: int) -> int {
        self.offset + i * self.step
    }

    /// Whether physical index `j` is one of this view's elements.
    pub open spec fn covers(self, j: int) -> bool {
        exists|i: int| 0 <= i < self.length && j == self.pos(i)
    }

    /// Well-formedness for a buffer of `buffer_len` elements: the step is
    /// positive and every logical element lies inside the buffer.
    pub open spec fn wf(self, buffer_len: int) -> bool {
        &&& self.step >= 1
        &&& forall|i: int| 0 <= i < self.length ==> self.pos(i) < buffer_len
    }

    /// The front half of a contiguous split at `at`.
    pub open spec fn front(self, at: int) -> Stride {
        Stride { offset: self.offset, length: at as usize, step: self.step }
    }

    /// The back half of a contiguous split at `at`.
    pub open spec fn back(self, at: int) -> Stride {
        Stride {
            offset: (self.offset + at * self.step) as usize,
            length: (self.length - at) as usize,
            step: self.step,
        }
    }

    /// The even-indexed elements of an alternating split.
    pub open spec fn evens(self) -> Stride {
        Stride {
            offset: self.offset,
            length: (self.length / 2) as usize,
            step: (2 * self.step) as usize,
        }
    }

    /// The odd-indexed elements of an alternating split.
    pub open spec fn odds(self) -> Stride {
        Stride {
            offset: (self.offset + self.step) as usize,
            length: (self.length / 2) as usize,
            step: (2 * self.step) as usize,
        }
    }

    /// The machine bounds under which a contiguous split at `at` computes
    /// physical indices without overflow.
    pub open spec fn split_fits(self, at: int) -> bool {
        self.pos(at) <= usize::MAX
    }

    /// The machine bounds under which an alternating split computes physical
    /// indices without overflow.
    pub open spec fn decimate_fits(self) -> bool {
        &&& self.offset + self.step <= usize::MAX
        &&& 2 * self.step <= usize::MAX
    }

    /// A contiguous view over the first `length` elements of a buffer.
    pub fn full(length: usize) -> (v: Stride)
        ensures
            v == (Stride { offset: 0usize, length, step: 1usize }),
            forall|len: int| length <= len ==> v.wf(len),
    {
        let v = Stride { offset: 0, length, step: 1 };
        proof {
            assert forall|len: int| length <= len implies v.wf(len) by {
                assert forall|i: int| 0 <= i < v.length implies v.pos(i) < len by {
                    assert(i * 1 == i);
                }
            }
        }
        v
    }

    /// The physical index of logical element `i`.
    pub fn position(self, i: usize) -> (j: usize)
        requires
            i < self.length,
            self.pos(i as int) <= usize::MAX,
        ensures
            j == self.pos(i as int),
    {
        proof {
            assert(i as int * self.step as int >= 0) by (nonlinear_arith);
        }
        self.offset + i * self.step
    }

    /// Divides the view into `[0, at)` and `[at, length)`.
    pub fn split_at(self, at: usize) -> (halves: (Stride, Stride))
        requires
            at <= self.length,
            self.pos(at as int) <= usize::MAX,
        ensures
            halves.0 == self.front(at as int),
            halves.1 == self.back(at as int),
    {
        proof {
            assert(at as int * self.step as int >= 0) by (nonlinear_arith);
        }
        let left = Stride { offset: self.offset, length: at, step: self.step };
        let right = Stride {
            offset: self.offset + at * self.step,
            length: self.length - at,
            step: self.step,
        };
        (left, right)
    }

    /// Divides the view into its even-indexed and odd-indexed elements, each
    /// with doubled step.
    pub fn decimate(self) -> (parts: (Stride, Stride))
        requires
            self.length % 2 == 0,
            self.length >= 2,
            self.pos(1) <= usize::MAX,
            2 * self.step <= usize::MAX,
        ensures
            parts.0 == self.evens(),
            parts.1 == self.odds(),
    {
        proof {
            assert(1 * self.step as int == self.step as int);
        }
        let evens = Stride { offset: self.offset, length: self.length / 2, step: 2 * self.step };
        let odds = Stride {
            offset: self.offset + self.step,
            length: self.length / 2,
            step: 2 * self.step,
        };
        (evens, odds)
    }
}

/// Both halves of a contiguous split stay inside the parent view.
pub proof fn lemma_split_at_in_parent(v: Stride, at: int)
    requires
        0 <= at <= v.length,
        v.split_fits(at),
    ensures
        forall|i: int| 0 <= i < at ==> v.front(at).pos(i) == v.pos(i),
        forall|i: int| 0 <= i < v.length - at ==> v.back(at).pos(i) == v.pos(at + i),
{
    assert forall|i: int| 0 <= i < v.length - at implies v.back(at).pos(i) == v.pos(at + i) by {
        assert(at * v.step + i * v.step == (at + i) * v.step) by (nonlinear_arith);
    }
}

/// Both parts of an alternating split stay inside the parent view.
pub proof fn lemma_decimate_in_parent(v: Stride)
    requires
        v.decimate_fits(),
    ensures
        forall|i: int| 0 <= i < v.length / 2 ==> v.evens().pos(i) == v.pos(2 * i),
        forall|i: int| 0 <= i < v.length / 2 ==> v.odds().pos(i) == v.pos(2 * i + 1),
{
    assert forall|i: int| 0 <= i < v.length / 2 implies v.evens().pos(i) == v.pos(2 * i) by {
        assert(i * (2 * v.step) == (2 * i) * v.step) by (nonlinear_arith);
    }
    assert forall|i: int| 0 <= i < v.length / 2 implies v.odds().pos(i) == v.pos(2 * i + 1) by {
        assert(v.step + i * (2 * v.step) == (2 * i + 1) * v.step) by (nonlinear_arith);
    }
}

/// A view maps distinct logical indices to distinct physical indices.
pub proof fn lemma_pos_injective(v: Stride, i: int, j: int)
    requires
        v.step >= 1,
        i != j,
    ensures
        v.pos(i) != v.pos(j),
{
    assert(i * v.step != j * v.step) by (nonlinear_arith)
        requires
            v.step >= 1,
            i != j,
    ;
}

/// The two views produced by a contiguous split never share a physical index.
pub proof fn lemma_split_at_disjoint(v: Stride, at: int)
    requires
        v.step >= 1,
        0 <= at <= v.length,
        v.split_fits(at),
    ensures
        forall|i: int, j: int|
            0 <= i < v.front(at).length && 0 <= j < v.back(at).length ==> v.front(at).pos(i)
                != v.back(at).pos(j),
{
    lemma_split_at_in_parent(v, at);
    assert forall|i: int, j: int|
        0 <= i < v.front(at).length && 0 <= j < v.back(at).length implies v.front(at).pos(i)
        != v.back(at).pos(j) by {
        lemma_pos_injective(v, i, at + j);
    }
}

/// The two views produced by an alternating split never share a physical
/// index: even and odd logical positions of the parent cannot coincide.
pub proof fn lemma_decimate_disjoint(v: Stride)
    requires
        v.step >= 1,
        v.decimate_fits(),
    ensures
        forall|i: int, j: int|
            0 <= i < v.evens().length && 0 <= j < v.odds().length ==> v.evens().pos(i)
                != v.odds().pos(j),
{
    lemma_decimate_in_parent(v);
    assert forall|i: int, j: int|
        0 <= i < v.evens().length && 0 <= j < v.odds().length implies v.evens().pos(i)
        != v.odds().pos(j) by {
        lemma_pos_injective(v, 2 * i, 2 * j + 1);
    }
}

/// Writing through one part of an alternating split never affects what is
/// read through the other part.
pub proof fn lemma_decimate_write_read<T>(v: Stride, buffer: Seq<T>, i: int, x: T, j: int)
    requires
        v.step >= 1,
        v.decimate_fits(),
        0 <= i < v.evens().length,
        0 <= j < v.odds().length,
        0 <= v.evens().pos(i) < buffer.len(),
        0 <= v.odds().pos(j) < buffer.len(),
    ensures
        buffer.update(v.evens().pos(i), x)[v.odds().pos(j)] == buffer[v.odds().pos(j)],
        buffer.update(v.odds().pos(j), x)[v.evens().pos(i)] == buffer[v.evens().pos(i)],
{
    lemma_decimate_disjoint(v);
}

/// Every element of either half of a contiguous split is an element of the
/// parent view.
pub proof fn lemma_split_at_covers(v: Stride, at: int, j: int)
    requires
        0 <= at <= v.length,
        v.split_fits(at),
        v.front(at).covers(j) || v.back(at).covers(j),
    ensures
        v.covers(j),
{
    lemma_split_at_in_parent(v, at);
    if v.front(at).covers(j) {
        let i = choose|i: int| 0 <= i < v.front(at).length && j == v.front(at).pos(i);
        assert(j == v.pos(i));
    } else {
        let i = choose|i: int| 0 <= i < v.back(at).length && j == v.back(at).pos(i);
        assert(j == v.pos(at + i));
    }
}

/// Every element of either part of an alternating split is an element of the
/// parent view.
pub proof fn lemma_decimate_covers(v: Stride, j: int)
    requires
        v.decimate_fits(),
        v.evens().covers(j) || v.odds().covers(j),
    ensures
        v.covers(j),
{
    lemma_decimate_in_parent(v);
    if v.evens().covers(j) {
        let i = choose|i: int| 0 <= i < v.evens().length && j == v.evens().pos(i);
        assert(j == v.pos(2 * i));
    } else {
        let i = choose|i: int| 0 <= i < v.odds().length && j == v.odds().pos(i);
        assert(j == v.pos(2 * i + 1));
    }
}

/// Conversely, every element of the parent view belongs to one half of a
/// contiguous split: the split partitions the view.
pub proof fn lemma_split_at_complete(v: Stride, at: int, j: int)
    requires
        0 <= at <= v.length,
        v.split_fits(at),
        v.covers(j),
    ensures
        v.front(at).covers(j) || v.back(at).covers(j),
{
    lemma_split_at_in_parent(v, at);
    let i = choose|i: int| 0 <= i < v.length && j == v.pos(i);
    if i < at {
        assert(j == v.front(at).pos(i));
    } else {
        assert(j == v.back(at).pos(i - at));
    }
}

/// Conversely, every element of the parent view belongs to one part of an
/// alternating split: the split partitions the view.
pub proof fn lemma_decimate_complete(v: Stride, j: int)
    requires
        v.length % 2 == 0,
        v.decimate_fits(),
        v.covers(j),
    ensures
        v.evens().covers(j) || v.odds().covers(j),
{
    lemma_decimate_in_parent(v);
    let i = choose|i: int| 0 <= i < v.length && j == v.pos(i);
    if i % 2 == 0 {
        assert(j == v.evens().pos(i / 2));
    } else {
        assert(j == v.odds().pos((i - 1) / 2));
    }
}

/// Splitting keeps both halves inside any buffer the parent fits in.
pub proof fn lemma_split_at_wf(v: Stride, at: int, buffer_len: int)
    requires
        v.wf(buffer_len),
        0 <= at <= v.length,
        v.split_fits(at),
    ensures
        v.front(at).wf(buffer_len),
        v.back(at).wf(buffer_len),
{
    lemma_split_at_in_parent(v, at);
    assert forall|i: int| 0 <= i < v.front(at).length implies v.front(at).pos(i) < buffer_len by {
        assert(v.pos(i) < buffer_len);
    }
    assert forall|i: int| 0 <= i < v.back(at).length implies v.back(at).pos(i) < buffer_len by {
        assert(v.pos(at + i) < buffer_len);
    }
}

/// Decimation keeps both parts inside any buffer the parent fits in.
pub proof fn lemma_decimate_wf(v: Stride, buffer_len: int)
    requires
        v.wf(buffer_len),
        v.decimate_fits(),
    ensures
        v.evens().wf(buffer_len),
        v.odds().wf(buffer_len),
{
    lemma_decimate_in_parent(v);
    assert forall|i: int| 0 <= i < v.evens().length implies v.evens().pos(i) < buffer_len by {
        assert(v.pos(2 * i) < buffer_len);
    }
    assert forall|i: int| 0 <= i < v.odds().length implies v.odds().pos(i) < buffer_len by {
        assert(v.pos(2 * i + 1) < buffer_len);
    }
}

/// Reads the element at logical index `i` of view `v` over `buffer`.
pub fn element<T>(buffer: &Vec<T>, v: Stride, i: usize) -> (r: &T)
    requires
        v.wf(buffer@.len() as int),
        i < v.length,
    ensures
        *r == buffer@[v.pos(i as int)],
{
    let n = buffer.len();
    proof {
        assert(v.pos(i as int) < n as int);
    }
    let j = v.position(i);
    &buffer[j]
}

/// Replaces the element at logical index `i` of view `v` over `buffer`.
pub fn store<T>(buffer: &mut Vec<T>, v: Stride, i: usize, value: T)
    requires
        v.wf(old(buffer)@.len() as int),
        i < v.length,
    ensures
        final(buffer)@ == old(buffer)@.update(v.pos(i as int), value),
{
    let n = buffer.len();
    proof {
        assert(v.pos(i as int) < n as int);
    }
    let j = v.position(i);
    buffer.set(j, value);
}

} // verus!
