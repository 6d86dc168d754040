//! Window range arguments.

use vstd::prelude::*;

verus! {

/// Declares `core::ops::RangeTo`, which vstd leaves unspecified; its one
/// field `end` is public, so nothing further is assumed of it.
#[verifier::external_type_specification]
#[verifier::reject_recursive_types(Idx)]
pub struct ExRangeTo<Idx>(core::ops::RangeTo<Idx>);

/// Declares `core::ops::RangeFrom`, which vstd leaves unspecified; its one
/// field `start` is public, so nothing further is assumed of it.
#[verifier::external_type_specification]
#[verifier::reject_recursive_types(Idx)]
pub struct ExRangeFrom<Idx>(core::ops::RangeFrom<Idx>);

/// Declares `core::ops::RangeFull`, the fieldless full-range marker, which
/// vstd leaves unspecified.
#[verifier::external_type_specification]
pub struct ExRangeFull(core::ops::RangeFull);

/// The first sample a range with the given optional start covers.
pub open spec fn resolve_start(start: Option<u32>) -> int {
    match start {
        Option::Some(s) => s as int,
        Option::None => 0,
    }
}

/// The last sample bound of a range with the given optional end, for a
/// buffer of `size` samples.
pub open spec fn resolve_end(end: Option<u32>, size: int) -> int {
    match end {
        Option::Some(e) => e as int,
        Option::None => size,
    }
}

/// Trait for a window range argument: an optional first and last sample of
/// the run the window covers.
pub trait Range: Clone {
    /// The start of the range, if any, as a spec value.
    spec fn spec_start(&self) -> Option<u32>;

    /// The end of the range, if any, as a spec value.
    spec fn spec_end(&self) -> Option<u32>;

    /// The start of the range, if any.
    fn start(&self) -> (r: Option<u32>)
        ensures
            r == self.spec_start(),
    ;

    /// The end of the range, if any.
    fn end(&self) -> (r: Option<u32>)
        ensures
            r == self.spec_end(),
    ;

    /// The total width of the range.
    fn width(&self, size: usize) -> (w: u32)
        requires
            size <= u32::MAX,
            resolve_start(self.spec_start()) <= resolve_end(self.spec_end(), size as int),
            resolve_end(self.spec_end(), size as int) <= u32::MAX,
        ensures
            w == resolve_end(self.spec_end(), size as int) - resolve_start(self.spec_start()),
    {
        let e: u32 = match self.end() {
            Option::Some(e) => e,
            Option::None => size as u32,
        };
        let s: u32 = match self.start() {
            Option::Some(s) => s,
            Option::None => 0,
        };
        e - s
    }

    /// Checks if the range is valid for the given size.
    fn is_valid(&self, size: usize) -> (ok: bool)
        ensures
            ok == match self.spec_end() {
                Option::Some(e) => e as int <= size as int,
                Option::None => true,
            },
    {
        match self.end() {
            Option::Some(e) => e as usize <= size,
            Option::None => true,
        }
    }
}

impl Range for core::ops::Range<u32> {
    open spec fn spec_start(&self) -> Option<u32> {
        Option::Some(self.start)
    }

    open spec fn spec_end(&self) -> Option<u32> {
        Option::Some(self.end)
    }

    fn start(&self) -> Option<u32> {
        Option::Some(self.start)
    }

    fn end(&self) -> Option<u32> {
        Option::Some(self.end)
    }
}

impl Range for core::ops::RangeTo<u32> {
    open spec fn spec_start(&self) -> Option<u32> {
        Option::None
    }

    open spec fn spec_end(&self) -> Option<u32> {
        Option::Some(self.end)
    }

    fn start(&self) -> Option<u32> {
        Option::None
    }

    fn end(&self) -> Option<u32> {
        Option::Some(self.end)
    }
}

impl Range for core::ops::RangeFrom<u32> {
    open spec fn spec_start(&self) -> Option<u32> {
        Option::Some(self.start)
    }

    open spec fn spec_end(&self) -> Option<u32> {
        Option::None
    }

    fn start(&self) -> Option<u32> {
        Option::Some(self.start)
    }

    fn end(&self) -> Option<u32> {
        Option::None
    }
}

impl Range for core::ops::RangeFull {
    open spec fn spec_start(&self) -> Option<u32> {
        Option::None
    }

    open spec fn spec_end(&self) -> Option<u32> {
        Option::None
    }

    fn start(&self) -> Option<u32> {
        Option::None
    }

    fn end(&self) -> Option<u32> {
        Option::None
    }
}

} // verus!
