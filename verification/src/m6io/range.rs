//! The bounds of an index range, as plain values.

use core::ops::{
    Bound, Range, RangeBounds, RangeFrom, RangeFull, RangeInclusive, RangeTo, RangeToInclusive,
};
use vstd::prelude::*;

verus! {

/// `core::ops::RangeFrom`, a range with a start and no end; its one field
/// is public.
#[verifier::external_type_specification]
#[verifier::reject_recursive_types(Idx)]
pub struct ExRangeFrom<Idx>(RangeFrom<Idx>);

/// `core::ops::RangeTo`, a range with an exclusive end and no start; its
/// one field is public.
#[verifier::external_type_specification]
#[verifier::reject_recursive_types(Idx)]
pub struct ExRangeTo<Idx>(RangeTo<Idx>);

/// `core::ops::RangeToInclusive`, a range with an inclusive end and no start;
/// its one field is public.
#[verifier::external_type_specification]
#[verifier::reject_recursive_types(Idx)]
pub struct ExRangeToInclusive<Idx>(RangeToInclusive<Idx>);

/// `core::ops::RangeFull`, the range without bounds.
#[verifier::external_type_specification]
pub struct ExRangeFull(RangeFull);

/// One end of a range of indices.
#[derive(Clone, Copy, Debug, PartialEq, Eq, Structural)]
pub enum RangeBound {
    /// The range reaches the index and holds it.
    Included(usize),
    /// The range reaches the index and stops before it.
    Excluded(usize),
    /// The range has no limit on this side.
    Unbounded,
}

/// A range of indices that can tell its two ends.
pub trait SliceRange {
    /// Where the range starts.
    spec fn spec_start(&self) -> RangeBound;

    /// Where the range ends.
    spec fn spec_end(&self) -> RangeBound;

    /// Where the range starts.
    fn start_bound(&self) -> (b: RangeBound)
        ensures
            b == self.spec_start(),
    ;

    /// Where the range ends.
    fn end_bound(&self) -> (b: RangeBound)
        ensures
            b == self.spec_end(),
    ;
}

impl SliceRange for Range<usize> {
    open spec fn spec_start(&self) -> RangeBound {
        RangeBound::Included(self.start)
    }

    open spec fn spec_end(&self) -> RangeBound {
        RangeBound::Excluded(self.end)
    }

    fn start_bound(&self) -> (b: RangeBound) {
        RangeBound::Included(self.start)
    }

    fn end_bound(&self) -> (b: RangeBound) {
        RangeBound::Excluded(self.end)
    }
}

impl SliceRange for RangeFrom<usize> {
    open spec fn spec_start(&self) -> RangeBound {
        RangeBound::Included(self.start)
    }

    open spec fn spec_end(&self) -> RangeBound {
        RangeBound::Unbounded
    }

    fn start_bound(&self) -> (b: RangeBound) {
        RangeBound::Included(self.start)
    }

    fn end_bound(&self) -> (b: RangeBound) {
        RangeBound::Unbounded
    }
}

impl SliceRange for RangeTo<usize> {
    open spec fn spec_start(&self) -> RangeBound {
        RangeBound::Unbounded
    }

    open spec fn spec_end(&self) -> RangeBound {
        RangeBound::Excluded(self.end)
    }

    fn start_bound(&self) -> (b: RangeBound) {
        RangeBound::Unbounded
    }

    fn end_bound(&self) -> (b: RangeBound) {
        RangeBound::Excluded(self.end)
    }
}

impl SliceRange for RangeToInclusive<usize> {
    open spec fn spec_start(&self) -> RangeBound {
        RangeBound::Unbounded
    }

    open spec fn spec_end(&self) -> RangeBound {
        RangeBound::Included(self.end)
    }

    fn start_bound(&self) -> (b: RangeBound) {
        RangeBound::Unbounded
    }

    fn end_bound(&self) -> (b: RangeBound) {
        RangeBound::Included(self.end)
    }
}

impl SliceRange for RangeFull {
    open spec fn spec_start(&self) -> RangeBound {
        RangeBound::Unbounded
    }

    open spec fn spec_end(&self) -> RangeBound {
        RangeBound::Unbounded
    }

    fn start_bound(&self) -> (b: RangeBound) {
        RangeBound::Unbounded
    }

    fn end_bound(&self) -> (b: RangeBound) {
        RangeBound::Unbounded
    }
}

/// `RangeBounds::start_bound` of an inclusive range: the start, which the
/// range holds.
#[verifier::external_body]
fn inclusive_start(r: &RangeInclusive<usize>) -> (b: RangeBound)
    ensures
        b == RangeBound::Included(r@.start),
{
    match RangeBounds::start_bound(r) {
        Bound::Included(v) => RangeBound::Included(*v),
        Bound::Excluded(v) => RangeBound::Excluded(*v),
        Bound::Unbounded => RangeBound::Unbounded,
    }
}

/// `RangeBounds::end_bound` of an inclusive range: the end, which the range
/// holds unless it has been iterated to exhaustion.
#[verifier::external_body]
fn inclusive_end(r: &RangeInclusive<usize>) -> (b: RangeBound)
    ensures
        b == if r@.exhausted {
            RangeBound::Excluded(r@.end)
        } else {
            RangeBound::Included(r@.end)
        },
{
    match RangeBounds::end_bound(r) {
        Bound::Included(v) => RangeBound::Included(*v),
        Bound::Excluded(v) => RangeBound::Excluded(*v),
        Bound::Unbounded => RangeBound::Unbounded,
    }
}

impl SliceRange for RangeInclusive<usize> {
    open spec fn spec_start(&self) -> RangeBound {
        RangeBound::Included(self@.start)
    }

    open spec fn spec_end(&self) -> RangeBound {
        if self@.exhausted {
            RangeBound::Excluded(self@.end)
        } else {
            RangeBound::Included(self@.end)
        }
    }

    fn start_bound(&self) -> (b: RangeBound) {
        inclusive_start(self)
    }

    fn end_bound(&self) -> (b: RangeBound) {
        inclusive_end(self)
    }
}

/// A pair of bounds given one by one, for ranges that the range syntax does
/// not write.
impl SliceRange for (RangeBound, RangeBound) {
    open spec fn spec_start(&self) -> RangeBound {
        self.0
    }

    open spec fn spec_end(&self) -> RangeBound {
        self.1
    }

    fn start_bound(&self) -> (b: RangeBound) {
        self.0
    }

    fn end_bound(&self) -> (b: RangeBound) {
        self.1
    }
}

} // verus!
