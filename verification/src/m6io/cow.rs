//! A flat copy-on-write slice: either a window into a buffer that someone
//! else owns, or a buffer of its own. Copying is put off until a caller asks
//! to write.

use super::range::{RangeBound, SliceRange};
use crate::m6arr::{cloned_seq, lemma_cloned_seq};
use core::ops::Range;
use super::utf8::{
    lemma_boundary_in_prefix, str_from_utf8, str_len, str_window, string_from_utf8, string_push,
    utf8_error_of,
};
use core::str::Utf8Error;
use std::borrow::ToOwned;
use vstd::prelude::*;
use vstd::string::StringSliceAdditionalSpecFns;
use vstd::utf8::{decode_utf8, encode_utf8, is_char_boundary, valid_utf8};

verus! {

/// Something with a length, counted in the units by which it is sliced.
pub trait SliceLike {
    /// The length.
    spec fn spec_len(&self) -> nat;

    /// The length.
    fn len(&self) -> (n: usize)
        ensures
            n == self.spec_len(),
    ;

    /// Whether the length is zero.
    fn is_empty(&self) -> (b: bool)
        ensures
            b == (self.spec_len() == 0),
    ;
}

impl<T> SliceLike for [T] {
    open spec fn spec_len(&self) -> nat {
        self@.len()
    }

    fn len(&self) -> (n: usize) {
        self.len()
    }

    fn is_empty(&self) -> (b: bool) {
        self.len() == 0
    }
}

impl SliceLike for str {
    open spec fn spec_len(&self) -> nat {
        self.spec_bytes().len()
    }

    fn len(&self) -> (n: usize) {
        str_len(self)
    }

    fn is_empty(&self) -> (b: bool) {
        str_len(self) == 0
    }
}

/// A window into a borrowed buffer, or an owned buffer.
pub enum FlatCow<'a, B> where B: 'a + ToOwned + ?Sized {
    /// `&root[start..end]`
    Borrowed { root: &'a B, start: usize, end: usize },
    Owned(B::Owned),
}

/// Staging for a `FlatCow` that is built up item by item.
pub struct CowBuf<'a, B> where B: 'a + ToOwned + ?Sized {
    value: FlatCow<'a, B>,
}

/// The relative start that a start bound stands for.
pub open spec fn spec_rel_start(start: RangeBound) -> int {
    match start {
        RangeBound::Included(s) => s as int,
        RangeBound::Excluded(s) => s + 1,
        RangeBound::Unbounded => 0,
    }
}

/// The relative, exclusive end that an end bound stands for in a window of
/// `width` items.
pub open spec fn spec_rel_end(end: RangeBound, width: int) -> int {
    match end {
        RangeBound::Included(e) => e + 1,
        RangeBound::Excluded(e) => e as int,
        RangeBound::Unbounded => width,
    }
}

/// The smaller of two integers.
pub open spec fn spec_min(a: int, b: int) -> int {
    if a <= b {
        a
    } else {
        b
    }
}

/// The absolute window that the relative range `(start, end)` selects inside
/// the absolute window `[offset, limit)`: both ends are shifted by `offset`
/// and neither passes `limit`.
pub open spec fn spec_union_range(offset: int, limit: int, start: RangeBound, end: RangeBound) -> (
    int,
    int,
) {
    (
        spec_min(spec_rel_start(start) + offset, limit),
        spec_min(spec_rel_end(end, limit - offset) + offset, limit),
    )
}

/// Whether the relative range `(start, end)` can be carried into the
/// window `[offset, limit)`: the start is not exclusive, the window is in order, and no sum
/// leaves `usize`.
pub open spec fn spec_union_range_ok(
    offset: int,
    limit: int,
    start: RangeBound,
    end: RangeBound,
) -> bool {
    &&& !(start is Excluded)
    &&& offset <= limit
    &&& spec_rel_start(start) + offset <= usize::MAX
    &&& spec_rel_end(end, limit - offset) + offset <= usize::MAX
}

/// The relative range `(start, end)` cut down to a window of `width` items.
pub open spec fn spec_clamp_range(width: int, start: RangeBound, end: RangeBound) -> (int, int) {
    (spec_min(spec_rel_start(start), width), spec_min(spec_rel_end(end, width), width))
}

/// Carrying a range into `[offset, limit)` is cutting it down to the width
/// of the window and shifting it by the offset of the window.
pub proof fn lemma_union_range_is_shifted_clamp(
    offset: int,
    limit: int,
    start: RangeBound,
    end: RangeBound,
)
    requires
        offset <= limit,
    ensures
        spec_union_range(offset, limit, start, end).0 == spec_clamp_range(
            limit - offset,
            start,
            end,
        ).0 + offset,
        spec_union_range(offset, limit, start, end).1 == spec_clamp_range(
            limit - offset,
            start,
            end,
        ).1 + offset,
{
}

/// Carries the relative range `r2` into the absolute window `r1`: the pair
/// of absolute positions at which the selected part starts and ends.
pub fn flatcow_union_range<I: SliceRange>(r1: Range<usize>, r2: &I) -> (res: (usize, usize))
    requires
        spec_union_range_ok(r1.start as int, r1.end as int, r2.spec_start(), r2.spec_end()),
    ensures
        (res.0 as int, res.1 as int) == spec_union_range(
            r1.start as int,
            r1.end as int,
            r2.spec_start(),
            r2.spec_end(),
        ),
        res.0 <= r1.end,
        res.1 <= r1.end,
{
    let offset: usize = r1.start;
    let limit: usize = r1.end;
    let start2: usize = match r2.start_bound() {
        RangeBound::Included(start2) => start2,
        RangeBound::Excluded(_) => 0,
        RangeBound::Unbounded => 0,
    };
    let end2: usize = match r2.end_bound() {
        RangeBound::Included(end2) => end2 + 1,
        RangeBound::Excluded(end2) => end2,
        RangeBound::Unbounded => limit - offset,
    };
    let start: usize = if start2 + offset < limit { start2 + offset } else { limit };
    let end: usize = if end2 + offset < limit { end2 + offset } else { limit };
    (start, end)
}

/// A vector holding a clone of each item of `root[start..end]`, in order.
pub fn clone_window<T: Clone>(root: &[T], start: usize, end: usize) -> (out: Vec<T>)
    requires
        start <= end <= root@.len(),
    ensures
        cloned_seq(root@.subrange(start as int, end as int), out@),
{
    let mut out: Vec<T> = Vec::new();
    let mut i: usize = start;
    while i < end
        invariant
            start <= i <= end <= root@.len(),
            out@.len() == i - start,
            forall|k: int| 0 <= k < i - start ==> cloned(root@[start + k], #[trigger] out@[k]),
        decreases end - i,
    {
        out.push(root[i].clone());
        i += 1;
    }
    proof {
        lemma_cloned_seq(root@.subrange(start as int, end as int), out@);
    }
    out
}

impl<'a, B> FlatCow<'a, B> where B: 'a + ToOwned + ?Sized {
    /// Wraps a buffer that the caller hands over.
    pub fn own_new(owned: <B as ToOwned>::Owned) -> (cow: Self)
        ensures
            cow matches FlatCow::Owned(o) && o == owned,
    {
        FlatCow::Owned(owned)
    }

    /// Whether this is a window into a borrowed buffer.
    pub open spec fn is_borrowed(&self) -> bool {
        self is Borrowed
    }
}

impl<'a, T: Clone> View for FlatCow<'a, [T]> {
    type V = Seq<T>;

    /// The items that the value stands for: the window of the root, or the
    /// owned buffer.
    open spec fn view(&self) -> Seq<T> {
        match self {
            FlatCow::Borrowed { root, start, end } => root@.subrange(*start as int, *end as int),
            FlatCow::Owned(owned) => owned@,
        }
    }
}

impl<'a, T: Clone> FlatCow<'a, [T]> {
    /// A borrowed window lies in order inside its root.
    pub open spec fn wf(&self) -> bool {
        match self {
            FlatCow::Borrowed { root, start, end } => *start <= *end <= root@.len(),
            FlatCow::Owned(_) => true,
        }
    }

    /// The window over all of `root`.
    pub fn borrow_new(root: &'a [T]) -> (cow: Self)
        ensures
            cow matches FlatCow::Borrowed { root: r, start, end } && r == root && start == 0 && end
                == root@.len(),
            cow.wf(),
            cow@ == root@,
    {
        assert(root@.subrange(0, root@.len() as int) =~= root@);
        FlatCow::Borrowed { root, start: 0, end: root.len() }
    }

    /// The items, without copying.
    pub fn as_slice(&self) -> (s: &[T])
        requires
            self.wf(),
        ensures
            s@ == self@,
    {
        match self {
            FlatCow::Borrowed { root, start, end } => vstd::slice::slice_subrange(
                *root,
                *start,
                *end,
            ),
            FlatCow::Owned(owned) => owned.as_slice(),
        }
    }

    /// The number of items.
    pub fn len(&self) -> (n: usize)
        requires
            self.wf(),
        ensures
            n == self@.len(),
    {
        match self {
            FlatCow::Borrowed { root: _, start, end } => *end - *start,
            FlatCow::Owned(owned) => owned.len(),
        }
    }

    /// Makes the value own its items, cloning the window if it was borrowed,
    /// and hands out the owned buffer for writing. The root of a borrowed
    /// window is not touched, now or by any later write.
    pub fn to_mut(&mut self) -> (owned: &mut Vec<T>)
        requires
            old(self).wf(),
        ensures
            *old(self) matches FlatCow::Owned(o) ==> *owned == o,
            *old(self) is Borrowed ==> cloned_seq(old(self)@, owned@),
            *final(self) matches FlatCow::Owned(o) && o == *final(owned),
    {
        if let FlatCow::Borrowed { root, start, end } = self {
            let fresh = clone_window(*root, *start, *end);
            *self = FlatCow::Owned(fresh);
        }
        match self {
            FlatCow::Owned(owned) => owned,
            FlatCow::Borrowed { .. } => unreached(),
        }
    }

    /// Wraps the value for staging.
    pub fn into_cow_buf(self) -> (buf: CowBuf<'a, [T]>)
        ensures
            buf.spec_cow() == self,
    {
        CowBuf { value: self }
    }

    /// The part of the value that the relative range `index` selects. From a
    /// borrowed window comes a narrower window into the same root, with no
    /// item copied, the range being cut down to the window. From an owned
    /// buffer comes a fresh owned buffer with clones of the selected items.
    pub fn as_slice_cow<I: SliceRange>(&self, index: I) -> (cow: Self)
        requires
            self.wf(),
            !(index.spec_start() is Excluded),
            self matches FlatCow::Borrowed { root, start, end } ==> {
                &&& spec_union_range_ok(
                    start as int,
                    end as int,
                    index.spec_start(),
                    index.spec_end(),
                )
                &&& spec_clamp_range(self@.len() as int, index.spec_start(), index.spec_end()).0
                    <= spec_clamp_range(self@.len() as int, index.spec_start(), index.spec_end()).1
            },
            self is Owned ==> spec_rel_start(index.spec_start()) <= spec_rel_end(
                index.spec_end(),
                self@.len() as int,
            ) <= self@.len(),
        ensures
            cow.wf(),
            cow.is_borrowed() == self.is_borrowed(),
            self matches FlatCow::Borrowed { root, start, end } ==> (cow matches FlatCow::Borrowed {
                root: r,
                start: s,
                end: e,
            } && r == root && (s as int, e as int) == spec_union_range(
                start as int,
                end as int,
                index.spec_start(),
                index.spec_end(),
            )),
            self is Borrowed ==> cow@ == self@.subrange(
                spec_clamp_range(self@.len() as int, index.spec_start(), index.spec_end()).0,
                spec_clamp_range(self@.len() as int, index.spec_start(), index.spec_end()).1,
            ),
            self is Owned ==> cloned_seq(
                self@.subrange(
                    spec_rel_start(index.spec_start()),
                    spec_rel_end(index.spec_end(), self@.len() as int),
                ),
                cow@,
            ),
    {
        match self {
            FlatCow::Borrowed { root, start, end } => {
                let (s, e) = flatcow_union_range(*start..*end, &index);
                proof {
                    lemma_union_range_is_shifted_clamp(
                        *start as int,
                        *end as int,
                        index.spec_start(),
                        index.spec_end(),
                    );
                    assert(root@.subrange(s as int, e as int) =~= root@.subrange(
                        *start as int,
                        *end as int,
                    ).subrange(s - *start, e - *start));
                }
                FlatCow::Borrowed { root: *root, start: s, end: e }
            },
            FlatCow::Owned(owned) => {
                let len: usize = owned.len();
                let lo: usize = match index.start_bound() {
                    RangeBound::Included(lo) => lo,
                    RangeBound::Excluded(_) => 0,
                    RangeBound::Unbounded => 0,
                };
                let hi: usize = match index.end_bound() {
                    RangeBound::Included(hi) => hi + 1,
                    RangeBound::Excluded(hi) => hi,
                    RangeBound::Unbounded => len,
                };
                FlatCow::Owned(clone_window(owned.as_slice(), lo, hi))
            },
        }
    }

    /// Gives up the value for its items in an owned buffer; a borrowed
    /// window is cloned, an owned buffer is handed over as it is.
    pub fn into_owned(self) -> (owned: Vec<T>)
        requires
            self.wf(),
        ensures
            self matches FlatCow::Owned(v) ==> owned == v,
            self is Borrowed ==> cloned_seq(self@, owned@),
    {
        match self {
            FlatCow::Borrowed { root, start, end } => clone_window(root, start, end),
            FlatCow::Owned(owned) => owned,
        }
    }
}

impl<'a, T: Clone> Clone for FlatCow<'a, [T]> {
    /// A borrowed window is copied as a window; an owned buffer is cloned.
    fn clone(&self) -> (cow: Self)
        ensures
            cow.is_borrowed() == self.is_borrowed(),
            self is Borrowed ==> cow == *self,
            self is Owned ==> cloned_seq(self@, cow@),
    {
        match self {
            FlatCow::Borrowed { root, start, end } => FlatCow::Borrowed {
                root: *root,
                start: *start,
                end: *end,
            },
            FlatCow::Owned(owned) => {
                assert(owned@.subrange(0, owned@.len() as int) =~= owned@);
                FlatCow::Owned(clone_window(owned.as_slice(), 0, owned.len()))
            },
        }
    }
}

impl<'a, T: Clone> CowBuf<'a, [T]> {
    /// The value under construction.
    pub closed spec fn spec_cow(&self) -> FlatCow<'a, [T]> {
        self.value
    }

    /// Ends the staging and hands out the value.
    pub fn to_cow(self) -> (cow: FlatCow<'a, [T]>)
        ensures
            cow == self.spec_cow(),
    {
        self.value
    }

    /// Moves an empty window that stands at the head of the root to
    /// position `i`. An owned buffer, which must be empty, stays as it is.
    pub fn start(&mut self, i: usize)
        requires
            old(self).spec_cow() matches FlatCow::Borrowed { root, start, end } ==> start == 0 && i
                > end,
            old(self).spec_cow() matches FlatCow::Owned(o) ==> o@.len() == 0,
        ensures
            old(self).spec_cow() matches FlatCow::Borrowed { root, start, end } ==> (final(self).spec_cow() matches FlatCow::Borrowed { root: r, start: s, end: e } && r == root && s
                == i && e == i),
            old(self).spec_cow() is Owned ==> final(self).spec_cow() == old(self).spec_cow(),
    {
        match &mut self.value {
            FlatCow::Borrowed { root: _, start, end } => {
                *start = i;
                *end = i;
            },
            FlatCow::Owned(_) => {},
        }
    }

    /// Takes one more item in. A borrowed window grows by one slot at its
    /// end, without a copy: the caller passes the item that stands there. An
    /// owned buffer gets `b` appended.
    pub fn push(&mut self, b: T)
        requires
            old(self).spec_cow() matches FlatCow::Borrowed { root, start, end } ==> end < usize::MAX,
        ensures
            old(self).spec_cow() matches FlatCow::Borrowed { root, start, end } ==> (final(self).spec_cow() matches FlatCow::Borrowed { root: r, start: s, end: e } && r == root && s
                == start && e == end + 1),
            old(self).spec_cow() matches FlatCow::Owned(o) ==> (final(self).spec_cow()
                matches FlatCow::Owned(p) && p@ == o@.push(b)),
    {
        match &mut self.value {
            FlatCow::Borrowed { root: _, start: _, end } => {
                *end = *end + 1;
            },
            FlatCow::Owned(value) => {
                value.push(b);
            },
        }
    }

    /// Makes the value own its items, then appends `b`.
    pub fn clone_push(&mut self, b: T)
        requires
            old(self).spec_cow().wf(),
        ensures
            final(self).spec_cow() matches FlatCow::Owned(p) && p@.len() > 0 && p@.last() == b && (
            old(self).spec_cow() matches FlatCow::Owned(o) ==> p@ == o@.push(b)) && (old(self).spec_cow() is Borrowed ==> cloned_seq(old(self).spec_cow()@, p@.drop_last())),
    {
        let owned = self.value.to_mut();
        let ghost before = owned@;
        owned.push(b);
        assert(owned@.drop_last() =~= before);
    }
}

impl<'a> View for FlatCow<'a, str> {
    type V = Seq<char>;

    /// The characters that the value stands for: those of the window of the
    /// root, or those of the owned string.
    open spec fn view(&self) -> Seq<char> {
        match self {
            FlatCow::Borrowed { root, start, end } => decode_utf8(
                root.spec_bytes().subrange(*start as int, *end as int),
            ),
            FlatCow::Owned(owned) => owned@,
        }
    }
}

impl<'a> FlatCow<'a, str> {
    /// The bytes that the value stands for.
    pub open spec fn spec_bytes(&self) -> Seq<u8> {
        match self {
            FlatCow::Borrowed { root, start, end } => root.spec_bytes().subrange(
                *start as int,
                *end as int,
            ),
            FlatCow::Owned(owned) => encode_utf8(owned@),
        }
    }

    /// A borrowed window lies in order inside its root, with both ends on
    /// character boundaries.
    pub open spec fn wf(&self) -> bool {
        match self {
            FlatCow::Borrowed { root, start, end } => {
                &&& *start <= *end <= root.spec_bytes().len()
                &&& is_char_boundary(root.spec_bytes(), *start as int)
                &&& is_char_boundary(root.spec_bytes(), *end as int)
            },
            FlatCow::Owned(_) => true,
        }
    }

    /// A well-formed value stands for the bytes that write its characters.
    pub proof fn lemma_bytes_of_text(&self)
        requires
            self.wf(),
        ensures
            self.spec_bytes() == encode_utf8(self@),
            valid_utf8(self.spec_bytes()),
    {
        match self {
            FlatCow::Borrowed { root, start, end } => {
                let bytes = root.spec_bytes();
                vstd::utf8::encode_utf8_valid_utf8(root@);
                lemma_boundary_in_prefix(bytes, *start as int, *end as int);
                vstd::utf8::valid_utf8_split(bytes.subrange(0, *end as int), *start as int);
                assert(bytes.subrange(0, *end as int).subrange(*start as int, *end as int)
                    =~= bytes.subrange(*start as int, *end as int));
                vstd::utf8::decode_utf8_encode_utf8(bytes.subrange(*start as int, *end as int));
            },
            FlatCow::Owned(owned) => {
                vstd::utf8::encode_utf8_valid_utf8(owned@);
            },
        }
    }

    /// The window over all of `root`.
    pub fn borrow_new(root: &'a str) -> (cow: Self)
        ensures
            cow matches FlatCow::Borrowed { root: r, start, end } && r == root && start == 0 && end
                == root.spec_bytes().len(),
            cow.wf(),
            cow@ == root@,
    {
        proof {
            let bytes = root.spec_bytes();
            vstd::utf8::encode_utf8_valid_utf8(root@);
            vstd::utf8::is_char_boundary_start_end_of_seq(bytes);
            assert(bytes.subrange(0, bytes.len() as int) =~= bytes);
            vstd::utf8::encode_utf8_decode_utf8(root@);
        }
        FlatCow::Borrowed { root, start: 0, end: str_len(root) }
    }

    /// The characters as a string slice, without copying.
    pub fn as_str(&self) -> (s: &str)
        requires
            self.wf(),
        ensures
            s@ == self@,
            s.spec_bytes() == self.spec_bytes(),
    {
        match self {
            FlatCow::Borrowed { root, start, end } => str_window(*root, *start, *end),
            FlatCow::Owned(owned) => owned.as_str(),
        }
    }

    /// Makes the value own its characters, copying the window if it was
    /// borrowed, and hands out the owned string for writing. The root of a
    /// borrowed window is not touched, now or by any later write.
    pub fn to_mut(&mut self) -> (owned: &mut String)
        requires
            old(self).wf(),
        ensures
            owned@ == old(self)@,
            *old(self) matches FlatCow::Owned(o) ==> *owned == o,
            *final(self) matches FlatCow::Owned(o) && o == *final(owned),
    {
        if let FlatCow::Borrowed { root, start, end } = self {
            let fresh = str_window(*root, *start, *end).to_owned();
            *self = FlatCow::Owned(fresh);
        }
        match self {
            FlatCow::Owned(owned) => owned,
            FlatCow::Borrowed { .. } => unreached(),
        }
    }

    /// Wraps the value for staging.
    pub fn into_cow_buf(self) -> (buf: CowBuf<'a, str>)
        ensures
            buf.spec_cow() == self,
    {
        CowBuf { value: self }
    }

    /// Gives up the value for its characters in an owned string; a borrowed
    /// window is copied, an owned string is handed over as it is.
    pub fn into_owned(self) -> (owned: String)
        requires
            self.wf(),
        ensures
            owned@ == self@,
            self matches FlatCow::Owned(o) ==> owned == o,
    {
        match self {
            FlatCow::Borrowed { root, start, end } => str_window(root, start, end).to_owned(),
            FlatCow::Owned(owned) => owned,
        }
    }

    /// The part of the value that the relative byte range `index` selects.
    /// From a borrowed window comes a narrower window into the same root,
    /// with nothing copied, the range being cut down to the window. From an
    /// owned string comes a fresh owned string with the selected part.
    pub fn as_slice_cow<I: SliceRange>(&self, index: I) -> (cow: Self)
        requires
            self.wf(),
            !(index.spec_start() is Excluded),
            self matches FlatCow::Borrowed { root, start, end } ==> {
                let w = spec_union_range(
                    start as int,
                    end as int,
                    index.spec_start(),
                    index.spec_end(),
                );
                &&& spec_union_range_ok(
                    start as int,
                    end as int,
                    index.spec_start(),
                    index.spec_end(),
                )
                &&& w.0 <= w.1
                &&& is_char_boundary(root.spec_bytes(), w.0)
                &&& is_char_boundary(root.spec_bytes(), w.1)
            },
            self matches FlatCow::Owned(o) ==> {
                let lo = spec_rel_start(index.spec_start());
                let hi = spec_rel_end(index.spec_end(), encode_utf8(o@).len() as int);
                &&& lo <= hi <= encode_utf8(o@).len()
                &&& is_char_boundary(encode_utf8(o@), lo)
                &&& is_char_boundary(encode_utf8(o@), hi)
            },
        ensures
            cow.wf(),
            cow.is_borrowed() == self.is_borrowed(),
            self matches FlatCow::Borrowed { root, start, end } ==> (cow matches FlatCow::Borrowed {
                root: r,
                start: s,
                end: e,
            } && r == root && (s as int, e as int) == spec_union_range(
                start as int,
                end as int,
                index.spec_start(),
                index.spec_end(),
            )),
            cow.spec_bytes() == self.spec_bytes().subrange(
                spec_clamp_range(
                    self.spec_bytes().len() as int,
                    index.spec_start(),
                    index.spec_end(),
                ).0,
                spec_clamp_range(
                    self.spec_bytes().len() as int,
                    index.spec_start(),
                    index.spec_end(),
                ).1,
            ),
    {
        match self {
            FlatCow::Borrowed { root, start, end } => {
                let (s, e) = flatcow_union_range(*start..*end, &index);
                proof {
                    lemma_union_range_is_shifted_clamp(
                        *start as int,
                        *end as int,
                        index.spec_start(),
                        index.spec_end(),
                    );
                    assert(root.spec_bytes().subrange(s as int, e as int)
                        =~= root.spec_bytes().subrange(*start as int, *end as int).subrange(
                        s - *start,
                        e - *start,
                    ));
                }
                FlatCow::Borrowed { root: *root, start: s, end: e }
            },
            FlatCow::Owned(owned) => {
                let whole: &str = owned.as_str();
                let len: usize = str_len(whole);
                proof {
                    vstd::utf8::encode_utf8_valid_utf8(whole@);
                }
                let lo: usize = match index.start_bound() {
                    RangeBound::Included(lo) => lo,
                    RangeBound::Excluded(_) => 0,
                    RangeBound::Unbounded => 0,
                };
                let hi: usize = match index.end_bound() {
                    RangeBound::Included(hi) => hi + 1,
                    RangeBound::Excluded(hi) => hi,
                    RangeBound::Unbounded => len,
                };
                let part = str_window(whole, lo, hi).to_owned();
                proof {
                    vstd::utf8::encode_utf8_decode_utf8(part@);
                    vstd::utf8::valid_utf8_split(whole.spec_bytes(), hi as int);
                    lemma_boundary_in_prefix(whole.spec_bytes(), lo as int, hi as int);
                    vstd::utf8::valid_utf8_split(whole.spec_bytes().subrange(0, hi as int), lo as int);
                    assert(whole.spec_bytes().subrange(0, hi as int).subrange(
                        lo as int,
                        hi as int,
                    ) =~= whole.spec_bytes().subrange(lo as int, hi as int));
                    vstd::utf8::decode_utf8_encode_utf8(
                        whole.spec_bytes().subrange(lo as int, hi as int),
                    );
                }
                FlatCow::Owned(part)
            },
        }
    }
}

impl<'a> Clone for FlatCow<'a, str> {
    /// A borrowed window is copied as a window; an owned string is cloned.
    fn clone(&self) -> (cow: Self)
        ensures
            cow.is_borrowed() == self.is_borrowed(),
            self is Borrowed ==> cow == *self,
            cow@ == self@,
    {
        match self {
            FlatCow::Borrowed { root, start, end } => FlatCow::Borrowed {
                root: *root,
                start: *start,
                end: *end,
            },
            FlatCow::Owned(owned) => FlatCow::Owned(owned.clone()),
        }
    }
}

impl<'a> CowBuf<'a, str> {
    /// The value under construction.
    pub closed spec fn spec_cow(&self) -> FlatCow<'a, str> {
        self.value
    }

    /// Ends the staging and hands out the value.
    pub fn to_cow(self) -> (cow: FlatCow<'a, str>)
        ensures
            cow == self.spec_cow(),
    {
        self.value
    }

    /// Moves an empty window that stands at the head of the root to byte
    /// position `i`. An owned string, which must be empty, stays as it is.
    pub fn start(&mut self, i: usize)
        requires
            old(self).spec_cow() matches FlatCow::Borrowed { root, start, end } ==> start == 0 && i
                > end,
            old(self).spec_cow() matches FlatCow::Owned(o) ==> o@.len() == 0,
        ensures
            old(self).spec_cow() matches FlatCow::Borrowed { root, start, end } ==> (final(self).spec_cow() matches FlatCow::Borrowed { root: r, start: s, end: e } && r == root && s
                == i && e == i),
            old(self).spec_cow() is Owned ==> final(self).spec_cow() == old(self).spec_cow(),
    {
        match &mut self.value {
            FlatCow::Borrowed { root: _, start, end } => {
                *start = i;
                *end = i;
            },
            FlatCow::Owned(_) => {},
        }
    }

    /// Takes one more character in. A borrowed window grows by one byte at
    /// its end, without a copy. An owned string gets `b` appended.
    pub fn push(&mut self, b: char)
        requires
            old(self).spec_cow() matches FlatCow::Borrowed { root, start, end } ==> end < usize::MAX,
        ensures
            old(self).spec_cow() matches FlatCow::Borrowed { root, start, end } ==> (final(self).spec_cow() matches FlatCow::Borrowed { root: r, start: s, end: e } && r == root && s
                == start && e == end + 1),
            old(self).spec_cow() matches FlatCow::Owned(o) ==> (final(self).spec_cow()
                matches FlatCow::Owned(p) && p@ == o@.push(b)),
    {
        match &mut self.value {
            FlatCow::Borrowed { root: _, start: _, end } => {
                *end = *end + 1;
            },
            FlatCow::Owned(value) => {
                string_push(value, b);
            },
        }
    }

    /// Makes the value own its characters, then appends `b`.
    pub fn clone_push(&mut self, b: char)
        requires
            old(self).spec_cow().wf(),
        ensures
            final(self).spec_cow() matches FlatCow::Owned(p) && p@ == old(self).spec_cow()@.push(b),
    {
        let owned = self.value.to_mut();
        string_push(owned, b);
    }
}

impl<'a, T: Clone> From<&'a [T]> for CowBuf<'a, [T]> {
    /// An empty staging window at the head of `value`.
    fn from(value: &'a [T]) -> (buf: Self)
        ensures
            buf.spec_cow() matches FlatCow::Borrowed { root, start, end } && root == value && start
                == 0 && end == 0,
    {
        CowBuf { value: FlatCow::Borrowed { root: value, start: 0, end: 0 } }
    }
}

impl<'a, T: Clone> vstd::std_specs::convert::FromSpecImpl<&'a [T]> for CowBuf<'a, [T]> {
    open spec fn obeys_from_spec() -> bool {
        true
    }

    closed spec fn from_spec(value: &'a [T]) -> Self {
        CowBuf { value: FlatCow::Borrowed { root: value, start: 0, end: 0 } }
    }
}

impl<'a> From<&'a str> for CowBuf<'a, str> {
    /// An empty staging window at the head of `value`.
    fn from(value: &'a str) -> (buf: Self)
        ensures
            buf.spec_cow() matches FlatCow::Borrowed { root, start, end } && root == value && start
                == 0 && end == 0,
    {
        CowBuf { value: FlatCow::Borrowed { root: value, start: 0, end: 0 } }
    }
}

impl<'a> vstd::std_specs::convert::FromSpecImpl<&'a str> for CowBuf<'a, str> {
    open spec fn obeys_from_spec() -> bool {
        true
    }

    closed spec fn from_spec(value: &'a str) -> Self {
        CowBuf { value: FlatCow::Borrowed { root: value, start: 0, end: 0 } }
    }
}

impl<'a, T: Clone> From<&FlatCow<'a, [T]>> for CowBuf<'a, [T]> {
    /// An empty staging value of the kind of `value`: an empty window at the
    /// start of its window, or an empty owned buffer.
    fn from(value: &FlatCow<'a, [T]>) -> (buf: Self)
        ensures
            value matches FlatCow::Borrowed { root, start, end } ==> (buf.spec_cow()
                matches FlatCow::Borrowed { root: r, start: s, end: e } && r == root && s == start
                && e == start),
            value is Owned ==> (buf.spec_cow() matches FlatCow::Owned(o) && o@ == Seq::<T>::empty()),
    {
        let cow = match value {
            FlatCow::Borrowed { root, start, end: _ } => FlatCow::Borrowed {
                root: *root,
                start: *start,
                end: *start,
            },
            FlatCow::Owned(_) => FlatCow::Owned(Vec::new()),
        };
        CowBuf { value: cow }
    }
}

impl<'a, T: Clone> vstd::std_specs::convert::FromSpecImpl<&FlatCow<'a, [T]>> for CowBuf<'a, [T]> {
    open spec fn obeys_from_spec() -> bool {
        false
    }

    closed spec fn from_spec(value: &FlatCow<'a, [T]>) -> Self {
        arbitrary()
    }
}

impl<'a, T: Clone> From<&'a [T]> for FlatCow<'a, [T]> {
    /// The window over all of `value`.
    fn from(value: &'a [T]) -> (cow: Self)
        ensures
            cow.wf(),
            cow@ == value@,
    {
        FlatCow::<'a, [T]>::borrow_new(value)
    }
}

impl<'a, T: Clone> vstd::std_specs::convert::FromSpecImpl<&'a [T]> for FlatCow<'a, [T]> {
    open spec fn obeys_from_spec() -> bool {
        true
    }

    open spec fn from_spec(value: &'a [T]) -> Self {
        FlatCow::Borrowed { root: value, start: 0, end: value@.len() as usize }
    }
}

impl<'a> From<&'a str> for FlatCow<'a, str> {
    /// The window over all of `value`.
    fn from(value: &'a str) -> (cow: Self)
        ensures
            cow.wf(),
            cow@ == value@,
    {
        FlatCow::<'a, str>::borrow_new(value)
    }
}

impl<'a> vstd::std_specs::convert::FromSpecImpl<&'a str> for FlatCow<'a, str> {
    open spec fn obeys_from_spec() -> bool {
        true
    }

    open spec fn from_spec(value: &'a str) -> Self {
        FlatCow::Borrowed { root: value, start: 0, end: value.spec_bytes().len() as usize }
    }
}

impl<'a> FlatCow<'a, str> {
    /// Reads a value over bytes as a value over characters. This succeeds
    /// exactly when the bytes are valid UTF-8. A borrowed window becomes a
    /// window over all of the decoded part; an owned buffer becomes an owned
    /// string.
    pub fn try_from(value: FlatCow<'a, [u8]>) -> (res: Result<Self, Utf8Error>)
        requires
            value.wf(),
        ensures
            res is Ok <==> valid_utf8(value@),
            res matches Ok(cow) ==> {
                &&& cow.wf()
                &&& cow.spec_bytes() == value@
                &&& cow.is_borrowed() == value.is_borrowed()
                &&& cow matches FlatCow::Borrowed { root, start, end } ==> start == 0 && end
                    == value@.len()
            },
    {
        match value {
            FlatCow::Borrowed { root, start, end } => {
                match str_from_utf8(vstd::slice::slice_subrange(root, start, end)) {
                    Ok(root) => {
                        let cow = FlatCow::<'a, str>::borrow_new(root);
                        proof {
                            let bytes = root.spec_bytes();
                            assert(bytes.subrange(0, bytes.len() as int) =~= bytes);
                        }
                        Ok(cow)
                    },
                    Err(e) => Err(e),
                }
            },
            FlatCow::Owned(owned) => {
                match string_from_utf8(owned) {
                    Ok(owned) => Ok(FlatCow::Owned(owned)),
                    Err(e) => Err(utf8_error_of(&e)),
                }
            },
        }
    }
}

} // verus!
