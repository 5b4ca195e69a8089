//! Spans of source positions, and streams of tokens with one and two tokens
//! of look-ahead.

use crate::m6io::range::{RangeBound, SliceRange};
use std::collections::VecDeque;
use vstd::prelude::*;
use vstd::std_specs::iter::IteratorSpec;
use vstd::std_specs::ops::{BitOrSpecImpl, ShlSpecImpl, ShrSpecImpl};

verus! {

/// A token that can tell its type.
pub trait AbcToken {
    /// The type of a token.
    type TokenType: Eq;

    /// The type of this token.
    fn token_type(&self) -> Self::TokenType;
}

/// A syntax element that is known by the type of its first token.
pub trait Peek {
    /// The type of a token.
    type TokenType: Eq;

    /// The type of the token that starts the element.
    fn token_type() -> Self::TokenType;
}

/// A syntax element that can be read from a stream of tokens.
pub trait Parse: Sized {
    /// The tokens that the element is made of.
    type Token: AbcToken;

    /// What a failed reading reports.
    type Err;

    /// Reads the element from the front of `input`.
    fn parse<TS: TokenStream<Self::Token> + ?Sized>(input: &mut TS) -> Result<Self, Self::Err>;
}

/// A stream of tokens with a look-ahead of two.
pub trait TokenStream<T: AbcToken> {
    /// The next token, without taking it.
    fn peek_token(&self) -> Option<&T>;

    /// The token after the next one, without taking anything.
    fn peek2_token(&self) -> Option<&T>;

    /// Takes the next token.
    fn next_token(&mut self) -> Option<T>;

    /// Whether the next token has the type that starts a `P`: `false` where
    /// no next token is there, else what comparing the type of that token
    /// with the type that starts a `P` gives.
    fn peek<P: Peek<TokenType = T::TokenType> + Sized>(&self) -> (b: bool)
        ensures
            exists|tok: Option<&T>| #[trigger]
                call_ensures(Self::peek_token, (self,), tok) && starts_with_type_of::<T, P>(tok, b),
    {
        let tok = self.peek_token();
        if let Some(ty) = tok {
            let mine = ty.token_type();
            let theirs = P::token_type();
            let b = mine == theirs;
            proof {
                assert(is_same_type::<T, P>(ty, mine, theirs, b));
            }
            b
        } else {
            false
        }
    }

    /// Whether the token after the next one has the type that starts a `P`:
    /// `false` where no such token is there, else what comparing the type of
    /// that token with the type that starts a `P` gives.
    fn peek2<P: Peek<TokenType = T::TokenType> + Sized>(&self) -> (b: bool)
        ensures
            exists|tok: Option<&T>| #[trigger]
                call_ensures(Self::peek2_token, (self,), tok) && starts_with_type_of::<T, P>(tok, b),
    {
        let tok = self.peek2_token();
        if let Some(ty) = tok {
            let mine = ty.token_type();
            let theirs = P::token_type();
            let b = mine == theirs;
            proof {
                assert(is_same_type::<T, P>(ty, mine, theirs, b));
            }
            b
        } else {
            false
        }
    }

    /// Whether a next token is there.
    fn is_end(&self) -> (b: bool)
        ensures
            exists|tok: Option<&T>| #[trigger]
                call_ensures(Self::peek_token, (self,), tok) && b == tok.is_some(),
    {
        self.peek_token().is_some()
    }
}

/// Reads a `P` from the front of `input`: whatever `P::parse` makes of it.
pub fn parse<T: AbcToken, TS: TokenStream<T> + ?Sized, P: Parse<Token = T>>(
    input: &mut TS,
) -> Result<P, P::Err> {
    P::parse(input)
}

/// Whether `b` is what comparing `mine`, the type of the token `ty`, with
/// `theirs`, the type that starts a `P`, gives.
pub open spec fn is_same_type<T: AbcToken, P: Peek<TokenType = T::TokenType>>(
    ty: &T,
    mine: T::TokenType,
    theirs: T::TokenType,
    b: bool,
) -> bool {
    &&& call_ensures(T::token_type, (ty,), mine)
    &&& call_ensures(P::token_type, (), theirs)
    &&& call_ensures(<T::TokenType as PartialEq>::eq, (&mine, &theirs), b)
}

/// Whether `b` tells of the token `tok`, where there is one, that it has
/// the type that starts a `P`: `b` is `false` where there is no token, and
/// else it is what comparing the two types gives.
pub open spec fn starts_with_type_of<T: AbcToken, P: Peek<TokenType = T::TokenType>>(
    tok: Option<&T>,
    b: bool,
) -> bool {
    match tok {
        None => !b,
        Some(ty) => exists|mine: T::TokenType, theirs: T::TokenType| #[trigger]
            is_same_type::<T, P>(ty, mine, theirs, b),
    }
}

/// A half-open range of positions, which may lie before position zero.
#[derive(Clone, Copy, PartialEq, Eq, Hash, Structural)]
pub struct Span {
    pub start: isize,
    /// exclusive
    pub end: isize,
}

/// The smaller of two positions.
pub open spec fn spec_min(a: isize, b: isize) -> isize {
    if a <= b {
        a
    } else {
        b
    }
}

/// The larger of two positions.
pub open spec fn spec_max(a: isize, b: isize) -> isize {
    if a >= b {
        a
    } else {
        b
    }
}

/// The smallest span that covers both.
pub open spec fn spec_union(it: Span, oth: Span) -> Span {
    Span { start: spec_min(it.start, oth.start), end: spec_max(it.end, oth.end) }
}

/// Whether both ends of `span` can be moved by `by` without leaving `isize`.
pub open spec fn spec_can_move(span: Span, by: int) -> bool {
    &&& isize::MIN <= span.start + by <= isize::MAX
    &&& isize::MIN <= span.end + by <= isize::MAX
}

/// `span` with both ends moved by `by`.
pub open spec fn spec_moved(span: Span, by: int) -> Span {
    Span { start: (span.start + by) as isize, end: (span.end + by) as isize }
}

impl Span {
    /// The span moved by `offset` positions.
    pub fn offset(&self, offset: isize) -> (span: Self)
        requires
            spec_can_move(*self, offset as int),
        ensures
            span == spec_moved(*self, offset as int),
    {
        Self { start: self.start + offset, end: self.end + offset }
    }

    /// The smallest span that covers both.
    pub fn union(it: Self, oth: Self) -> (span: Self)
        ensures
            span == spec_union(it, oth),
    {
        Self {
            start: if it.start <= oth.start {
                it.start
            } else {
                oth.start
            },
            end: if it.end >= oth.end {
                it.end
            } else {
                oth.end
            },
        }
    }

    /// Moves the span `rhs` positions towards the front.
    pub fn shl_assign(&mut self, rhs: usize)
        requires
            rhs <= isize::MAX,
            spec_can_move(*old(self), -(rhs as int)),
        ensures
            *final(self) == spec_moved(*old(self), -(rhs as int)),
    {
        self.start = self.start - rhs as isize;
        self.end = self.end - rhs as isize;
    }

    /// Moves the span `rhs` positions towards the back.
    pub fn shr_assign(&mut self, rhs: usize)
        requires
            rhs <= isize::MAX,
            spec_can_move(*old(self), rhs as int),
        ensures
            *final(self) == spec_moved(*old(self), rhs as int),
    {
        self.start = self.start + rhs as isize;
        self.end = self.end + rhs as isize;
    }

    /// The first position that a start bound stands for.
    pub open spec fn spec_start_of(bound: RangeBound) -> int {
        match bound {
            RangeBound::Included(v) => v as int,
            RangeBound::Excluded(v) => v - 1,
            RangeBound::Unbounded => 0,
        }
    }

    /// The position behind the last one that an end bound stands for.
    pub open spec fn spec_end_of(bound: RangeBound) -> int {
        match bound {
            RangeBound::Included(v) => v + 1,
            RangeBound::Excluded(v) => v as int,
            RangeBound::Unbounded => 0,
        }
    }

    /// The span of the positions in `value`, which has an end.
    pub fn from_range<I: SliceRange>(value: &I) -> (span: Self)
        requires
            !(value.spec_end() is Unbounded),
            Self::spec_start_of(value.spec_start()) <= isize::MAX,
            Self::spec_end_of(value.spec_end()) <= isize::MAX,
        ensures
            span.start == Self::spec_start_of(value.spec_start()),
            span.end == Self::spec_end_of(value.spec_end()),
    {
        let start: isize = match value.start_bound() {
            RangeBound::Included(v) => v as isize,
            RangeBound::Excluded(v) => {
                if v == 0 {
                    -1
                } else {
                    (v - 1) as isize
                }
            },
            RangeBound::Unbounded => 0,
        };
        let end: isize = match value.end_bound() {
            RangeBound::Included(v) => (v + 1) as isize,
            RangeBound::Excluded(v) => v as isize,
            RangeBound::Unbounded => unreached(),
        };
        Self { start, end }
    }
}

impl core::ops::BitOr<Span> for Span {
    type Output = Span;

    /// The smallest span that covers both.
    fn bitor(self, rhs: Self) -> (span: Self) {
        Self::union(self, rhs)
    }
}

impl BitOrSpecImpl<Span> for Span {
    open spec fn obeys_bitor_spec() -> bool {
        true
    }

    open spec fn bitor_req(self, rhs: Span) -> bool {
        true
    }

    open spec fn bitor_spec(self, rhs: Span) -> Span {
        spec_union(self, rhs)
    }
}

impl core::ops::Shl<usize> for Span {
    type Output = Span;

    /// The span moved `rhs` positions towards the front.
    fn shl(self, rhs: usize) -> (span: Self) {
        Self { start: self.start - rhs as isize, end: self.end - rhs as isize }
    }
}

impl ShlSpecImpl<usize> for Span {
    open spec fn obeys_shl_spec() -> bool {
        true
    }

    open spec fn shl_req(self, rhs: usize) -> bool {
        rhs <= isize::MAX && spec_can_move(self, -(rhs as int))
    }

    open spec fn shl_spec(self, rhs: usize) -> Span {
        spec_moved(self, -(rhs as int))
    }
}

impl core::ops::Shr<usize> for Span {
    type Output = Span;

    /// The span moved `rhs` positions towards the back.
    fn shr(self, rhs: usize) -> (span: Self) {
        Self { start: self.start + rhs as isize, end: self.end + rhs as isize }
    }
}

impl ShrSpecImpl<usize> for Span {
    open spec fn obeys_shr_spec() -> bool {
        true
    }

    open spec fn shr_req(self, rhs: usize) -> bool {
        rhs <= isize::MAX && spec_can_move(self, rhs as int)
    }

    open spec fn shr_spec(self, rhs: usize) -> Span {
        spec_moved(self, rhs as int)
    }
}

/// A stream over a slice of tokens.
pub struct SliceTokenStream<'t, T> {
    slice: &'t [T],
    ptr: usize,
}

impl<'t, T> SliceTokenStream<'t, T> {
    /// The tokens from the cursor on.
    pub closed spec fn spec_rest(&self) -> Seq<T> {
        if self.ptr <= self.slice@.len() {
            self.slice@.skip(self.ptr as int)
        } else {
            Seq::empty()
        }
    }

    /// The stream over `value`, with the cursor on its first token.
    pub fn from_slice(value: &'t [T]) -> (stream: Self)
        ensures
            stream.spec_rest() == value@,
    {
        assert(value@.skip(0) =~= value@);
        Self { slice: value, ptr: 0 }
    }
}

impl<'t, T: AbcToken + Clone> TokenStream<T> for SliceTokenStream<'t, T> {
    /// The token under the cursor.
    fn peek_token(&self) -> (tok: Option<&T>)
        ensures
            self.spec_rest().len() == 0 ==> tok.is_none(),
            self.spec_rest().len() > 0 ==> tok == Some(&self.spec_rest()[0]),
    {
        if self.ptr < self.slice.len() {
            Some(&self.slice[self.ptr])
        } else {
            None
        }
    }

    /// The token behind the one under the cursor.
    fn peek2_token(&self) -> (tok: Option<&T>)
        ensures
            self.spec_rest().len() <= 1 ==> tok.is_none(),
            self.spec_rest().len() > 1 ==> tok == Some(&self.spec_rest()[1]),
    {
        if self.ptr < self.slice.len() && self.ptr + 1 < self.slice.len() {
            Some(&self.slice[self.ptr + 1])
        } else {
            None
        }
    }

    /// A clone of the token under the cursor. The cursor stays where it is.
    fn next_token(&mut self) -> (tok: Option<T>)
        ensures
            final(self).spec_rest() == old(self).spec_rest(),
            old(self).spec_rest().len() == 0 ==> tok.is_none(),
            old(self).spec_rest().len() > 0 ==> tok.is_some() && cloned(
                old(self).spec_rest()[0],
                tok.unwrap(),
            ),
    {
        if self.ptr < self.slice.len() {
            Some(self.slice[self.ptr].clone())
        } else {
            None
        }
    }
}

/// A stream over an iterator of tokens, which keeps the tokens that were
/// read ahead in a queue.
pub struct IteratorTokenStream<I, T> {
    iter: I,
    queue: VecDeque<T>,
}

impl<I: Iterator<Item = T>, T: AbcToken> IteratorTokenStream<I, T> {
    /// The tokens that were read ahead, the next one first.
    pub closed spec fn spec_queue(&self) -> Seq<T> {
        self.queue@
    }

    /// The iterator from which further tokens come.
    pub closed spec fn spec_source(&self) -> I {
        self.iter
    }

    /// The stream over `iter`, with up to two tokens read ahead.
    pub fn from_iter(iter: I) -> (stream: Self)
        ensures
            stream.spec_queue().len() <= 2,
            iter.obeys_prophetic_iter_laws() ==> stream.spec_queue() == iter.remaining().take(
                if iter.remaining().len() < 2 {
                    iter.remaining().len() as int
                } else {
                    2
                },
            ) && stream.spec_source().remaining() == iter.remaining().skip(
                stream.spec_queue().len() as int,
            ),
    {
        let mut iter = iter;
        let ghost all = iter.remaining();
        let mut queue: VecDeque<T> = VecDeque::with_capacity(2);
        if let Some(first) = iter.next() {
            queue.push_back(first);
            if let Some(second) = iter.next() {
                queue.push_back(second);
            }
        }
        proof {
            if iter.obeys_prophetic_iter_laws() {
                assert(queue@ =~= all.take(queue@.len() as int));
                assert(iter.remaining() =~= all.skip(queue@.len() as int));
            }
        }
        Self { iter, queue }
    }
}

impl<I: Iterator<Item = T>, T: AbcToken> TokenStream<T> for IteratorTokenStream<I, T> {
    /// The token at the front of the queue.
    fn peek_token(&self) -> (tok: Option<&T>)
        ensures
            self.spec_queue().len() == 0 ==> tok.is_none(),
            self.spec_queue().len() > 0 ==> tok == Some(&self.spec_queue()[0]),
    {
        if self.queue.len() >= 1 {
            Some(&self.queue[0])
        } else {
            None
        }
    }

    /// The second token of the queue.
    fn peek2_token(&self) -> (tok: Option<&T>)
        ensures
            self.spec_queue().len() <= 1 ==> tok.is_none(),
            self.spec_queue().len() > 1 ==> tok == Some(&self.spec_queue()[1]),
    {
        if self.queue.len() >= 2 {
            Some(&self.queue[1])
        } else {
            None
        }
    }

    /// Reads one more token ahead, if the iterator has one, and takes the
    /// token at the front of the queue.
    fn next_token(&mut self) -> (tok: Option<T>)
        ensures
            old(self).spec_source().obeys_prophetic_iter_laws() ==> {
                let ahead = old(self).spec_source().remaining();
                let queue = if ahead.len() > 0 {
                    old(self).spec_queue().push(ahead[0])
                } else {
                    old(self).spec_queue()
                };
                &&& final(self).spec_source().remaining() == if ahead.len() > 0 {
                    ahead.drop_first()
                } else {
                    ahead
                }
                &&& queue.len() == 0 ==> tok.is_none() && final(self).spec_queue() == queue
                &&& queue.len() > 0 ==> tok == Some(queue[0]) && final(self).spec_queue()
                    == queue.drop_first()
            },
    {
        if let Some(v) = self.iter.next() {
            self.queue.push_back(v);
        }
        let ghost queue = self.queue@;
        let tok = self.queue.pop_front();
        proof {
            if queue.len() > 0 {
                assert(self.queue@ =~= queue.drop_first());
            }
        }
        tok
    }
}

} // verus!
