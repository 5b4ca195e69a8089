//! Equality and order of flat copy-on-write values: by the bytes that they
//! stand for, whether borrowed or owned.

use super::bstr::slices_eq;
use super::cow::FlatCow;
use super::order::{lex_rank, rank_bytes, rank_ordering, to_ordering};
use core::cmp::Ordering;
use vstd::prelude::*;
use vstd::string::StringSliceAdditionalSpecFns;

verus! {

impl<'a> FlatCow<'a, [u8]> {
    /// Whether the two values stand for the same bytes.
    pub fn eq(&self, other: &Self) -> (r: bool)
        requires
            self.wf(),
            other.wf(),
        ensures
            r == (self@ == other@),
    {
        slices_eq(self.as_slice(), other.as_slice())
    }

    /// How the bytes of the two values compare, byte by byte.
    pub fn partial_cmp(&self, other: &Self) -> (r: Option<Ordering>)
        requires
            self.wf(),
            other.wf(),
        ensures
            r == Some(rank_ordering(lex_rank(self@, other@))),
    {
        Some(self.cmp(other))
    }

    /// How the bytes of the two values compare, byte by byte.
    pub fn cmp(&self, other: &Self) -> (r: Ordering)
        requires
            self.wf(),
            other.wf(),
        ensures
            r == rank_ordering(lex_rank(self@, other@)),
    {
        to_ordering(rank_bytes(self.as_slice(), other.as_slice()))
    }
}

impl<'a> FlatCow<'a, str> {
    /// Whether the two values stand for the same text.
    pub fn eq(&self, other: &Self) -> (r: bool)
        requires
            self.wf(),
            other.wf(),
        ensures
            r == (self.spec_bytes() == other.spec_bytes()),
            r == (self@ == other@),
    {
        proof {
            vstd::utf8::encode_utf8_decode_utf8(self@);
            vstd::utf8::encode_utf8_decode_utf8(other@);
            self.lemma_bytes_of_text();
            other.lemma_bytes_of_text();
        }
        slices_eq(self.as_str().as_bytes(), other.as_str().as_bytes())
    }

    /// How the texts of the two values compare, byte by byte.
    pub fn partial_cmp(&self, other: &Self) -> (r: Option<Ordering>)
        requires
            self.wf(),
            other.wf(),
        ensures
            r == Some(rank_ordering(lex_rank(self.spec_bytes(), other.spec_bytes()))),
    {
        Some(self.cmp(other))
    }

    /// How the texts of the two values compare, byte by byte.
    pub fn cmp(&self, other: &Self) -> (r: Ordering)
        requires
            self.wf(),
            other.wf(),
        ensures
            r == rank_ordering(lex_rank(self.spec_bytes(), other.spec_bytes())),
    {
        to_ordering(rank_bytes(self.as_str().as_bytes(), other.as_str().as_bytes()))
    }
}

} // verus!
