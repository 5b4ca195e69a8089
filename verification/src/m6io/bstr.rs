//! Byte strings: a borrowed view of bytes and its owned counterpart, with
//! trimming, searching and decoding.

use super::order::{lex_rank, rank_bytes, rank_ordering, to_ordering};
use super::utf8::{str_from_utf8, string_from_utf8, string_push};
use core::cmp::Ordering;
use crate::m6bitmap::BitMap;
use core::str::Utf8Error;
use std::string::FromUtf8Error;
use vstd::prelude::*;
use vstd::std_specs::cmp::{PartialEqSpecImpl, PartialOrdSpecImpl};
use vstd::string::StringExecFns;
use vstd::string::StringSliceAdditionalSpecFns;
use vstd::utf8::{encode_utf8, valid_utf8};

verus! {

/// Whether `b` is ASCII white space: space, tab, line feed, form feed or
/// carriage return.
pub open spec fn spec_is_ascii_whitespace(b: u8) -> bool {
    b == 0x20 || b == 0x09 || b == 0x0A || b == 0x0C || b == 0x0D
}

/// Tells whether `b` is ASCII white space.
pub fn is_ascii_whitespace(b: u8) -> (r: bool)
    ensures
        r == spec_is_ascii_whitespace(b),
{
    b == 0x20 || b == 0x09 || b == 0x0A || b == 0x0C || b == 0x0D
}

/// `b` with an ASCII capital letter made small.
pub open spec fn spec_ascii_lower(b: u8) -> u8 {
    if 0x41 <= b <= 0x5A {
        (b + 0x20) as u8
    } else {
        b
    }
}

/// Makes an ASCII capital letter small and leaves every other byte alone.
pub fn ascii_lower(b: u8) -> (r: u8)
    ensures
        r == spec_ascii_lower(b),
{
    if 0x41 <= b && b <= 0x5A {
        b + 0x20
    } else {
        b
    }
}

/// The number of leading bytes of `s` that are white space.
pub open spec fn spec_leading_ws(s: Seq<u8>) -> nat
    decreases s.len(),
{
    if s.len() > 0 && spec_is_ascii_whitespace(s[0]) {
        1 + spec_leading_ws(s.skip(1))
    } else {
        0
    }
}

/// The number of trailing bytes of `s` that are white space.
pub open spec fn spec_trailing_ws(s: Seq<u8>) -> nat
    decreases s.len(),
{
    if s.len() > 0 && spec_is_ascii_whitespace(s.last()) {
        1 + spec_trailing_ws(s.drop_last())
    } else {
        0
    }
}

/// `s` without its leading white space.
pub open spec fn spec_trim_start(s: Seq<u8>) -> Seq<u8> {
    s.skip(spec_leading_ws(s) as int)
}

/// `s` without its trailing white space.
pub open spec fn spec_trim_end(s: Seq<u8>) -> Seq<u8> {
    s.take(s.len() - spec_trailing_ws(s))
}

/// `s` without white space at either end.
pub open spec fn spec_trim(s: Seq<u8>) -> Seq<u8> {
    spec_trim_end(spec_trim_start(s))
}

/// The leading white space is a run of `k` white-space bytes that ends at
/// the end of `s` or before a byte of another kind.
pub proof fn lemma_leading_ws(s: Seq<u8>, k: int)
    requires
        0 <= k <= s.len(),
        forall|i: int| 0 <= i < k ==> spec_is_ascii_whitespace(s[i]),
        k < s.len() ==> !spec_is_ascii_whitespace(s[k]),
    ensures
        spec_leading_ws(s) == k,
    decreases k,
{
    if k > 0 {
        lemma_leading_ws(s.skip(1), k - 1);
    }
}

/// The trailing white space is a run of `k` white-space bytes that starts
/// at the start of `s` or after a byte of another kind.
pub proof fn lemma_trailing_ws(s: Seq<u8>, k: int)
    requires
        0 <= k <= s.len(),
        forall|i: int| s.len() - k <= i < s.len() ==> spec_is_ascii_whitespace(s[i]),
        k < s.len() ==> !spec_is_ascii_whitespace(s[s.len() - k - 1]),
    ensures
        spec_trailing_ws(s) == k,
    decreases k,
{
    if k > 0 {
        lemma_trailing_ws(s.drop_last(), k - 1);
    }
}

/// Whether `pat` stands in `hay` at position `i`.
pub open spec fn occurs_at(hay: Seq<u8>, pat: Seq<u8>, i: int) -> bool {
    &&& 0 <= i
    &&& i + pat.len() <= hay.len()
    &&& hay.subrange(i, i + pat.len()) == pat
}

/// Whether `r` is the answer to the search for `pat` in `hay`: the leftmost
/// position at which it stands, or `None` when it stands nowhere.
pub open spec fn is_leftmost(hay: Seq<u8>, pat: Seq<u8>, r: Option<usize>) -> bool {
    match r {
        Some(i) => occurs_at(hay, pat, i as int) && forall|j: int|
            0 <= j < i ==> !occurs_at(hay, pat, j),
        None => forall|j: int| !occurs_at(hay, pat, j),
    }
}

/// Something that can be searched for: it stands for a run of bytes.
pub trait Pattern {
    /// The bytes searched for.
    spec fn spec_pattern(&self) -> Seq<u8>;

    /// The bytes searched for.
    fn as_bytes(&self) -> (b: &[u8])
        ensures
            b@ == self.spec_pattern(),
    ;

    /// The number of bytes searched for.
    fn len(&self) -> (n: usize)
        ensures
            n == self.spec_pattern().len(),
    {
        self.as_bytes().len()
    }

    /// Whether nothing is searched for.
    fn is_empty(&self) -> (b: bool)
        ensures
            b == (self.spec_pattern().len() == 0),
    {
        self.as_bytes().len() == 0
    }
}

/// A borrowed run of bytes read as text.
#[derive(Clone, Copy, Debug, Eq, Ord, Hash)]
pub struct ByteStr<'a> {
    value: &'a [u8],
}

/// An owned run of bytes read as text.
#[derive(Clone, Debug, Eq, Ord, Hash)]
pub struct ByteString {
    value: Vec<u8>,
}

impl<'a> View for ByteStr<'a> {
    type V = Seq<u8>;

    closed spec fn view(&self) -> Seq<u8> {
        self.value@
    }
}

impl View for ByteString {
    type V = Seq<u8>;

    closed spec fn view(&self) -> Seq<u8> {
        self.value@
    }
}

impl<'a> Pattern for ByteStr<'a> {
    open spec fn spec_pattern(&self) -> Seq<u8> {
        self@
    }

    fn as_bytes(&self) -> (b: &[u8]) {
        self.value
    }
}

impl Pattern for ByteString {
    open spec fn spec_pattern(&self) -> Seq<u8> {
        self@
    }

    fn as_bytes(&self) -> (b: &[u8]) {
        self.value.as_slice()
    }
}

impl<'a> Pattern for &'a [u8] {
    open spec fn spec_pattern(&self) -> Seq<u8> {
        self@
    }

    fn as_bytes(&self) -> (b: &[u8]) {
        *self
    }
}

impl Pattern for Vec<u8> {
    open spec fn spec_pattern(&self) -> Seq<u8> {
        self@
    }

    fn as_bytes(&self) -> (b: &[u8]) {
        self.as_slice()
    }
}

impl<'a> Pattern for &'a str {
    open spec fn spec_pattern(&self) -> Seq<u8> {
        self.spec_bytes()
    }

    fn as_bytes(&self) -> (b: &[u8]) {
        str::as_bytes(*self)
    }
}

impl<'a> ByteStr<'a> {
    /// The view of `slice` as text.
    pub fn from_bytes(slice: &'a [u8]) -> (s: Self)
        ensures
            s@ == slice@,
    {
        ByteStr { value: slice }
    }

    /// The view of `bytes` as text.
    pub fn new(bytes: &'a [u8]) -> (s: Self)
        ensures
            s@ == bytes@,
    {
        ByteStr::from_bytes(bytes)
    }

    /// The bytes.
    pub fn as_slice(&self) -> (b: &'a [u8])
        ensures
            b@ == self@,
    {
        self.value
    }

    /// The number of bytes.
    pub fn len(&self) -> (n: usize)
        ensures
            n == self@.len(),
    {
        self.value.len()
    }

    /// Whether there is no byte.
    pub fn is_empty(&self) -> (b: bool)
        ensures
            b == (self@.len() == 0),
    {
        self.value.len() == 0
    }

    /// The byte at position `i`.
    pub fn get(&self, i: usize) -> (b: u8)
        requires
            i < self@.len(),
        ensures
            b == self@[i as int],
    {
        self.value[i]
    }

    /// The bytes from position `start` up to, not including, position `end`.
    pub fn slice(&self, start: usize, end: usize) -> (s: Self)
        requires
            start <= end <= self@.len(),
        ensures
            s@ == self@.subrange(start as int, end as int),
    {
        ByteStr { value: vstd::slice::slice_subrange(self.value, start, end) }
    }

    /// The part before position `mid` and the part from it on.
    pub fn split_at(&self, mid: usize) -> (parts: (Self, Self))
        requires
            mid <= self@.len(),
        ensures
            parts.0@ == self@.take(mid as int),
            parts.1@ == self@.skip(mid as int),
    {
        let (left, right) = self.value.split_at(mid);
        (ByteStr::from_bytes(left), ByteStr::from_bytes(right))
    }

    /// The text without leading white space.
    pub fn trim_start(&self) -> (s: Self)
        ensures
            s@ == spec_trim_start(self@),
    {
        let n: usize = self.value.len();
        let mut pos: usize = 0;
        while pos < n && is_ascii_whitespace(self.value[pos])
            invariant
                pos <= n == self.value@.len(),
                forall|i: int| 0 <= i < pos ==> spec_is_ascii_whitespace(self.value@[i]),
            decreases n - pos,
        {
            pos += 1;
        }
        proof {
            lemma_leading_ws(self.value@, pos as int);
        }
        self.slice(pos, n)
    }

    /// The text without trailing white space.
    pub fn trim_end(&self) -> (s: Self)
        ensures
            s@ == spec_trim_end(self@),
    {
        let n: usize = self.value.len();
        let mut end: usize = n;
        while end > 0 && is_ascii_whitespace(self.value[end - 1])
            invariant
                end <= n == self.value@.len(),
                forall|i: int| end <= i < n ==> spec_is_ascii_whitespace(self.value@[i]),
            decreases end,
        {
            end -= 1;
        }
        proof {
            lemma_trailing_ws(self.value@, n - end);
        }
        self.slice(0, end)
    }

    /// The text without white space at either end.
    pub fn trim(&self) -> (s: Self)
        ensures
            s@ == spec_trim(self@),
    {
        self.trim_start().trim_end()
    }

    /// The text as a string slice, which succeeds exactly when the bytes
    /// are valid UTF-8.
    pub fn decode_as_utf8(&self) -> (res: Result<&'a str, Utf8Error>)
        ensures
            res is Ok <==> valid_utf8(self@),
            res matches Ok(s) ==> s.spec_bytes() == self@,
    {
        str_from_utf8(self.value)
    }

    /// Whether the two texts are the same but for the case of ASCII
    /// letters.
    pub fn eq_ignore_ascii_case(&self, other: &Self) -> (r: bool)
        ensures
            r == (self@.map_values(|b: u8| spec_ascii_lower(b)) == other@.map_values(
                |b: u8| spec_ascii_lower(b),
            )),
    {
        let ghost lf = self@.map_values(|b: u8| spec_ascii_lower(b));
        let ghost rh = other@.map_values(|b: u8| spec_ascii_lower(b));
        if self.value.len() != other.value.len() {
            assert(lf.len() != rh.len());
            return false;
        }
        let n: usize = self.value.len();
        let mut i: usize = 0;
        while i < n
            invariant
                i <= n,
                n == self.value@.len() == other.value@.len(),
                lf == self@.map_values(|b: u8| spec_ascii_lower(b)),
                rh == other@.map_values(|b: u8| spec_ascii_lower(b)),
                forall|k: int| 0 <= k < i ==> lf[k] == rh[k],
            decreases n - i,
        {
            if ascii_lower(self.value[i]) != ascii_lower(other.value[i]) {
                assert(lf[i as int] != rh[i as int]);
                return false;
            }
            i += 1;
        }
        assert(lf =~= rh);
        true
    }

    /// Whether the two texts hold the same bytes.
    pub fn eq_bytes(&self, other: &[u8]) -> (r: bool)
        ensures
            r == (self@ == other@),
    {
        if self.value.len() != other.len() {
            assert(self@.len() != other@.len());
            return false;
        }
        let n: usize = self.value.len();
        let mut i: usize = 0;
        while i < n
            invariant
                i <= n,
                n == self.value@.len() == other@.len(),
                forall|k: int| 0 <= k < i ==> self.value@[k] == other@[k],
            decreases n - i,
        {
            if self.value[i] != other[i] {
                return false;
            }
            i += 1;
        }
        assert(self@ =~= other@);
        true
    }
}

/// Where `pat` stands in `hay`, each of its bytes is found in place.
pub proof fn lemma_occurs_at_index(hay: Seq<u8>, pat: Seq<u8>, p: int, k: int)
    requires
        occurs_at(hay, pat, p),
        0 <= k < pat.len(),
    ensures
        hay[p + k] == pat[k],
{
    assert(hay.subrange(p, p + pat.len())[k] == hay[p + k]);
}

/// Whether `pat` stands at no position of `hay` below `bound`.
pub open spec fn no_occurrence_below(hay: Seq<u8>, pat: Seq<u8>, bound: int) -> bool {
    forall|p: int| 0 <= p < bound ==> !occurs_at(hay, pat, p)
}

/// Whether two slices hold the same bytes.
pub fn slices_eq(a: &[u8], b: &[u8]) -> (r: bool)
    ensures
        r == (a@ == b@),
{
    if a.len() != b.len() {
        assert(a@.len() != b@.len());
        return false;
    }
    let n: usize = a.len();
    let mut i: usize = 0;
    while i < n
        invariant
            i <= n,
            n == a@.len() == b@.len(),
            forall|k: int| 0 <= k < i ==> a@[k] == b@[k],
        decreases n - i,
    {
        if a[i] != b[i] {
            return false;
        }
        i += 1;
    }
    assert(a@ =~= b@);
    true
}

/// The table of the bytes that occur in `bytes`, and the distance by which a
/// window whose last byte matched may be moved on: the distance from the
/// last byte of `bytes` back to the nearest earlier byte equal to it, or the
/// whole length where there is none.
pub fn build_searcher(bytes: &[u8]) -> (res: (BitMap, usize))
    requires
        bytes@.len() > 0,
    ensures
        res.0@.len() == 256,
        forall|c: u8| #[trigger] res.0@[c as int] == bytes@.contains(c),
        1 <= res.1 <= bytes@.len(),
        forall|j: int|
            0 <= j < bytes@.len() - 1 && bytes@.len() - 1 - res.1 < j ==> #[trigger] bytes@[j]
                != bytes@.last(),
{
    let mut alphabet = BitMap::new(256);
    let lastpos: usize = bytes.len() - 1;
    let lastc: u8 = bytes[lastpos];
    let mut skip: usize = bytes.len();
    let mut i: usize = 0;
    while i < lastpos
        invariant
            i <= lastpos == bytes@.len() - 1,
            lastc == bytes@[lastpos as int],
            alphabet@.len() == 256,
            forall|c: u8| #[trigger] alphabet@[c as int] == bytes@.take(i as int).contains(c),
            1 <= skip <= bytes@.len(),
            forall|j: int| 0 <= j < i && bytes@[j] == lastc ==> skip <= lastpos - j,
        decreases lastpos - i,
    {
        let c: u8 = bytes[i];
        let ghost before = alphabet@;
        alphabet.set(c as usize);
        if c == lastc {
            skip = lastpos - i;
        }
        proof {
            assert forall|x: u8| #[trigger] alphabet@[x as int] == bytes@.take(i + 1).contains(
                x,
            ) by {
                let now = bytes@.take(i + 1);
                let was = bytes@.take(i as int);
                if was.contains(x) {
                    let k = choose|k: int| 0 <= k < was.len() && was[k] == x;
                    assert(now[k] == x);
                }
                if x == c {
                    assert(now[i as int] == x);
                }
                if now.contains(x) && x != c {
                    let k = choose|k: int| 0 <= k < now.len() && now[k] == x;
                    assert(was[k] == x);
                }
            }
        }
        i += 1;
    }
    let ghost before = alphabet@;
    alphabet.set(lastc as usize);
    proof {
        assert forall|x: u8| #[trigger] alphabet@[x as int] == bytes@.contains(x) by {
            let was = bytes@.take(lastpos as int);
            if was.contains(x) {
                let k = choose|k: int| 0 <= k < was.len() && was[k] == x;
                assert(bytes@[k] == x);
            }
            if x == lastc {
                assert(bytes@[lastpos as int] == x);
            }
            if bytes@.contains(x) && x != lastc {
                let k = choose|k: int| 0 <= k < bytes@.len() && bytes@[k] == x;
                assert(was[k] == x);
            }
        }
    }
    (alphabet, skip)
}

impl<'a> ByteStr<'a> {
    /// The leftmost position at which `pat` stands in the text, if it stands
    /// anywhere. The empty pattern stands at position 0.
    pub fn find<P: Pattern>(&self, pat: P) -> (r: Option<usize>)
        ensures
            is_leftmost(self@, pat.spec_pattern(), r),
    {
        let ghost needle = pat.spec_pattern();
        let pattern: &[u8] = pat.as_bytes();
        let string: &[u8] = self.value;
        let ghost hay = string@;
        if pattern.len() == 0 {
            assert(hay.subrange(0, 0) =~= needle);
            return Some(0);
        } else if pattern.len() == 1 {
            let mut k: usize = 0;
            while k < string.len()
                invariant
                    k <= string@.len(),
                    hay == string@,
                hay == self@,
                    needle == pattern@,
                needle == pat.spec_pattern(),
                    pattern@.len() == 1,
                    no_occurrence_below(hay, needle, k as int),
                decreases string@.len() - k,
            {
                if string[k] == pattern[0] {
                    assert(hay.subrange(k as int, k + 1) =~= needle);
                    return Some(k);
                }
                proof {
                    if occurs_at(hay, needle, k as int) {
                        lemma_occurs_at_index(hay, needle, k as int, 0);
                    }
                }
                k += 1;
            }
            return None;
        }
        let (patalphabet, skip) = build_searcher(pattern);
        let stringlen: usize = string.len();
        let patlen: usize = pattern.len();
        let patlastpos: usize = patlen - 1;
        let mut i: usize = patlastpos;
        while i < stringlen
            invariant
                hay == string@,
                hay == self@,
                needle == pattern@,
                needle == pat.spec_pattern(),
                stringlen == hay.len(),
                patlen == needle.len(),
                patlen >= 2,
                patlastpos == patlen - 1,
                patlastpos <= i,
                patalphabet@.len() == 256,
                forall|c: u8| #[trigger] patalphabet@[c as int] == needle.contains(c),
                1 <= skip <= patlen,
                forall|j: int|
                    0 <= j < patlastpos && patlastpos - skip < j ==> #[trigger] needle[j]
                        != needle.last(),
                no_occurrence_below(hay, needle, i - patlastpos),
            decreases stringlen - i,
        {
            let start: usize = i - patlastpos;
            let last_matches: bool = string[i] == pattern[patlastpos];
            if last_matches {
                if slices_eq(
                    vstd::slice::slice_subrange(string, start, i),
                    vstd::slice::slice_subrange(pattern, 0, patlastpos),
                ) {
                    proof {
                        let found = hay.subrange(start as int, start + patlen);
                        assert forall|k: int| 0 <= k < patlen implies found[k] == needle[k] by {
                            if k < patlastpos {
                                assert(hay.subrange(start as int, i as int)[k] == needle.subrange(
                                    0,
                                    patlastpos as int,
                                )[k]);
                            }
                        }
                        assert(found =~= needle);
                    }
                    return Some(start);
                }
                proof {
                    if occurs_at(hay, needle, start as int) {
                        assert forall|k: int| 0 <= k < patlastpos implies hay.subrange(
                            start as int,
                            i as int,
                        )[k] == needle.subrange(0, patlastpos as int)[k] by {
                            lemma_occurs_at_index(hay, needle, start as int, k);
                        }
                        assert(hay.subrange(start as int, i as int) =~= needle.subrange(
                            0,
                            patlastpos as int,
                        ));
                    }
                }
            } else {
                proof {
                    if occurs_at(hay, needle, start as int) {
                        lemma_occurs_at_index(hay, needle, start as int, patlastpos as int);
                    }
                }
            }
            assert(no_occurrence_below(hay, needle, start + 1));
            if i + 1 == stringlen {
                return None;
            }
            // the number of positions behind `i`
            let rem: usize = stringlen - i - 1;
            if !patalphabet.test(string[i + 1] as usize) {
                // no window holds the byte behind `i`
                proof {
                    assert forall|p: int| start < p <= i + 1 implies !occurs_at(hay, needle, p) by {
                        if occurs_at(hay, needle, p) {
                            lemma_occurs_at_index(hay, needle, p, i + 1 - p);
                            assert(needle.contains(hay[i + 1]));
                        }
                    }
                    assert(no_occurrence_below(hay, needle, i + 2));
                }
                if patlen >= rem {
                    return None;
                }
                i += patlen + 1;
            } else if last_matches {
                // the last byte of the pattern stands under `i`
                proof {
                    assert forall|p: int| start < p < start + skip implies !occurs_at(
                        hay,
                        needle,
                        p,
                    ) by {
                        if occurs_at(hay, needle, p) {
                            lemma_occurs_at_index(hay, needle, p, i - p);
                        }
                    }
                    assert(no_occurrence_below(hay, needle, start + skip));
                }
                if skip > rem {
                    return None;
                }
                i += skip;
            } else {
                i += 1;
            }
        }
        None
    }
}

impl ByteString {
    /// The empty text.
    pub fn new() -> (s: Self)
        ensures
            s@ == Seq::<u8>::empty(),
    {
        ByteString { value: Vec::new() }
    }

    /// The empty text, with room for `capacity` bytes.
    pub fn with_capacity(capacity: usize) -> (s: Self)
        ensures
            s@ == Seq::<u8>::empty(),
    {
        ByteString { value: Vec::with_capacity(capacity) }
    }

    /// The text that owns `value`.
    pub fn from_vec(value: Vec<u8>) -> (s: Self)
        ensures
            s@ == value@,
    {
        ByteString { value }
    }

    /// The text that holds a copy of `value`.
    pub fn from_slice(value: &[u8]) -> (s: Self)
        ensures
            s@ == value@,
    {
        ByteString { value: vstd::slice::slice_to_vec(value) }
    }

    /// Gives the text up for its bytes.
    pub fn into_vec(self) -> (v: Vec<u8>)
        ensures
            v@ == self@,
    {
        self.value
    }

    /// The number of bytes.
    pub fn len(&self) -> (n: usize)
        ensures
            n == self@.len(),
    {
        self.value.len()
    }

    /// Whether there is no byte.
    pub fn is_empty(&self) -> (b: bool)
        ensures
            b == (self@.len() == 0),
    {
        self.value.len() == 0
    }

    /// Appends one byte.
    pub fn push(&mut self, value: u8)
        ensures
            final(self)@ == old(self)@.push(value),
    {
        self.value.push(value)
    }

    /// Appends the bytes of `value`.
    pub fn push_str(&mut self, value: &ByteStr)
        ensures
            final(self)@ == old(self)@ + value@,
    {
        let bytes = value.as_slice();
        let mut i: usize = 0;
        while i < bytes.len()
            invariant
                i <= bytes@.len(),
                bytes@ == value@,
                self.value@ == old(self).value@ + bytes@.take(i as int),
            decreases bytes@.len() - i,
        {
            self.value.push(bytes[i]);
            assert(self.value@ =~= old(self).value@ + bytes@.take(i + 1));
            i += 1;
        }
        assert(bytes@.take(bytes@.len() as int) =~= bytes@);
    }

    /// Appends each byte of `bytes`.
    pub fn extend(&mut self, bytes: &[u8])
        ensures
            final(self)@ == old(self)@ + bytes@,
    {
        self.push_str(&ByteStr::from_bytes(bytes));
    }

    /// Cuts the text at position `at`: the part from `at` on is returned,
    /// the part before it stays.
    pub fn split_off(&mut self, at: usize) -> (tail: Self)
        requires
            at <= old(self)@.len(),
        ensures
            final(self)@ == old(self)@.take(at as int),
            tail@ == old(self)@.skip(at as int),
    {
        ByteString { value: self.value.split_off(at) }
    }

    /// The text as an owned string, which succeeds exactly when the bytes
    /// are valid UTF-8.
    pub fn decode_into_utf8(self) -> (res: Result<String, FromUtf8Error>)
        ensures
            res is Ok <==> valid_utf8(self@),
            res matches Ok(s) ==> encode_utf8(s@) == self@,
    {
        string_from_utf8(self.value)
    }

    /// The borrowed view of the text.
    pub fn as_bstr(&self) -> (s: ByteStr<'_>)
        ensures
            s@ == self@,
    {
        ByteStr::from_bytes(self.value.as_slice())
    }
}

impl<'a> ByteStr<'a> {
    /// An owned copy of the text.
    pub fn to_owned(&self) -> (s: ByteString)
        ensures
            s@ == self@,
    {
        ByteString::from_slice(self.value)
    }
}

/// A value that can be read off the front of a byte string, telling how
/// many bytes it took.
pub trait ConsumeByteStr: Sized {
    /// What a failed reading reports.
    type Err;

    /// The value at the front of `bytes`, and the number of bytes read.
    fn consume_bstr(bytes: &ByteStr) -> Result<(Self, usize), Self::Err>;
}

/// A value that can be read from a byte string.
pub trait FromByteStr: Sized {
    /// What a failed reading reports.
    type Err;

    /// The value that `bytes` spell.
    fn from_bstr(bytes: &ByteStr) -> Result<Self, Self::Err>;
}

/// A value that can be read off the front of a flat copy-on-write byte
/// slice, telling how many bytes it took.
pub trait ConsumeBytesAs: Sized {
    /// What a failed reading reports.
    type Err;

    /// The value at the front of `bytes`, and the number of bytes read.
    fn consume_bytes_as(bytes: &super::cow::FlatCow<[u8]>) -> Result<(Self, usize), Self::Err>;
}

/// A value that can be read from a flat copy-on-write byte slice.
pub trait FromBytesAs: Sized {
    /// What a failed reading reports.
    type Err;

    /// The value that `bytes` spell.
    fn from_bytes_as(bytes: &super::cow::FlatCow<[u8]>) -> Result<Self, Self::Err>;
}

/// Reading a whole value is reading it off the front and dropping the count.
pub fn from_consumed<T, E>(consumed: Result<(T, usize), E>) -> (res: Result<T, E>)
    ensures
        res == match consumed {
            Ok((it, _)) => Ok::<T, E>(it),
            Err(e) => Err::<T, E>(e),
        },
{
    match consumed {
        Ok((it, _offset)) => Ok(it),
        Err(e) => Err(e),
    }
}

impl<T: ConsumeByteStr> FromByteStr for T {
    type Err = T::Err;

    fn from_bstr(bytes: &ByteStr) -> (res: Result<Self, Self::Err>)
        ensures
            exists|consumed: Result<(Self, usize), Self::Err>|
                #[trigger] call_ensures(T::consume_bstr, (bytes,), consumed) && res == match consumed {
                    Ok((it, _)) => Ok::<Self, Self::Err>(it),
                    Err(e) => Err::<Self, Self::Err>(e),
                },
    {
        from_consumed(T::consume_bstr(bytes))
    }
}

impl<T: ConsumeBytesAs> FromBytesAs for T {
    type Err = T::Err;

    fn from_bytes_as(bytes: &super::cow::FlatCow<[u8]>) -> (res: Result<Self, Self::Err>)
        ensures
            exists|consumed: Result<(Self, usize), Self::Err>|
                #[trigger] call_ensures(T::consume_bytes_as, (bytes,), consumed) && res
                    == match consumed {
                    Ok((it, _)) => Ok::<Self, Self::Err>(it),
                    Err(e) => Err::<Self, Self::Err>(e),
                },
    {
        from_consumed(T::consume_bytes_as(bytes))
    }
}

impl<'a> ByteStr<'a> {
    /// Reads a value of type `F` from the text.
    pub fn parse<F: FromByteStr>(&self) -> (res: Result<F, F::Err>)
        ensures
            call_ensures(F::from_bstr, (self,), res),
    {
        F::from_bstr(self)
    }
}

/// A value that can write itself out as bytes.
pub trait WriteIntoBytes {
    /// The bytes that the value writes.
    spec fn spec_written(&self) -> Seq<u8>;

    /// Appends the bytes of the value to `w` and returns their number.
    fn write_into_bytes(&self, w: &mut Vec<u8>) -> (n: usize)
        ensures
            final(w)@ == old(w)@ + self.spec_written(),
            n == self.spec_written().len(),
    ;
}

/// A value that can give itself as an owned byte string.
pub trait ToByteString {
    /// The bytes of the text that the value gives.
    spec fn spec_bstring(&self) -> Seq<u8>;

    /// The value as an owned byte string.
    fn to_bstring(&self) -> (s: ByteString)
        ensures
            s@ == self.spec_bstring(),
    ;
}

impl<T: Pattern> WriteIntoBytes for T {
    open spec fn spec_written(&self) -> Seq<u8> {
        self.spec_pattern()
    }

    fn write_into_bytes(&self, w: &mut Vec<u8>) -> (n: usize) {
        let bytes = self.as_bytes();
        let n: usize = bytes.len();
        let mut i: usize = 0;
        while i < n
            invariant
                i <= n == bytes@.len(),
                w@ == old(w)@ + bytes@.take(i as int),
            decreases n - i,
        {
            w.push(bytes[i]);
            assert(w@ =~= old(w)@ + bytes@.take(i + 1));
            i += 1;
        }
        assert(bytes@.take(n as int) =~= bytes@);
        n
    }
}

impl<T: WriteIntoBytes> ToByteString for T {
    open spec fn spec_bstring(&self) -> Seq<u8> {
        self.spec_written()
    }

    fn to_bstring(&self) -> (s: ByteString) {
        let mut cursor: Vec<u8> = Vec::new();
        let _ = self.write_into_bytes(&mut cursor);
        assert(cursor@ =~= self.spec_written());
        ByteString::from_vec(cursor)
    }
}

/// The name under which a control byte is shown: a backslash and the
/// abbreviation of the control character. Byte 127 is shown as `DEL`.
pub open spec fn spec_control_name(b: u8) -> Seq<char>
    recommends
        b < 32 || b == 127,
{
    match b {
        0u8 => "\\NUL"@,
        1u8 => "\\SOH"@,
        2u8 => "\\STX"@,
        3u8 => "\\ETX"@,
        4u8 => "\\EOT"@,
        5u8 => "\\ENQ"@,
        6u8 => "\\ACK"@,
        7u8 => "\\BEL"@,
        8u8 => "\\BS"@,
        9u8 => "\\HT"@,
        10u8 => "\\LF"@,
        11u8 => "\\VT"@,
        12u8 => "\\FF"@,
        13u8 => "\\CR"@,
        14u8 => "\\SO"@,
        15u8 => "\\SI"@,
        16u8 => "\\DLE"@,
        17u8 => "\\DC1"@,
        18u8 => "\\DC2"@,
        19u8 => "\\DC3"@,
        20u8 => "\\DC4"@,
        21u8 => "\\NAK"@,
        22u8 => "\\SYN"@,
        23u8 => "\\ETB"@,
        24u8 => "\\CAN"@,
        25u8 => "\\EM"@,
        26u8 => "\\SUB"@,
        27u8 => "\\ESC"@,
        28u8 => "\\FS"@,
        29u8 => "\\GS"@,
        30u8 => "\\RS"@,
        31u8 => "\\US"@,
        _ => "DEL"@,
    }
}

/// The digit that shows `n` in base sixteen, with capital letters.
pub open spec fn spec_hex_upper(n: u8) -> char
    recommends
        n < 16,
{
    if n < 10 {
        (0x30 + n) as u8 as char
    } else {
        (0x37 + n) as u8 as char
    }
}

/// How one byte is shown: a control byte by its name, a printable ASCII byte
/// as itself, and a byte from 128 on as `\x` and its two digits in base
/// sixteen.
pub open spec fn spec_pretty_u8(b: u8) -> Seq<char> {
    if b < 32 || b == 127 {
        spec_control_name(b)
    } else if b < 127 {
        seq![b as char]
    } else {
        "\\x"@ + seq![spec_hex_upper(b / 16), spec_hex_upper(b % 16)]
    }
}

/// How a run of bytes is shown: each byte in turn.
pub open spec fn spec_pretty(bytes: Seq<u8>) -> Seq<char>
    decreases bytes.len(),
{
    if bytes.len() == 0 {
        Seq::empty()
    } else {
        spec_pretty(bytes.drop_last()) + spec_pretty_u8(bytes.last())
    }
}

/// The name under which the control byte `b` is shown.
fn control_name(b: u8) -> (name: &'static str)
    requires
        b < 32 || b == 127,
    ensures
        name@ == spec_control_name(b),
{
    match b {
        0 => "\\NUL",
        1 => "\\SOH",
        2 => "\\STX",
        3 => "\\ETX",
        4 => "\\EOT",
        5 => "\\ENQ",
        6 => "\\ACK",
        7 => "\\BEL",
        8 => "\\BS",
        9 => "\\HT",
        10 => "\\LF",
        11 => "\\VT",
        12 => "\\FF",
        13 => "\\CR",
        14 => "\\SO",
        15 => "\\SI",
        16 => "\\DLE",
        17 => "\\DC1",
        18 => "\\DC2",
        19 => "\\DC3",
        20 => "\\DC4",
        21 => "\\NAK",
        22 => "\\SYN",
        23 => "\\ETB",
        24 => "\\CAN",
        25 => "\\EM",
        26 => "\\SUB",
        27 => "\\ESC",
        28 => "\\FS",
        29 => "\\GS",
        30 => "\\RS",
        31 => "\\US",
        _ => "DEL",
    }
}

/// The digit that shows `n` in base sixteen, with capital letters.
fn hex_upper(n: u8) -> (c: char)
    requires
        n < 16,
    ensures
        c == spec_hex_upper(n),
{
    if n < 10 {
        (0x30 + n) as char
    } else {
        (0x37 + n) as char
    }
}

/// Appends to `f` the way `b` is shown.
pub fn pretty_debug_u8(f: &mut String, b: u8)
    ensures
        final(f)@ == old(f)@ + spec_pretty_u8(b),
{
    if b < 32 || b == 127 {
        f.append(control_name(b));
    } else if b < 127 {
        string_push(f, b as char);
        assert(f@ =~= old(f)@ + seq![b as char]);
    } else {
        f.append("\\x");
        string_push(f, hex_upper(b / 16));
        string_push(f, hex_upper(b % 16));
        assert(f@ =~= old(f)@ + ("\\x"@ + seq![spec_hex_upper(b / 16), spec_hex_upper(b % 16)]));
    }
}

impl<'a> ByteStr<'a> {
    /// The text for display: each byte as `pretty_debug_u8` shows it.
    pub fn to_pretty_string(&self) -> (s: String)
        ensures
            s@ == spec_pretty(self@),
    {
        let mut out = String::new();
        let mut i: usize = 0;
        while i < self.value.len()
            invariant
                i <= self.value@.len(),
                out@ == spec_pretty(self.value@.take(i as int)),
            decreases self.value@.len() - i,
        {
            pretty_debug_u8(&mut out, self.value[i]);
            proof {
                let next = self.value@.take(i + 1);
                assert(next.drop_last() =~= self.value@.take(i as int));
            }
            i += 1;
        }
        assert(self.value@.take(self.value@.len() as int) =~= self.value@);
        out
    }

    /// The text for debugging: the display text between `b"` and `" `.
    pub fn to_debug_string(&self) -> (s: String)
        ensures
            s@ == "b\""@ + spec_pretty(self@) + "\" "@,
    {
        let mut out = String::new();
        out.append("b\"");
        out.append(self.to_pretty_string().as_str());
        out.append("\" ");
        assert(out@ =~= "b\""@ + spec_pretty(self@) + "\" "@);
        out
    }
}

impl ByteString {
    /// The text for display: each byte as `pretty_debug_u8` shows it.
    pub fn to_pretty_string(&self) -> (s: String)
        ensures
            s@ == spec_pretty(self@),
    {
        self.as_bstr().to_pretty_string()
    }

    /// The text for debugging: the display text between `b"` and `" `.
    pub fn to_debug_string(&self) -> (s: String)
        ensures
            s@ == "b\""@ + spec_pretty(self@) + "\" "@,
    {
        self.as_bstr().to_debug_string()
    }
}

/// A borrowed run of bytes read as text, for writing.
pub struct ByteStrMut<'a> {
    pub value: &'a mut [u8],
}

impl<'a> ByteStrMut<'a> {
    /// The part before position `mid` and the part from it on, each for
    /// writing: what is written through the parts is written to the whole.
    pub fn split_at_mut(self, mid: usize) -> (parts: (ByteStrMut<'a>, ByteStrMut<'a>))
        requires
            mid <= old(self.value)@.len(),
        ensures
            parts.0.value@ == old(self.value)@.take(mid as int),
            parts.1.value@ == old(self.value)@.skip(mid as int),
            final(self.value)@ == final(parts.0.value)@ + final(parts.1.value)@,
    {
        let (left, right) = self.value.split_at_mut(mid);
        (ByteStrMut { value: left }, ByteStrMut { value: right })
    }
}

impl<'a> ByteStr<'a> {
    /// The view of `bytes` as text, for writing: what is written through
    /// the view is written to `bytes`.
    pub fn new_mut(bytes: &'a mut [u8]) -> (s: ByteStrMut<'a>)
        ensures
            s.value@ == old(bytes)@,
            final(s.value)@ == final(bytes)@,
    {
        ByteStrMut { value: bytes }
    }

    /// The view of `slice` as text, for writing: what is written through
    /// the view is written to `slice`.
    pub fn from_bytes_mut(slice: &'a mut [u8]) -> (s: ByteStrMut<'a>)
        ensures
            s.value@ == old(slice)@,
            final(s.value)@ == final(slice)@,
    {
        ByteStrMut { value: slice }
    }
}

impl From<Vec<u8>> for ByteString {
    /// The text that owns `value`.
    fn from(value: Vec<u8>) -> (s: Self)
        ensures
            s@ == value@,
    {
        ByteString { value }
    }
}

impl vstd::std_specs::convert::FromSpecImpl<Vec<u8>> for ByteString {
    open spec fn obeys_from_spec() -> bool {
        true
    }

    closed spec fn from_spec(value: Vec<u8>) -> Self {
        ByteString { value }
    }
}

impl From<&[u8]> for ByteString {
    /// The text that holds a copy of `value`.
    fn from(value: &[u8]) -> (s: Self)
        ensures
            s@ == value@,
    {
        ByteString::from_slice(value)
    }
}

impl vstd::std_specs::convert::FromSpecImpl<&[u8]> for ByteString {
    open spec fn obeys_from_spec() -> bool {
        false
    }

    closed spec fn from_spec(value: &[u8]) -> Self {
        arbitrary()
    }
}

impl<'a> From<&'a [u8]> for ByteStr<'a> {
    /// The view of `value` as text.
    fn from(value: &'a [u8]) -> (s: Self)
        ensures
            s@ == value@,
    {
        ByteStr { value }
    }
}

impl<'a> vstd::std_specs::convert::FromSpecImpl<&'a [u8]> for ByteStr<'a> {
    open spec fn obeys_from_spec() -> bool {
        true
    }

    closed spec fn from_spec(value: &'a [u8]) -> Self {
        ByteStr { value }
    }
}

impl<'a> PartialEq for ByteStr<'a> {
    /// Two texts are equal when they hold the same bytes.
    fn eq(&self, other: &Self) -> (r: bool) {
        slices_eq(self.value, other.value)
    }
}

impl<'a> PartialEqSpecImpl for ByteStr<'a> {
    open spec fn obeys_eq_spec() -> bool {
        true
    }

    open spec fn eq_spec(&self, other: &Self) -> bool {
        self@ == other@
    }
}

impl<'a> PartialOrd for ByteStr<'a> {
    /// Texts are ordered byte by byte, a proper prefix first.
    fn partial_cmp(&self, other: &Self) -> (r: Option<Ordering>) {
        Some(to_ordering(rank_bytes(self.value, other.value)))
    }
}

impl<'a> PartialOrdSpecImpl for ByteStr<'a> {
    open spec fn obeys_partial_cmp_spec() -> bool {
        true
    }

    open spec fn partial_cmp_spec(&self, other: &Self) -> Option<Ordering> {
        Some(rank_ordering(lex_rank(self@, other@)))
    }
}

impl PartialEq for ByteString {
    /// Two texts are equal when they hold the same bytes.
    fn eq(&self, other: &Self) -> (r: bool) {
        slices_eq(self.value.as_slice(), other.value.as_slice())
    }
}

impl PartialEqSpecImpl for ByteString {
    open spec fn obeys_eq_spec() -> bool {
        true
    }

    open spec fn eq_spec(&self, other: &Self) -> bool {
        self@ == other@
    }
}

impl PartialOrd for ByteString {
    /// Texts are ordered byte by byte, a proper prefix first.
    fn partial_cmp(&self, other: &Self) -> (r: Option<Ordering>) {
        Some(to_ordering(rank_bytes(self.value.as_slice(), other.value.as_slice())))
    }
}

impl PartialOrdSpecImpl for ByteString {
    open spec fn obeys_partial_cmp_spec() -> bool {
        true
    }

    open spec fn partial_cmp_spec(&self, other: &Self) -> Option<Ordering> {
        Some(rank_ordering(lex_rank(self@, other@)))
    }
}

} // verus!
