//! Strings as bytes: the decoding that the standard library does, and
//! slicing by byte positions.

use core::str::Utf8Error;
use std::string::FromUtf8Error;
use vstd::prelude::*;
use vstd::string::StringSliceAdditionalSpecFns;
use vstd::utf8::{decode_utf8, encode_utf8, is_char_boundary, valid_utf8};

verus! {

/// `core::str::Utf8Error`, the error of a failed decoding; nothing is read
/// from it here.
#[verifier::external_type_specification]
#[verifier::external_body]
pub struct ExUtf8Error(Utf8Error);

/// `std::string::FromUtf8Error`, the error of a failed decoding of an owned
/// buffer; nothing is read from it here.
#[verifier::external_type_specification]
#[verifier::external_body]
pub struct ExFromUtf8Error(FromUtf8Error);

/// `core::str::from_utf8`: the bytes as a string slice, which succeeds
/// exactly when they are valid UTF-8; the string then has those bytes.
#[verifier::external_body]
pub(crate) fn str_from_utf8<'b>(bytes: &'b [u8]) -> (res: Result<&'b str, Utf8Error>)
    ensures
        res is Ok <==> valid_utf8(bytes@),
        res matches Ok(s) ==> s.spec_bytes() == bytes@,
{
    core::str::from_utf8(bytes)
}

/// `String::from_utf8`: the bytes as an owned string, which succeeds exactly
/// when they are valid UTF-8; the string then has those bytes.
#[verifier::external_body]
pub(crate) fn string_from_utf8(bytes: Vec<u8>) -> (res: Result<String, FromUtf8Error>)
    ensures
        res is Ok <==> valid_utf8(bytes@),
        res matches Ok(s) ==> encode_utf8(s@) == bytes@,
{
    String::from_utf8(bytes)
}

/// `FromUtf8Error::utf8_error`: the decoding error inside the error of the
/// owned conversion. Nothing is claimed of it.
#[verifier::external_body]
pub(crate) fn utf8_error_of(err: &FromUtf8Error) -> Utf8Error {
    err.utf8_error()
}

/// `String::push`: appends one character to the end of the string.
#[verifier::external_body]
pub(crate) fn string_push(s: &mut String, c: char)
    ensures
        final(s)@ == old(s)@.push(c),
{
    s.push(c)
}

/// A position on a character boundary of valid UTF-8 stays on one when the
/// bytes are cut off at a later boundary.
pub proof fn lemma_boundary_in_prefix(bytes: Seq<u8>, start: int, end: int)
    requires
        valid_utf8(bytes),
        0 <= start <= end <= bytes.len(),
        is_char_boundary(bytes, start),
        is_char_boundary(bytes, end),
    ensures
        valid_utf8(bytes.subrange(0, end)),
        is_char_boundary(bytes.subrange(0, end), start),
{
    let head = bytes.subrange(0, end);
    vstd::utf8::valid_utf8_split(bytes, end);
    if start == end {
        vstd::utf8::is_char_boundary_start_end_of_seq(head);
    } else {
        vstd::utf8::is_char_boundary_iff_not_is_continuation_byte(bytes, start);
        vstd::utf8::is_char_boundary_iff_not_is_continuation_byte(head, start);
    }
}

/// The length of `s` in bytes.
pub fn str_len(s: &str) -> (n: usize)
    ensures
        n == s.spec_bytes().len(),
{
    s.as_bytes().len()
}

/// The part of `root` between the byte positions `start` and `end`, both on
/// character boundaries.
pub fn str_window<'s>(root: &'s str, start: usize, end: usize) -> (s: &'s str)
    requires
        start <= end <= root.spec_bytes().len(),
        is_char_boundary(root.spec_bytes(), start as int),
        is_char_boundary(root.spec_bytes(), end as int),
    ensures
        s.spec_bytes() == root.spec_bytes().subrange(start as int, end as int),
        s@ == decode_utf8(root.spec_bytes().subrange(start as int, end as int)),
{
    proof {
        vstd::utf8::encode_utf8_valid_utf8(root@);
        lemma_boundary_in_prefix(root.spec_bytes(), start as int, end as int);
    }
    let (head, _) = root.split_at(end);
    let (_, mid) = head.split_at(start);
    proof {
        assert(mid.spec_bytes() =~= root.spec_bytes().subrange(start as int, end as int));
        vstd::utf8::encode_utf8_decode_utf8(mid@);
    }
    mid
}

} // verus!
