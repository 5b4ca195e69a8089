//! Recognisers of single bytes and of runs of bytes of one class.

use super::traits::AsByte;
use crate::m6io::utf8::str_from_utf8;
use vstd::prelude::*;
use vstd::string::StringSliceAdditionalSpecFns;
use vstd::utf8::valid_utf8;

verus! {

/// The space.
pub const SP: u8 = 0x20;

/// The horizontal tab.
pub const HTAB: u8 = 0x09;

/// Why a recogniser did not match.
#[derive(Clone, Copy, Debug, PartialEq, Eq, Structural)]
pub enum ErrorKind {
    /// A byte did not satisfy a predicate, or none was left.
    Satisfy,
    /// A byte was none of a list, or none was left.
    OneOf,
    /// No carriage return and line feed.
    CrLf,
    /// A repeated recogniser matched without taking input.
    Many0,
    /// A recogniser that must match once did not.
    Many1,
    /// A repetition was asked for with its least count above its greatest,
    /// or a repeated recogniser matched without taking input.
    ManyMN,
    /// What was recognised could not be turned into a value.
    MapRes,
    /// More input was needed where none can come.
    Complete,
}

/// A mismatch: why, and what was left of the input where it happened.
#[derive(Clone, Copy, Debug)]
pub struct Error<'a> {
    pub input: &'a [u8],
    pub code: ErrorKind,
}

/// How a recogniser failed.
#[derive(Clone, Copy, Debug)]
pub enum ParseErr<'a> {
    /// The input ended too early; so many more bytes are needed.
    Incomplete(usize),
    /// It did not match; another branch may be tried.
    Error(Error<'a>),
    /// It cannot go on; no other branch is tried.
    Failure(Error<'a>),
}

/// What is left of the input with what was recognised, or the failure.
pub type IResult<'a, O> = Result<(&'a [u8], O), ParseErr<'a>>;

/// Whether `b` is a digit, or a letter from `a` to `f` in either case.
pub open spec fn spec_is_hexdig(b: u8) -> bool {
    spec_is_digit(b) || (0x41 <= b <= 0x46) || (0x61 <= b <= 0x66)
}

/// Whether `b` is an ASCII letter.
pub open spec fn spec_is_alpha(b: u8) -> bool {
    (0x61 <= b <= 0x7A) || (0x41 <= b <= 0x5A)
}

/// Whether `b` is a digit from `0` to `9`.
pub open spec fn spec_is_digit(b: u8) -> bool {
    0x30 <= b <= 0x39
}

/// Whether `b` is a printable ASCII character, the space included.
pub open spec fn spec_is_vchar(b: u8) -> bool {
    SP <= b <= 0x7E
}

/// Whether `b` is a space or a horizontal tab.
pub open spec fn spec_is_ws(b: u8) -> bool {
    b == SP || b == HTAB
}

/// Tells whether `b` is a digit in base sixteen.
pub fn is_hexdig<T: AsByte>(b: T) -> (r: bool)
    ensures
        r == spec_is_hexdig(b.spec_as_byte()),
{
    let b: u8 = b.as_byte();
    (0x30 <= b && b <= 0x39) || (0x41 <= b && b <= 0x46) || (0x61 <= b && b <= 0x66)
}

/// Tells whether `b` is an ASCII letter.
pub fn is_alpha<T: AsByte>(b: T) -> (r: bool)
    ensures
        r == spec_is_alpha(b.spec_as_byte()),
{
    let b: u8 = b.as_byte();
    (0x61 <= b && b <= 0x7A) || (0x41 <= b && b <= 0x5A)
}

/// Tells whether `b` is a digit.
pub fn is_digit<T: AsByte>(b: T) -> (r: bool)
    ensures
        r == spec_is_digit(b.spec_as_byte()),
{
    let b: u8 = b.as_byte();
    0x30 <= b && b <= 0x39
}

/// Tells whether `b` is the space.
pub fn is_sp<T: AsByte>(b: T) -> (r: bool)
    ensures
        r == (b.spec_as_byte() == SP),
{
    b.as_byte() == SP
}

/// Tells whether `b` is a printable ASCII character, the space included.
pub fn is_vchar<T: AsByte>(b: T) -> (r: bool)
    ensures
        r == spec_is_vchar(b.spec_as_byte()),
{
    let b: u8 = b.as_byte();
    SP <= b && b <= 0x7E
}

/// Tells whether `b` is the horizontal tab.
pub fn is_htab<T: AsByte>(b: T) -> (r: bool)
    ensures
        r == (b.spec_as_byte() == HTAB),
{
    b.as_byte() == HTAB
}

/// Tells whether `b` is a space or a horizontal tab.
pub fn is_ws<T: AsByte>(b: T) -> (r: bool)
    ensures
        r == spec_is_ws(b.spec_as_byte()),
{
    let b: u8 = b.as_byte();
    b == SP || b == HTAB
}

/// Whether `res` is what the recogniser of one byte gives on `input`, which
/// may go on: the need of one more byte where the input is empty, the first
/// byte and the rest where the byte is `wanted`, else a mismatch with the
/// code `code` on all of the input.
pub open spec fn is_one_byte<'a>(
    input: &'a [u8],
    wanted: spec_fn(u8) -> bool,
    code: ErrorKind,
    res: IResult<'a, u8>,
) -> bool {
    if input@.len() == 0 {
        res matches Err(ParseErr::Incomplete(n)) && n == 1
    } else if wanted(input@[0]) {
        res matches Ok((rest, t)) && t == input@[0] && rest@ == input@.skip(1)
    } else {
        res matches Err(ParseErr::Error(e)) && e.input == input && e.code == code
    }
}

/// The recogniser of one byte that satisfies a predicate.
pub struct Satisfy<F> {
    predicate: F,
    code: ErrorKind,
}

impl<F: Fn(u8) -> bool> Satisfy<F> {
    /// The predicate that a byte must satisfy.
    pub closed spec fn spec_predicate(&self) -> F {
        self.predicate
    }

    /// The code of the mismatch.
    pub closed spec fn spec_code(&self) -> ErrorKind {
        self.code
    }

    /// Takes the first byte of `i` where the predicate holds of it. On
    /// empty input it asks for one more byte if the input is `streaming`,
    /// and reports a mismatch if it is not.
    pub fn process<'a>(&self, i: &'a [u8], streaming: bool) -> (res: IResult<'a, u8>)
        requires
            forall|b: u8| #[trigger] self.spec_predicate().requires((b,)),
        ensures
            match res {
                Ok((rest, t)) => i@.len() > 0 && t == i@[0] && rest@ == i@.skip(1)
                    && self.spec_predicate().ensures((t,), true),
                Err(ParseErr::Incomplete(n)) => i@.len() == 0 && streaming && n == 1,
                Err(ParseErr::Error(e)) => e.input == i && e.code == self.spec_code() && (if i@.len()
                    == 0 {
                    !streaming
                } else {
                    self.spec_predicate().ensures((i@[0],), false)
                }),
                Err(ParseErr::Failure(_)) => false,
            },
    {
        if i.len() == 0 {
            if streaming {
                return Err(ParseErr::Incomplete(1));
            } else {
                return Err(ParseErr::Error(Error { input: i, code: self.code }));
            }
        }
        let t: u8 = i[0];
        assert(self.spec_predicate().requires((t,)));
        let predicate = &self.predicate;
        if predicate(t) {
            Ok((vstd::slice::slice_subrange(i, 1, i.len()), t))
        } else {
            Err(ParseErr::Error(Error { input: i, code: self.code }))
        }
    }
}

/// The recogniser of one byte that satisfies `predicate`.
pub fn satisfy<F: Fn(u8) -> bool>(predicate: F) -> (parser: Satisfy<F>)
    ensures
        parser.spec_predicate() == predicate,
        parser.spec_code() == ErrorKind::Satisfy,
{
    Satisfy { predicate, code: ErrorKind::Satisfy }
}

/// Takes the first byte of `input` where it is `b`.
pub fn byte<'a>(b: u8, input: &'a [u8]) -> (res: IResult<'a, u8>)
    ensures
        is_one_byte(input, |x: u8| x == b, ErrorKind::Satisfy, res),
{
    if input.len() == 0 {
        Err(ParseErr::Incomplete(1))
    } else if input[0] == b {
        Ok((vstd::slice::slice_subrange(input, 1, input.len()), b))
    } else {
        Err(ParseErr::Error(Error { input, code: ErrorKind::Satisfy }))
    }
}

/// Takes the first byte of `input` where it occurs in `list`.
pub fn one_of<'a>(list: &[u8], input: &'a [u8]) -> (res: IResult<'a, u8>)
    ensures
        is_one_byte(input, |x: u8| list@.contains(x), ErrorKind::OneOf, res),
{
    if input.len() == 0 {
        return Err(ParseErr::Incomplete(1));
    }
    let c: u8 = input[0];
    let mut k: usize = 0;
    while k < list.len()
        invariant
            k <= list@.len(),
            input@.len() > 0,
            c == input@[0],
            forall|j: int| 0 <= j < k ==> list@[j] != c,
        decreases list@.len() - k,
    {
        if list[k] == c {
            return Ok((vstd::slice::slice_subrange(input, 1, input.len()), c));
        }
        k += 1;
    }
    Err(ParseErr::Error(Error { input, code: ErrorKind::OneOf }))
}

/// Takes one digit in base sixteen.
pub fn hexdig<'a>(input: &'a [u8]) -> (res: IResult<'a, u8>)
    ensures
        is_one_byte(input, |x: u8| spec_is_hexdig(x), ErrorKind::Satisfy, res),
{
    if input.len() == 0 {
        Err(ParseErr::Incomplete(1))
    } else if is_hexdig(input[0]) {
        Ok((vstd::slice::slice_subrange(input, 1, input.len()), input[0]))
    } else {
        Err(ParseErr::Error(Error { input, code: ErrorKind::Satisfy }))
    }
}

/// Takes one ASCII letter.
pub fn alpha<'a>(input: &'a [u8]) -> (res: IResult<'a, u8>)
    ensures
        is_one_byte(input, |x: u8| spec_is_alpha(x), ErrorKind::Satisfy, res),
{
    if input.len() == 0 {
        Err(ParseErr::Incomplete(1))
    } else if is_alpha(input[0]) {
        Ok((vstd::slice::slice_subrange(input, 1, input.len()), input[0]))
    } else {
        Err(ParseErr::Error(Error { input, code: ErrorKind::Satisfy }))
    }
}

/// Takes one digit.
pub fn digit<'a>(input: &'a [u8]) -> (res: IResult<'a, u8>)
    ensures
        is_one_byte(input, |x: u8| spec_is_digit(x), ErrorKind::Satisfy, res),
{
    if input.len() == 0 {
        Err(ParseErr::Incomplete(1))
    } else if is_digit(input[0]) {
        Ok((vstd::slice::slice_subrange(input, 1, input.len()), input[0]))
    } else {
        Err(ParseErr::Error(Error { input, code: ErrorKind::Satisfy }))
    }
}

/// Takes one space.
pub fn sp<'a>(input: &'a [u8]) -> (res: IResult<'a, u8>)
    ensures
        is_one_byte(input, |x: u8| x == SP, ErrorKind::Satisfy, res),
{
    if input.len() == 0 {
        Err(ParseErr::Incomplete(1))
    } else if is_sp(input[0]) {
        Ok((vstd::slice::slice_subrange(input, 1, input.len()), input[0]))
    } else {
        Err(ParseErr::Error(Error { input, code: ErrorKind::Satisfy }))
    }
}

/// Takes one horizontal tab.
pub fn htab<'a>(input: &'a [u8]) -> (res: IResult<'a, u8>)
    ensures
        is_one_byte(input, |x: u8| x == HTAB, ErrorKind::Satisfy, res),
{
    if input.len() == 0 {
        Err(ParseErr::Incomplete(1))
    } else if is_htab(input[0]) {
        Ok((vstd::slice::slice_subrange(input, 1, input.len()), input[0]))
    } else {
        Err(ParseErr::Error(Error { input, code: ErrorKind::Satisfy }))
    }
}

/// Takes one space or horizontal tab.
///
/// ```abnf
/// ws = SP / HTAB
/// ```
pub fn ws<'a>(input: &'a [u8]) -> (res: IResult<'a, u8>)
    ensures
        is_one_byte(input, |x: u8| spec_is_ws(x), ErrorKind::Satisfy, res),
{
    if input.len() == 0 {
        Err(ParseErr::Incomplete(1))
    } else if is_ws(input[0]) {
        Ok((vstd::slice::slice_subrange(input, 1, input.len()), input[0]))
    } else {
        Err(ParseErr::Error(Error { input, code: ErrorKind::Satisfy }))
    }
}

/// The length of the longest front of `s` whose bytes are all `wanted`.
pub open spec fn spec_run_len(s: Seq<u8>, wanted: spec_fn(u8) -> bool) -> nat
    decreases s.len(),
{
    if s.len() > 0 && wanted(s[0]) {
        1 + spec_run_len(s.skip(1), wanted)
    } else {
        0
    }
}

/// A front of `k` wanted bytes that ends at the end of `s` or before a byte
/// of another kind is the longest such front.
pub proof fn lemma_run_len(s: Seq<u8>, wanted: spec_fn(u8) -> bool, k: int)
    requires
        0 <= k <= s.len(),
        forall|i: int| 0 <= i < k ==> wanted(s[i]),
        k < s.len() ==> !wanted(s[k]),
    ensures
        spec_run_len(s, wanted) == k,
    decreases k,
{
    if k > 0 {
        lemma_run_len(s.skip(1), wanted, k - 1);
    }
}

/// Whether `res` is the longest front of `input` made of wanted bytes, with
/// what follows it: a front of at least `least` bytes, else a mismatch at
/// the head of the input, of the byte there or for want of one.
pub open spec fn is_run<'a>(
    input: &'a [u8],
    wanted: spec_fn(u8) -> bool,
    least: nat,
    res: IResult<'a, &'a [u8]>,
) -> bool {
    let n = spec_run_len(input@, wanted);
    if n >= least {
        res matches Ok((rest, run)) && run@ == input@.take(n as int) && rest@ == input@.skip(
            n as int,
        )
    } else {
        res matches Err(ParseErr::Error(e)) && e.input == input && e.code == if input@.len() == 0 {
            ErrorKind::Complete
        } else {
            ErrorKind::Satisfy
        }
    }
}

/// The longest front of `input` whose bytes all satisfy `wanted`, where it
/// has `least` bytes or more.
fn run_of<'a, F: Fn(u8) -> bool>(
    input: &'a [u8],
    wanted: F,
    Ghost(class): Ghost<spec_fn(u8) -> bool>,
    least: usize,
) -> (res: IResult<'a, &'a [u8]>)
    requires
        least <= 1,
        forall|b: u8| #[trigger] wanted.requires((b,)),
        forall|b: u8, r: bool| #[trigger] wanted.ensures((b,), r) ==> r == class(b),
    ensures
        is_run(input, class, least as nat, res),
{
    let n: usize = input.len();
    let mut k: usize = 0;
    let mut done: bool = false;
    while k < n && !done
        invariant
            k <= n == input@.len(),
            forall|b: u8| #[trigger] wanted.requires((b,)),
            forall|b: u8, r: bool| #[trigger] wanted.ensures((b,), r) ==> r == class(b),
            forall|i: int| 0 <= i < k ==> class(input@[i]),
            done ==> k < n && !class(input@[k as int]),
        decreases n - k + if done { 0int } else { 1int },
    {
        if wanted(input[k]) {
            k += 1;
        } else {
            done = true;
        }
    }
    proof {
        lemma_run_len(input@, class, k as int);
    }
    if k < least {
        let code = if n == 0 {
            ErrorKind::Complete
        } else {
            ErrorKind::Satisfy
        };
        return Err(ParseErr::Error(Error { input, code }));
    }
    Ok((vstd::slice::slice_subrange(input, k, n), vstd::slice::slice_subrange(input, 0, k)))
}

/// The digits at the front of `input`, which may be none.
pub fn digit0<'a>(input: &'a [u8]) -> (res: IResult<'a, &'a [u8]>)
    ensures
        is_run(input, |x: u8| spec_is_digit(x), 0, res),
{
    run_of(input, is_digit::<u8>, Ghost(|x: u8| spec_is_digit(x)), 0)
}

/// The digits at the front of `input`, at least one.
pub fn digit1<'a>(input: &'a [u8]) -> (res: IResult<'a, &'a [u8]>)
    ensures
        is_run(input, |x: u8| spec_is_digit(x), 1, res),
{
    run_of(input, is_digit::<u8>, Ghost(|x: u8| spec_is_digit(x)), 1)
}

/// The letters at the front of `input`, which may be none.
pub fn alpha0<'a>(input: &'a [u8]) -> (res: IResult<'a, &'a [u8]>)
    ensures
        is_run(input, |x: u8| spec_is_alpha(x), 0, res),
{
    run_of(input, is_alpha::<u8>, Ghost(|x: u8| spec_is_alpha(x)), 0)
}

/// The letters at the front of `input`, at least one.
pub fn alpha1<'a>(input: &'a [u8]) -> (res: IResult<'a, &'a [u8]>)
    ensures
        is_run(input, |x: u8| spec_is_alpha(x), 1, res),
{
    run_of(input, is_alpha::<u8>, Ghost(|x: u8| spec_is_alpha(x)), 1)
}

/// The digits in base sixteen at the front of `input`, which may be none.
pub fn hexdig0<'a>(input: &'a [u8]) -> (res: IResult<'a, &'a [u8]>)
    ensures
        is_run(input, |x: u8| spec_is_hexdig(x), 0, res),
{
    run_of(input, is_hexdig::<u8>, Ghost(|x: u8| spec_is_hexdig(x)), 0)
}

/// The digits in base sixteen at the front of `input`, at least one.
pub fn hexdig1<'a>(input: &'a [u8]) -> (res: IResult<'a, &'a [u8]>)
    ensures
        is_run(input, |x: u8| spec_is_hexdig(x), 1, res),
{
    run_of(input, is_hexdig::<u8>, Ghost(|x: u8| spec_is_hexdig(x)), 1)
}

/// Takes a carriage return and a line feed. Where the input ends before
/// both are read, one more byte is needed. A mismatch tells where it
/// happened: at the head of the input, or behind the carriage return.
pub fn crlf<'a>(input: &'a [u8]) -> (res: IResult<'a, &'a [u8]>)
    ensures
        match res {
            Ok((rest, line_end)) => input@.len() >= 2 && input@[0] == 0x0D && input@[1] == 0x0A
                && line_end@ == input@.take(2) && rest@ == input@.skip(2),
            Err(ParseErr::Incomplete(n)) => n == 1 && (input@.len() == 0 || (input@.len() == 1
                && input@[0] == 0x0D)),
            Err(ParseErr::Error(e)) => e.code == ErrorKind::CrLf && input@.len() > 0 && if input@[0]
                == 0x0D {
                input@.len() >= 2 && input@[1] != 0x0A && e.input@ == input@.skip(1)
            } else {
                e.input == input
            },
            Err(ParseErr::Failure(_)) => false,
        },
{
    match byte(0x0D, input) {
        Ok((after_cr, _)) => match byte(0x0A, after_cr) {
            Ok((rest, _)) => {
                proof {
                    assert(rest@ =~= input@.skip(2));
                }
                Ok((rest, vstd::slice::slice_subrange(input, 0, 2)))
            },
            Err(ParseErr::Incomplete(n)) => Err(ParseErr::Incomplete(n)),
            Err(_) => Err(ParseErr::Error(Error { input: after_cr, code: ErrorKind::CrLf })),
        },
        Err(ParseErr::Incomplete(n)) => Err(ParseErr::Incomplete(n)),
        Err(_) => Err(ParseErr::Error(Error { input, code: ErrorKind::CrLf })),
    }
}

/// The number that the digits `s` write in base ten.
pub open spec fn spec_decimal(s: Seq<u8>) -> nat
    decreases s.len(),
{
    if s.len() == 0 {
        0
    } else {
        spec_decimal(s.drop_last()) * 10 + (s.last() - 0x30) as nat
    }
}

/// Whether all bytes of `s` are digits.
pub open spec fn spec_all_digits(s: Seq<u8>) -> bool {
    forall|i: int| 0 <= i < s.len() ==> spec_is_digit(#[trigger] s[i])
}

/// The digits of `s` behind an optional plus sign.
pub open spec fn spec_unsigned_digits(s: Seq<u8>) -> Seq<u8> {
    if s.len() > 0 && s[0] == 0x2B {
        s.skip(1)
    } else {
        s
    }
}

/// The number that `s` writes, where it writes one that fits 64 bits: a
/// plus sign or none, then one digit or more.
pub open spec fn spec_parse_u64(s: Seq<u8>) -> Option<u64> {
    let digits = spec_unsigned_digits(s);
    if digits.len() > 0 && spec_all_digits(digits) && spec_decimal(digits) <= u64::MAX {
        Some(spec_decimal(digits) as u64)
    } else {
        None
    }
}

/// A number does not get smaller when more digits are written behind it.
pub proof fn lemma_decimal_prefix(s: Seq<u8>, k: int)
    requires
        0 <= k <= s.len(),
        spec_all_digits(s),
    ensures
        spec_decimal(s.take(k)) <= spec_decimal(s),
    decreases s.len() - k,
{
    if k < s.len() {
        lemma_decimal_prefix(s.drop_last(), k);
        assert(s.drop_last().take(k) =~= s.take(k));
        assert(spec_is_digit(s[s.len() - 1]));
    } else {
        assert(s.take(k) =~= s);
    }
}

/// Reads `input` as `u64::from_str` reads a string: a plus sign or none,
/// then digits in base ten; `None` for anything else and for a number that
/// does not fit.
pub fn safe_as_str_parse(input: &[u8]) -> (res: Option<u64>)
    ensures
        res == spec_parse_u64(input@),
{
    let n: usize = input.len();
    let from: usize = if n > 0 && input[0] == 0x2B {
        1
    } else {
        0
    };
    let ghost digits = spec_unsigned_digits(input@);
    assert(digits =~= input@.skip(from as int));
    if from == n {
        return None;
    }
    let mut acc: u64 = 0;
    let mut k: usize = from;
    while k < n
        invariant
            from <= k <= n == input@.len(),
            from < n,
            digits == input@.skip(from as int),
            digits == spec_unsigned_digits(input@),
            spec_all_digits(digits.take(k - from)),
            acc == spec_decimal(digits.take(k - from)),
        decreases n - k,
    {
        let b: u8 = input[k];
        let ghost upto = digits.take(k - from + 1);
        proof {
            assert(upto.drop_last() =~= digits.take(k - from));
            assert(upto.last() == b);
        }
        if !(0x30 <= b && b <= 0x39) {
            assert(!spec_is_digit(digits[k - from]));
            return None;
        }
        let d: u64 = (b - 0x30) as u64;
        proof {
            assert(spec_all_digits(upto)) by {
                assert forall|i: int| 0 <= i < upto.len() implies spec_is_digit(
                    #[trigger] upto[i],
                ) by {
                    if i < upto.len() - 1 {
                        assert(upto[i] == digits.take(k - from)[i]);
                    }
                }
            }
            if spec_all_digits(digits) {
                lemma_decimal_prefix(digits, k - from + 1);
            }
        }
        match acc.checked_mul(10) {
            Some(tens) => match tens.checked_add(d) {
                Some(next) => {
                    acc = next;
                },
                None => {
                    return None;
                },
            },
            None => {
                return None;
            },
        }
        k += 1;
    }
    assert(digits.take(n - from) =~= digits);
    Some(acc)
}

/// The bytes as a string slice; they are valid UTF-8.
pub fn safe_as_str<'i>(input: &'i [u8]) -> (s: &'i str)
    requires
        valid_utf8(input@),
    ensures
        s.spec_bytes() == input@,
{
    match str_from_utf8(input) {
        Ok(s) => s,
        Err(_) => unreached(),
    }
}

/// The bytes as an owned string; they are valid UTF-8.
pub fn safe_to_string(input: &[u8]) -> (s: String)
    requires
        valid_utf8(input@),
    ensures
        vstd::utf8::encode_utf8(s@) == input@,
{
    safe_as_str(input).to_owned()
}

/// The bytes as an owned string, or `None` where there is no byte; they are
/// valid UTF-8.
pub fn safe_to_opt_string(input: &[u8]) -> (res: Option<String>)
    requires
        valid_utf8(input@),
    ensures
        input@.len() == 0 ==> res.is_none(),
        input@.len() > 0 ==> (res matches Some(s) && vstd::utf8::encode_utf8(s@) == input@),
{
    let s = safe_to_string(input);
    if input.len() == 0 {
        None
    } else {
        Some(s)
    }
}

/// Whether `res` is the number that the digits at the front of `input`
/// write, with what follows them: a mismatch at the head of the input where
/// no digit stands there, and a mismatch of the code `MapRes` where the
/// number does not fit 64 bits.
pub open spec fn is_digit1_as_u64<'a>(input: &'a [u8], res: IResult<'a, u64>) -> bool {
    let n = spec_run_len(input@, |x: u8| spec_is_digit(x));
    if n == 0 {
        res matches Err(ParseErr::Error(e)) && e.input == input && e.code == if input@.len() == 0 {
            ErrorKind::Complete
        } else {
            ErrorKind::Satisfy
        }
    } else {
        match spec_parse_u64(input@.take(n as int)) {
            Some(value) => res matches Ok((rest, v)) && v == value && rest@ == input@.skip(n as int),
            None => res matches Err(ParseErr::Error(e)) && e.input == input && e.code
                == ErrorKind::MapRes,
        }
    }
}

/// The digits at the front of `input`, at least one, as the number that
/// they write.
pub fn digit1_as_u64<'a>(input: &'a [u8]) -> (res: IResult<'a, u64>)
    ensures
        is_digit1_as_u64(input, res),
{
    match digit1(input) {
        Ok((rest, run)) => match safe_as_str_parse(run) {
            Some(value) => Ok((rest, value)),
            None => Err(ParseErr::Error(Error { input, code: ErrorKind::MapRes })),
        },
        Err(e) => Err(e),
    }
}

} // verus!
