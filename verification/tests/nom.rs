use m6coll::m6io::nom::byte::{
    alpha, alpha0, alpha1, byte, crlf, digit, digit0, digit1, digit1_as_u64, hexdig, hexdig0,
    hexdig1, htab, is_alpha, is_digit, is_hexdig, is_htab, is_sp, is_vchar, is_ws, one_of,
    safe_as_str, safe_as_str_parse, safe_to_opt_string, safe_to_string, satisfy, sp, ws, Error,
    ErrorKind, IResult, ParseErr, HTAB, SP,
};
use m6coll::m6io::nom::combinator::{
    complete, empty, on_guard_fold_many0, on_guard_fold_many1, on_guard_many0, on_guard_many1,
    on_guard_many_m_n, on_guard_opt, opt_of,
};
use m6coll::m6io::nom::traits::AsByte;

fn mismatch<'a, O>(res: IResult<'a, O>) -> (&'a [u8], ErrorKind) {
    match res {
        Err(ParseErr::Error(Error { input, code })) => (input, code),
        Err(ParseErr::Failure(_)) => panic!("a failure"),
        Err(ParseErr::Incomplete(_)) => panic!("incomplete"),
        Ok(_) => panic!("a match"),
    }
}

fn needed<'a, O>(res: IResult<'a, O>) -> usize {
    match res {
        Err(ParseErr::Incomplete(n)) => n,
        _ => panic!("not incomplete"),
    }
}

#[test]
fn test_satisfy() {
    println!("{:?}", ws(b""));
    println!("{:?}", ws(b"\t "));

    println!("{}", ' ' as u8);

    assert_eq!(needed(ws(b"")), 1);
    assert_eq!(ws(b"\t ").unwrap(), (&b" "[..], b'\t'));
}

#[test]
fn test_satisfy_byte() {}

#[test]
fn classes_of_bytes() {
    for b in 0..=255u8 {
        assert_eq!(is_hexdig(b), b.is_ascii_hexdigit());
        assert_eq!(is_alpha(b), b.is_ascii_alphabetic());
        assert_eq!(is_digit(b), b.is_ascii_digit());
        assert_eq!(is_sp(b), b == b' ');
        assert_eq!(is_htab(b), b == b'\t');
        assert_eq!(is_ws(b), b == b' ' || b == b'\t');
        assert_eq!(is_vchar(b), (32..=126).contains(&b));
    }
    assert_eq!((SP, HTAB), (32, 9));
    assert!(is_digit('7'));
    assert!(is_alpha(&b'q'));
    assert_eq!('A'.as_byte(), 65);
    assert_eq!('\u{141}'.as_byte(), 0x41);
    assert_eq!((&7u8).as_byte(), 7);
}

#[test]
fn single_bytes() {
    assert_eq!(digit(b"12").unwrap(), (&b"2"[..], b'1'));
    assert_eq!(mismatch(digit(b"a2")), (&b"a2"[..], ErrorKind::Satisfy));
    assert_eq!(needed(digit(b"")), 1);
    assert_eq!(alpha(b"a2").unwrap(), (&b"2"[..], b'a'));
    assert_eq!(mismatch(alpha(b"2")), (&b"2"[..], ErrorKind::Satisfy));
    assert_eq!(hexdig(b"F").unwrap(), (&b""[..], b'F'));
    assert_eq!(mismatch(hexdig(b"g")), (&b"g"[..], ErrorKind::Satisfy));
    assert_eq!(sp(b" x").unwrap(), (&b"x"[..], b' '));
    assert_eq!(mismatch(sp(b"\t")), (&b"\t"[..], ErrorKind::Satisfy));
    assert_eq!(htab(b"\tx").unwrap(), (&b"x"[..], b'\t'));
    assert_eq!(mismatch(htab(b" ")), (&b" "[..], ErrorKind::Satisfy));
    assert_eq!(needed(alpha(b"")), 1);
    assert_eq!(needed(hexdig(b"")), 1);
    assert_eq!(needed(sp(b"")), 1);
    assert_eq!(needed(htab(b"")), 1);
    assert_eq!(byte(b'x', b"xy").unwrap(), (&b"y"[..], b'x'));
    assert_eq!(mismatch(byte(b'x', b"yx")), (&b"yx"[..], ErrorKind::Satisfy));
    assert_eq!(needed(byte(b'x', b"")), 1);
    assert_eq!(one_of(b"abc", b"cx").unwrap(), (&b"x"[..], b'c'));
    assert_eq!(mismatch(one_of(b"abc", b"dx")), (&b"dx"[..], ErrorKind::OneOf));
    assert_eq!(mismatch(one_of(b"", b"dx")), (&b"dx"[..], ErrorKind::OneOf));
    assert_eq!(needed(one_of(b"abc", b"")), 1);
}

#[test]
fn satisfy_in_both_modes() {
    let even = satisfy(|b: u8| b % 2 == 0);
    assert_eq!(even.process(b"\x02\x03", true).unwrap(), (&b"\x03"[..], 2));
    assert_eq!(mismatch(even.process(b"\x03", true)), (&b"\x03"[..], ErrorKind::Satisfy));
    assert_eq!(needed(even.process(b"", true)), 1);
    assert_eq!(mismatch(even.process(b"", false)), (&b""[..], ErrorKind::Satisfy));
}

#[test]
fn runs_of_bytes() {
    assert_eq!(digit0(b"123ab").unwrap(), (&b"ab"[..], &b"123"[..]));
    assert_eq!(digit0(b"ab").unwrap(), (&b"ab"[..], &b""[..]));
    assert_eq!(digit0(b"").unwrap(), (&b""[..], &b""[..]));
    assert_eq!(digit1(b"123").unwrap(), (&b""[..], &b"123"[..]));
    assert_eq!(mismatch(digit1(b"ab")), (&b"ab"[..], ErrorKind::Satisfy));
    assert_eq!(mismatch(digit1(b"")), (&b""[..], ErrorKind::Complete));
    assert_eq!(alpha0(b"ab1").unwrap(), (&b"1"[..], &b"ab"[..]));
    assert_eq!(alpha1(b"Zz9").unwrap(), (&b"9"[..], &b"Zz"[..]));
    assert_eq!(mismatch(alpha1(b"9")), (&b"9"[..], ErrorKind::Satisfy));
    assert_eq!(hexdig0(b"1aFg").unwrap(), (&b"g"[..], &b"1aF"[..]));
    assert_eq!(hexdig1(b"beef!").unwrap(), (&b"!"[..], &b"beef"[..]));
    assert_eq!(mismatch(hexdig1(b"!")), (&b"!"[..], ErrorKind::Satisfy));
    assert_eq!(mismatch(hexdig1(b"")), (&b""[..], ErrorKind::Complete));
}

#[test]
fn line_ends() {
    assert_eq!(crlf(b"\r\nab").unwrap(), (&b"ab"[..], &b"\r\n"[..]));
    assert_eq!(mismatch(crlf(b"ab")), (&b"ab"[..], ErrorKind::CrLf));
    assert_eq!(mismatch(crlf(b"\rab")), (&b"ab"[..], ErrorKind::CrLf));
    assert_eq!(mismatch(crlf(b"\n")), (&b"\n"[..], ErrorKind::CrLf));
    assert_eq!(needed(crlf(b"")), 1);
    assert_eq!(needed(crlf(b"\r")), 1);
}

#[test]
fn numbers() {
    assert_eq!(digit1_as_u64(b"0042 ").unwrap(), (&b" "[..], 42));
    assert_eq!(digit1_as_u64(b"18446744073709551615").unwrap(), (&b""[..], u64::MAX));
    assert_eq!(
        mismatch(digit1_as_u64(b"18446744073709551616x")),
        (&b"18446744073709551616x"[..], ErrorKind::MapRes)
    );
    assert_eq!(mismatch(digit1_as_u64(b"x1")), (&b"x1"[..], ErrorKind::Satisfy));
    assert_eq!(mismatch(digit1_as_u64(b"")), (&b""[..], ErrorKind::Complete));
    for text in ["0", "7", "+7", "007", "", "+", "-1", "1a", "a", " 1", "18446744073709551615",
        "18446744073709551616", "99999999999999999999999", "+18446744073709551615", "++1", "1+"]
    {
        assert_eq!(safe_as_str_parse(text.as_bytes()), text.parse::<u64>().ok(), "{:?}", text);
    }
}

#[test]
fn strings_from_bytes() {
    assert_eq!(safe_as_str("añ".as_bytes()), "añ");
    assert_eq!(safe_to_string("añ".as_bytes()), "añ");
    assert_eq!(safe_to_opt_string(b"x"), Some(String::from("x")));
    assert_eq!(safe_to_opt_string(b""), None);
}

#[test]
fn complete_and_optional() {
    let more: IResult<u8> = Err(ParseErr::Incomplete(3));
    assert_eq!(mismatch(complete(b"ab", more)), (&b"ab"[..], ErrorKind::Complete));
    assert_eq!(complete(b"ab", digit(b"1")).unwrap(), (&b""[..], b'1'));
    assert_eq!(mismatch(complete(b"a", digit(b"a"))), (&b"a"[..], ErrorKind::Satisfy));
    assert_eq!(empty(b"abc").unwrap(), (&b"abc"[..], &b""[..]));
    assert_eq!(opt_of(b"1a", digit(b"1a")).unwrap(), (&b"a"[..], Some(b'1')));
    assert_eq!(opt_of(b"a", digit(b"a")).unwrap(), (&b"a"[..], None));
    assert_eq!(opt_of(b"", digit(b"")).unwrap(), (&b""[..], None));
    let failed: IResult<u8> = Err(ParseErr::Failure(Error { input: b"z", code: ErrorKind::OneOf }));
    assert!(matches!(opt_of(b"z", failed), Err(ParseErr::Failure(_))));
    assert_eq!(on_guard_opt(&digit, b"9x").unwrap(), (&b"x"[..], Some(b'9')));
    assert_eq!(on_guard_opt(&digit, b"x").unwrap(), (&b"x"[..], None));
}

fn stuck<'a>(input: &'a [u8]) -> IResult<'a, u8> {
    Ok((input, 0))
}

fn broken<'a>(input: &'a [u8]) -> IResult<'a, u8> {
    if input.first() == Some(&b'!') {
        Err(ParseErr::Failure(Error { input, code: ErrorKind::OneOf }))
    } else {
        digit(input)
    }
}

#[test]
fn repetitions() {
    assert_eq!(on_guard_many0(&digit, b"12a").unwrap(), (&b"a"[..], vec![b'1', b'2']));
    assert_eq!(on_guard_many0(&digit, b"a").unwrap(), (&b"a"[..], vec![]));
    assert_eq!(on_guard_many0(&digit, b"12").unwrap(), (&b""[..], vec![b'1', b'2']));
    assert_eq!(mismatch(on_guard_many0(&stuck, b"ab")), (&b"ab"[..], ErrorKind::Many0));
    assert!(matches!(on_guard_many0(&broken, b"1!"), Err(ParseErr::Failure(_))));

    assert_eq!(on_guard_many1(&digit, b"12a").unwrap(), (&b"a"[..], vec![b'1', b'2']));
    assert_eq!(mismatch(on_guard_many1(&digit, b"a")), (&b"a"[..], ErrorKind::Satisfy));
    assert_eq!(mismatch(on_guard_many1(&digit, b"")), (&b""[..], ErrorKind::Complete));
    assert_eq!(mismatch(on_guard_many1(&stuck, b"ab")), (&b"ab"[..], ErrorKind::Many0));
    assert!(matches!(on_guard_many1(&broken, b"!"), Err(ParseErr::Failure(_))));

    assert_eq!(on_guard_many_m_n(1, 2, &digit, b"123").unwrap(), (&b"3"[..], vec![b'1', b'2']));
    assert_eq!(on_guard_many_m_n(0, 2, &digit, b"a").unwrap(), (&b"a"[..], vec![]));
    assert_eq!(on_guard_many_m_n(0, 0, &digit, b"1").unwrap(), (&b"1"[..], vec![]));
    assert_eq!(on_guard_many_m_n(2, 3, &digit, b"12a").unwrap(), (&b"a"[..], vec![b'1', b'2']));
    assert_eq!(mismatch(on_guard_many_m_n(2, 3, &digit, b"1a")), (&b"a"[..], ErrorKind::Satisfy));
    assert_eq!(mismatch(on_guard_many_m_n(1, 3, &stuck, b"a")), (&b"a"[..], ErrorKind::ManyMN));
    match on_guard_many_m_n(3, 2, &digit, b"123") {
        Err(ParseErr::Failure(e)) => assert_eq!((e.input, e.code), (&b"123"[..], ErrorKind::ManyMN)),
        _ => panic!("no failure"),
    }
    assert!(matches!(on_guard_many_m_n(0, 3, &broken, b"1!"), Err(ParseErr::Failure(_))));
}

#[test]
fn foldings() {
    let zero = || 0u32;
    let add = |acc: u32, d: u8| acc * 10 + (d - b'0') as u32;
    assert_eq!(on_guard_fold_many0(&digit, &zero, &add, b"123x").unwrap(), (&b"x"[..], 123));
    assert_eq!(on_guard_fold_many0(&digit, &zero, &add, b"x").unwrap(), (&b"x"[..], 0));
    assert_eq!(
        mismatch(on_guard_fold_many0(&stuck, &zero, &add, b"x")),
        (&b"x"[..], ErrorKind::Many0)
    );
    assert!(matches!(
        on_guard_fold_many0(&broken, &zero, &add, b"1!"),
        Err(ParseErr::Failure(_))
    ));
    assert_eq!(on_guard_fold_many1(&digit, &zero, &add, b"45").unwrap(), (&b""[..], 45));
    assert_eq!(
        mismatch(on_guard_fold_many1(&digit, &zero, &add, b"x")),
        (&b"x"[..], ErrorKind::Many1)
    );
    assert_eq!(
        mismatch(on_guard_fold_many1(&digit, &zero, &add, b"")),
        (&b""[..], ErrorKind::Many1)
    );
    let count = |acc: u32, _: u8| acc + 1;
    assert_eq!(
        mismatch(on_guard_fold_many1(&stuck, &zero, &count, b"ab")),
        (&b"ab"[..], ErrorKind::Many1)
    );
    assert!(matches!(
        on_guard_fold_many1(&broken, &zero, &add, b"!"),
        Err(ParseErr::Failure(_))
    ));
}
