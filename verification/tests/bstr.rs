use m6coll::m6io::bstr::{
    ascii_lower, build_searcher, is_ascii_whitespace, pretty_debug_u8, slices_eq, ByteStr,
    ByteString, ConsumeByteStr, Pattern, ToByteString, WriteIntoBytes,
};
use std::cmp::Ordering;

#[test]
fn test_pretty_print_u8() {
    let text = ByteStr::new("a\u{AF}\u{0}".as_bytes()).to_debug_string();
    println!("{}", text);
    assert_eq!(text, "b\"a\\xC2\\xAF\\NUL\" ");
}

#[test]
fn bstr_test_partial_eq() {
    let a = ByteStr::new(b"abc");
    let b = b"abc";

    assert!(a.eq_bytes(b));
    assert_eq!(&b[..], a.as_slice());
    assert_eq!(b, a.as_slice());

    assert!(ByteStr::new("\r\n".as_bytes()).eq_bytes(b"\r\n"));
}

#[test]
fn bstr_test_find() {
    let haystack = ByteStr::new(b"abcde");
    let needle = ByteStr::new(b"cde");

    assert_eq!(haystack.find(needle), Some(2));

    let needle = ByteStr::new(b"xyz");
    assert_eq!(haystack.find(needle), None);

    let needle = ByteStr::new(b"");
    assert_eq!(haystack.find(needle), Some(0));

    let needle = ByteStr::new(b"a");
    assert_eq!(haystack.find(needle), Some(0));

    let needle = ByteStr::new(b"e");
    assert_eq!(haystack.find(needle), Some(4));
}

#[test]
fn bytestr_test_partial_eq() {
    let a = ByteStr::new(b"abc");
    let b = b"abc";

    assert!(a.eq_bytes(b));
    assert_eq!(&b[..], a.as_slice());
    assert_eq!(b, a.as_slice());
}

#[test]
fn bytestr_test_find() {
    let haystack = ByteStr::new(b"abcde");
    let needle = ByteStr::new(b"cde");

    assert_eq!(haystack.find(needle), Some(2));

    let needle = ByteStr::new(b"xyz");
    assert_eq!(haystack.find(needle), None);

    let needle = ByteStr::new(b"");
    assert_eq!(haystack.find(needle), Some(0));

    let needle = ByteStr::new(b"a");
    assert_eq!(haystack.find(needle), Some(0));

    let needle = ByteStr::new(b"e");
    assert_eq!(haystack.find(needle), Some(4));
}

fn naive_find(hay: &[u8], pat: &[u8]) -> Option<usize> {
    if pat.len() > hay.len() {
        return None;
    }
    (0..=hay.len() - pat.len()).find(|&i| &hay[i..i + pat.len()] == pat)
}

#[test]
fn find_agrees_with_plain_search() {
    let hays: [&[u8]; 8] = [
        b"",
        b"a",
        b"aaaaaaa",
        b"abababababab",
        b"the quick brown fox jumps over the lazy dog",
        b"aabaabaaabaabaab",
        b"xxxxxxxxxxabcxxxxxxxxabd",
        b"mississippi",
    ];
    let pats: [&[u8]; 14] = [
        b"", b"a", b"b", b"aa", b"ab", b"ba", b"aab", b"baab", b"abd", b"issi", b"ssip", b"dog",
        b"lazy dog!", b"ippi",
    ];
    for hay in hays {
        for pat in pats {
            assert_eq!(
                ByteStr::new(hay).find(ByteStr::new(pat)),
                naive_find(hay, pat),
                "{:?} in {:?}",
                pat,
                hay
            );
        }
    }
}

#[test]
fn find_takes_many_kinds_of_pattern() {
    let hay = ByteStr::new(b"hello world");
    assert_eq!(hay.find(&b"world"[..]), Some(6));
    assert_eq!(hay.find("lo w"), Some(3));
    assert_eq!(hay.find(vec![b'l', b'd']), Some(9));
    assert_eq!(hay.find(ByteString::from_slice(b"ello")), Some(1));
    assert_eq!(hay.find(b'w'), Some(6));
    assert_eq!(hay.find(b'z'), None);
    assert_eq!(Pattern::len(&b'w'), 1);
    assert_eq!(Pattern::as_bytes(&b'w'), &[b'w']);
    assert!(!Pattern::is_empty(&"x"));
    assert!(Pattern::is_empty(&""));
}

#[test]
fn searcher_knows_the_bytes_and_the_skip() {
    let (alphabet, skip) = build_searcher(b"abcab");
    assert!(alphabet.test(b'a' as usize));
    assert!(alphabet.test(b'b' as usize));
    assert!(alphabet.test(b'c' as usize));
    assert!(!alphabet.test(b'd' as usize));
    // the last byte, `b`, stands three places before the end too
    assert_eq!(skip, 3);
    let (_, skip) = build_searcher(b"abcd");
    assert_eq!(skip, 4);
    let (_, skip) = build_searcher(b"aa");
    assert_eq!(skip, 1);
}

#[test]
fn trim_cuts_white_space_off() {
    let s = ByteStr::new(b" \t\r\n\x0C abc d \n ");
    assert_eq!(s.trim_start().as_slice(), b"abc d \n ");
    assert_eq!(s.trim_end().as_slice(), b" \t\r\n\x0C abc d");
    assert_eq!(s.trim().as_slice(), b"abc d");
    let blank = ByteStr::new(b" \t \n");
    assert!(blank.trim().is_empty());
    assert!(blank.trim_start().is_empty());
    assert!(blank.trim_end().is_empty());
    let none = ByteStr::new(b"");
    assert!(none.trim().is_empty());
    let tight = ByteStr::new(b"x");
    assert_eq!(tight.trim().as_slice(), b"x");
    // the vertical tab is no white space here
    assert_eq!(ByteStr::new(b"\x0Bx").trim().as_slice(), b"\x0Bx");
}

#[test]
fn white_space_and_case_of_single_bytes() {
    for b in 0..=255u8 {
        assert_eq!(is_ascii_whitespace(b), b.is_ascii_whitespace());
        assert_eq!(ascii_lower(b), b.to_ascii_lowercase());
    }
}

#[test]
fn eq_ignore_ascii_case_folds_letters_only() {
    let a = ByteStr::new(b"Hello, World [1]");
    assert!(a.eq_ignore_ascii_case(&ByteStr::new(b"hELLO, wORLD [1]")));
    assert!(!a.eq_ignore_ascii_case(&ByteStr::new(b"hello, world {1}")));
    assert!(!a.eq_ignore_ascii_case(&ByteStr::new(b"hello")));
    assert!(ByteStr::new(b"").eq_ignore_ascii_case(&ByteStr::new(b"")));
    // `@` and `` ` `` differ by the same bit as the letters do
    assert!(!ByteStr::new(b"@").eq_ignore_ascii_case(&ByteStr::new(b"`")));
}

#[test]
fn split_and_slice() {
    let s = ByteStr::new(b"abcdef");
    let (l, r) = s.split_at(2);
    assert_eq!(l.as_slice(), b"ab");
    assert_eq!(r.as_slice(), b"cdef");
    let (l, r) = s.split_at(0);
    assert!(l.is_empty());
    assert_eq!(r.len(), 6);
    let (l, r) = s.split_at(6);
    assert_eq!(l.len(), 6);
    assert!(r.is_empty());
    assert_eq!(s.slice(1, 4).as_slice(), b"bcd");
    assert_eq!(s.get(5), b'f');
}

#[test]
fn decoding_checks_the_bytes() {
    assert_eq!(ByteStr::new("grüß".as_bytes()).decode_as_utf8(), Ok("grüß"));
    assert!(ByteStr::new(&[0xff, 0x41]).decode_as_utf8().is_err());
    assert_eq!(ByteString::from_slice("héllo".as_bytes()).decode_into_utf8().unwrap(), "héllo");
    let err = ByteString::from_vec(vec![0x41, 0xC3]).decode_into_utf8().unwrap_err();
    assert_eq!(err.into_bytes(), vec![0x41, 0xC3]);
}

#[test]
fn byte_string_grows_and_splits() {
    let mut s = ByteString::new();
    assert!(s.is_empty());
    s.push(b'a');
    s.push_str(&ByteStr::new(b"bcd"));
    s.extend(b"ef");
    assert_eq!(s.as_bstr().as_slice(), b"abcdef");
    assert_eq!(s.len(), 6);
    let tail = s.split_off(4);
    assert_eq!(s.as_bstr().as_slice(), b"abcd");
    assert_eq!(tail.as_bstr().as_slice(), b"ef");
    let none = s.split_off(4);
    assert!(none.is_empty());
    assert_eq!(s.into_vec(), b"abcd".to_vec());
    assert!(ByteString::with_capacity(10).is_empty());
    assert_eq!(ByteStr::new(b"xy").to_owned().into_vec(), b"xy".to_vec());
}

#[test]
fn byte_strings_compare_by_bytes() {
    assert!(ByteStr::new(b"abc") == ByteStr::new(b"abc"));
    assert!(ByteStr::new(b"abc") != ByteStr::new(b"abd"));
    assert!(ByteStr::new(b"ab") < ByteStr::new(b"abc"));
    assert!(ByteStr::new(b"b") > ByteStr::new(b"abc"));
    assert_eq!(ByteStr::new(b"").partial_cmp(&ByteStr::new(b"")), Some(Ordering::Equal));
    assert_eq!(ByteStr::new(b"a\xff").cmp(&ByteStr::new(b"b")), Ordering::Less);
    assert!(ByteString::from_slice(b"abc") == ByteString::from_slice(b"abc"));
    assert!(ByteString::from_slice(b"abc") < ByteString::from_slice(b"abd"));
    assert!(slices_eq(b"abc", b"abc"));
    assert!(!slices_eq(b"abc", b"ab"));
    assert!(!slices_eq(b"abc", b"abx"));
}

#[test]
fn pretty_shows_every_kind_of_byte() {
    let shown = |b: u8| {
        let mut s = String::from(">");
        pretty_debug_u8(&mut s, b);
        s
    };
    assert_eq!(shown(0), ">\\NUL");
    assert_eq!(shown(9), ">\\HT");
    assert_eq!(shown(10), ">\\LF");
    assert_eq!(shown(13), ">\\CR");
    assert_eq!(shown(27), ">\\ESC");
    assert_eq!(shown(31), ">\\US");
    assert_eq!(shown(32), "> ");
    assert_eq!(shown(b'A'), ">A");
    assert_eq!(shown(126), ">~");
    assert_eq!(shown(127), ">DEL");
    assert_eq!(shown(128), ">\\x80");
    assert_eq!(shown(0xAF), ">\\xAF");
    assert_eq!(shown(255), ">\\xFF");
    assert_eq!(ByteStr::new(b"a\r\n\x9f").to_pretty_string(), "a\\CR\\LF\\x9F");
    assert_eq!(ByteString::from_slice(b"ok").to_pretty_string(), "ok");
    assert_eq!(ByteString::from_slice(b"ok").to_debug_string(), "b\"ok\" ");
    assert_eq!(ByteStr::new(b"").to_pretty_string(), "");
}

struct TwoBytes(u8, u8);

impl ConsumeByteStr for TwoBytes {
    type Err = usize;

    fn consume_bstr(bytes: &ByteStr) -> Result<(Self, usize), usize> {
        if bytes.len() < 2 {
            Err(bytes.len())
        } else {
            Ok((TwoBytes(bytes.get(0), bytes.get(1)), 2))
        }
    }
}

#[test]
fn parse_reads_through_the_consuming_trait() {
    let ok: Result<TwoBytes, usize> = ByteStr::new(b"xyz").parse();
    let got = ok.unwrap();
    assert_eq!((got.0, got.1), (b'x', b'y'));
    let bad: Result<TwoBytes, usize> = ByteStr::new(b"x").parse();
    assert_eq!(bad.err(), Some(1));
}

#[test]
fn patterns_write_themselves_out() {
    let mut out = vec![b'>'];
    let n = ByteStr::new(b"abc").write_into_bytes(&mut out);
    assert_eq!(n, 3);
    assert_eq!(out, b">abc");
    assert_eq!("héé".to_bstring().into_vec(), "héé".as_bytes().to_vec());
    assert_eq!(vec![1u8, 2].to_bstring().len(), 2);
}

#[test]
fn byte_strings_from_bytes_by_the_trait() {
    assert_eq!(ByteString::from(vec![1u8, 2]).into_vec(), vec![1, 2]);
    assert_eq!(ByteString::from(&b"ab"[..]).into_vec(), b"ab".to_vec());
    assert_eq!(ByteStr::from(&b"ab"[..]).as_slice(), b"ab");
}

#[test]
fn mutable_views_write_through() {
    let mut bytes = *b"abcdef";
    let view = ByteStr::new_mut(&mut bytes);
    let (l, r) = view.split_at_mut(2);
    assert_eq!(l.value, b"ab");
    assert_eq!(r.value, b"cdef");
    l.value[0] = b'X';
    r.value[3] = b'Z';
    assert_eq!(&bytes, b"XbcdeZ");
    let whole = ByteStr::from_bytes_mut(&mut bytes);
    whole.value[1] = b'!';
    assert_eq!(&bytes, b"X!cdeZ");
    let empty = ByteStr::new_mut(&mut bytes[..0]);
    let (l, r) = empty.split_at_mut(0);
    assert!(l.value.is_empty() && r.value.is_empty());
}
