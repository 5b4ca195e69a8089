use m6coll::m6parsing::{
    parse, AbcToken, IteratorTokenStream, Parse, Peek, SliceTokenStream, Span, TokenStream,
};

#[derive(Clone, Debug, PartialEq)]
enum Tok {
    Num(u32),
    Plus,
}

#[derive(Clone, Copy, Debug, PartialEq, Eq)]
enum Kind {
    Num,
    Plus,
}

impl AbcToken for Tok {
    type TokenType = Kind;

    fn token_type(&self) -> Kind {
        match self {
            Tok::Num(_) => Kind::Num,
            Tok::Plus => Kind::Plus,
        }
    }
}

struct PlusSign;

impl Peek for PlusSign {
    type TokenType = Kind;

    fn token_type() -> Kind {
        Kind::Plus
    }
}

struct Number(u32);

impl Peek for Number {
    type TokenType = Kind;

    fn token_type() -> Kind {
        Kind::Num
    }
}

impl Parse for Number {
    type Token = Tok;
    type Err = &'static str;

    fn parse<TS: TokenStream<Tok> + ?Sized>(input: &mut TS) -> Result<Self, Self::Err> {
        match input.next_token() {
            Some(Tok::Num(n)) => Ok(Number(n)),
            Some(_) => Err("no number"),
            None => Err("end"),
        }
    }
}

#[test]
fn spans_move_and_join() {
    let s = Span { start: 3, end: 7 };
    assert!(s.offset(4) == Span { start: 7, end: 11 });
    assert!(s.offset(-5) == Span { start: -2, end: 2 });
    assert!(Span::union(s, Span { start: 5, end: 9 }) == Span { start: 3, end: 9 });
    assert!(Span::union(s, Span { start: 0, end: 4 }) == Span { start: 0, end: 7 });
    assert!((s | Span { start: -1, end: 1 }) == Span { start: -1, end: 7 });
    assert!((s << 2) == Span { start: 1, end: 5 });
    assert!((s << 5) == Span { start: -2, end: 2 });
    assert!((s >> 2) == Span { start: 5, end: 9 });
    let mut t = s;
    t.shl_assign(3);
    assert!(t == Span { start: 0, end: 4 });
    t.shr_assign(10);
    assert!(t == Span { start: 10, end: 14 });
    assert!(Span::from_range(&(2..5)) == Span { start: 2, end: 5 });
    assert!(Span::from_range(&(2..=5)) == Span { start: 2, end: 6 });
    assert!(Span::from_range(&(..5)) == Span { start: 0, end: 5 });
    assert!(Span::from_range(&(..=0)) == Span { start: 0, end: 1 });
}

#[test]
fn slice_stream_keeps_its_place() {
    let toks = [Tok::Num(1), Tok::Plus, Tok::Num(2)];
    let mut ts = SliceTokenStream::from_slice(&toks);
    assert_eq!(ts.peek_token(), Some(&Tok::Num(1)));
    assert_eq!(ts.peek2_token(), Some(&Tok::Plus));
    assert!(ts.peek::<Number>());
    assert!(!ts.peek::<PlusSign>());
    assert!(ts.peek2::<PlusSign>());
    assert!(ts.is_end());
    assert_eq!(ts.next_token(), Some(Tok::Num(1)));
    // taking a token does not move the cursor
    assert_eq!(ts.next_token(), Some(Tok::Num(1)));
    assert_eq!(ts.peek_token(), Some(&Tok::Num(1)));
    let one = [Tok::Plus];
    let short = SliceTokenStream::from_slice(&one);
    assert_eq!(short.peek2_token(), None);
    assert!(!short.peek2::<PlusSign>());
    let empty: [Tok; 0] = [];
    let mut none = SliceTokenStream::from_slice(&empty);
    assert_eq!(none.peek_token(), None);
    assert_eq!(none.next_token(), None);
    assert!(!none.is_end());
    assert!(!none.peek::<Number>());
}

#[test]
fn iterator_stream_reads_two_ahead() {
    let toks = vec![Tok::Num(1), Tok::Plus, Tok::Num(2), Tok::Plus];
    let mut ts = IteratorTokenStream::from_iter(toks.into_iter());
    assert_eq!(ts.peek_token(), Some(&Tok::Num(1)));
    assert_eq!(ts.peek2_token(), Some(&Tok::Plus));
    assert!(ts.peek::<Number>());
    assert!(ts.peek2::<PlusSign>());
    assert_eq!(ts.next_token(), Some(Tok::Num(1)));
    assert_eq!(ts.peek_token(), Some(&Tok::Plus));
    assert_eq!(ts.peek2_token(), Some(&Tok::Num(2)));
    assert_eq!(ts.next_token(), Some(Tok::Plus));
    let n: Result<Number, _> = parse(&mut ts);
    assert_eq!(n.ok().map(|n| n.0), Some(2));
    assert_eq!(ts.peek2_token(), None);
    let n: Result<Number, _> = parse(&mut ts);
    assert_eq!(n.err(), Some("no number"));
    assert_eq!(ts.next_token(), None);
    assert_eq!(ts.peek_token(), None);
    let n: Result<Number, _> = parse(&mut ts);
    assert_eq!(n.err(), Some("end"));

    let mut one = IteratorTokenStream::from_iter(vec![Tok::Plus].into_iter());
    assert_eq!(one.peek2_token(), None);
    assert_eq!(one.next_token(), Some(Tok::Plus));
    assert_eq!(one.next_token(), None);
}
