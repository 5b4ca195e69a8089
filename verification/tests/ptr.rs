use m6coll::m6io::bstr::ByteStr;
use m6coll::m6io::cow::FlatCow;
use m6coll::m6ptr::bytestr::ConsumeBytesInto;
use m6coll::m6ptr::OwnedPtr;

struct Head(u8);

impl ConsumeBytesInto for Head {
    type Err = ();

    fn consume_bytes_into(bytes: &ByteStr) -> Result<(Self, usize), ()> {
        if bytes.is_empty() {
            Err(())
        } else {
            Ok((Head(bytes.get(0)), 1))
        }
    }
}

#[test]
fn parse_into_reads_through_the_consuming_trait() {
    let ok: Result<Head, ()> = ByteStr::new(b"qr").parse_into();
    assert_eq!(ok.unwrap().0, b'q');
    let bad: Result<Head, ()> = ByteStr::new(b"").parse_into();
    assert!(bad.is_err());
}

#[test]
fn owned_ptr_holds_its_value() {
    let p = OwnedPtr::new(41);
    assert_eq!(*p + 1, 42);
    let q = OwnedPtr::from_box(Box::new(String::from("x")));
    assert_eq!(q.len(), 1);
    assert_eq!(*q.into_box(), "x");
    assert!(OwnedPtr::new(1) < OwnedPtr::new(2));
    assert!(OwnedPtr::new(3) == OwnedPtr::new(3));
}

#[test]
fn to_cow_buf_starts_staging() {
    let v = vec![1, 2, 3];
    let cow = FlatCow::<[i32]>::borrow_new(&v[..]);
    let mut buf = cow.to_cow_buf();
    buf.clone_push(4);
    assert_eq!(buf.to_cow().as_slice(), &[1, 2, 3, 4]);
}

#[test]
fn test_partial_eq() {
    let a = ByteStr::new(b"abc");
    let b = b"abc";

    assert!(a.eq_bytes(b));
    assert_eq!(&b[..], a.as_slice());
    assert_eq!(b, &a.as_slice()[..]);
}

#[test]
fn test_flat_cow() {
    let v = ('a'..'j').into_iter().collect::<String>();
    let cow = FlatCow::<str>::borrow_new(&v[..]);

    assert_eq!(&cow.as_str()[1..8], "bcdefgh");

    let cow1 = cow.as_slice_cow(1..8);

    assert!(matches!(cow1, FlatCow::Borrowed { .. }));
    assert_eq!(&cow1.as_str()[3..6], "efg");

    /* test Owned */

    let cow = FlatCow::<[usize]>::own_new((0..10).into_iter().collect::<Vec<_>>());

    assert_eq!(&cow.as_slice()[1..8], &[1, 2, 3, 4, 5, 6, 7]);

    let cow1 = cow.as_slice_cow(1..8);

    assert_eq!(&cow1.as_slice()[..], &[1, 2, 3, 4, 5, 6, 7]);

    /* test Borrowed */

    let v = (0..10).into_iter().collect::<Vec<_>>();
    let cow = FlatCow::<[usize]>::borrow_new(&v[..]);

    assert_eq!(&cow.as_slice()[1..8], &[1, 2, 3, 4, 5, 6, 7]);

    let cow1 = cow.as_slice_cow(1..8);

    assert!(matches!(cow1, FlatCow::Borrowed { .. }));
    assert_eq!(&cow1.as_slice()[3..6], &[4, 5, 6]);
}
