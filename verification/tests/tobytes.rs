use m6coll::entry::Entry;
use m6coll::m6arr::Array;
use m6coll::m6entry::KVEntry;
use m6coll::m6tobytes::{byte_of, is_little_endian, low_byte_first, FromBytes, ToBytes};
use m6coll::{low_le_bytes, ToLeBytes};

#[test]
fn test_array_copy() {
    let mut arr = [1, 2, size_of::<u8>()];

    arr[2..3].copy_from_slice(&[4]);
    assert_eq!(arr, [1, 2, 4]);
}

#[test]
fn bytes_of_numbers() {
    assert_eq!(ToBytes::to_le_bytes(0xABu8), [0xAB]);
    assert_eq!(ToBytes::to_be_bytes(0xABu8), [0xAB]);
    assert_eq!(ToBytes::to_le_bytes(0x1234u16), [0x34, 0x12]);
    assert_eq!(ToBytes::to_be_bytes(0x1234u16), [0x12, 0x34]);
    assert_eq!(ToBytes::to_le_bytes(0x1234_5678u32), [0x78, 0x56, 0x34, 0x12]);
    assert_eq!(ToBytes::to_be_bytes(0x1234_5678u32), [0x12, 0x34, 0x56, 0x78]);
    assert_eq!(
        ToBytes::to_le_bytes(0x0102_0304_0506_0708u64),
        [0x08, 0x07, 0x06, 0x05, 0x04, 0x03, 0x02, 0x01]
    );
    assert_eq!(
        ToBytes::to_be_bytes(0x0102_0304_0506_0708u64),
        [0x01, 0x02, 0x03, 0x04, 0x05, 0x06, 0x07, 0x08]
    );
    assert_eq!(<u8 as FromBytes<1>>::from_le_bytes([7]), 7);
    assert_eq!(<u8 as FromBytes<1>>::from_be_bytes([7]), 7);
    assert_eq!(<u16 as FromBytes<2>>::from_le_bytes([0x34, 0x12]), 0x1234);
    assert_eq!(<u16 as FromBytes<2>>::from_be_bytes([0x34, 0x12]), 0x3412);
    assert_eq!(<u32 as FromBytes<4>>::from_le_bytes([1, 2, 3, 4]), 0x0403_0201);
    assert_eq!(<u32 as FromBytes<4>>::from_be_bytes([1, 2, 3, 4]), 0x0102_0304);
    assert_eq!(
        <u64 as FromBytes<8>>::from_le_bytes([1, 2, 3, 4, 5, 6, 7, 8]),
        0x0807_0605_0403_0201
    );
    assert_eq!(
        <u64 as FromBytes<8>>::from_be_bytes([1, 2, 3, 4, 5, 6, 7, 8]),
        0x0102_0304_0506_0708
    );
    assert_eq!(byte_of(0x0102_0304_0506_0708, 0), 8);
    assert_eq!(byte_of(0x0102_0304_0506_0708, 7), 1);
}

#[test]
fn bytes_agree_with_the_standard_library() {
    for x in [0u64, 1, 0xff, 0x100, 0xdead_beef, u32::MAX as u64, u64::MAX, 0x0123_4567_89ab_cdef] {
        assert_eq!(ToBytes::to_le_bytes(x), x.to_le_bytes());
        assert_eq!(ToBytes::to_be_bytes(x), x.to_be_bytes());
        assert_eq!(ToBytes::to_ne_bytes(x), x.to_ne_bytes());
        assert_eq!(<u64 as FromBytes<8>>::from_le_bytes(x.to_le_bytes()), x);
        assert_eq!(<u64 as FromBytes<8>>::from_be_bytes(x.to_be_bytes()), x);
        assert_eq!(<u64 as FromBytes<8>>::from_ne_bytes(x.to_ne_bytes()), x);
        let y = x as u32;
        assert_eq!(ToBytes::to_le_bytes(y), y.to_le_bytes());
        assert_eq!(ToBytes::to_be_bytes(y), y.to_be_bytes());
        assert_eq!(ToBytes::to_ne_bytes(y), y.to_ne_bytes());
        assert_eq!(<u32 as FromBytes<4>>::from_ne_bytes(y.to_ne_bytes()), y);
        let z = x as u16;
        assert_eq!(ToBytes::to_le_bytes(z), z.to_le_bytes());
        assert_eq!(ToBytes::to_be_bytes(z), z.to_be_bytes());
        assert_eq!(<u16 as FromBytes<2>>::from_ne_bytes(z.to_ne_bytes()), z);
    }
    assert_eq!(is_little_endian(), 1u16.to_ne_bytes() == [1, 0]);
    assert!(low_byte_first(1));
    assert!(!low_byte_first(256));
    assert!(!low_byte_first(0));
}

#[test]
fn values_write_their_low_four_bytes() {
    assert_eq!(&ToLeBytes::to_le_bytes(&0x1234_5678u32)[..], &[0x78, 0x56, 0x34, 0x12]);
    // only the low 32 bits of a wider number are written
    assert_eq!(&ToLeBytes::to_le_bytes(&0x0102_0304_0506_0708u64)[..], &[0x08, 0x07, 0x06, 0x05]);
    assert_eq!(&ToLeBytes::to_le_bytes(&0x0Ausize)[..], &[0x0A, 0, 0, 0]);
    assert_eq!(&low_le_bytes(0xFFFF_FFFF_0000_0001)[..], &[1, 0, 0, 0]);
    let arr = Array::copy_from_slice(&[1u32, 0x0203]);
    assert_eq!(&ToLeBytes::to_le_bytes(&arr)[..], &[1, 0, 0, 0, 3, 2, 0, 0]);
    let none = Array::<u32>::empty();
    assert!(ToLeBytes::to_le_bytes(&none).is_empty());
    let entry = KVEntry(1u32, 0x0100u32);
    assert_eq!(&ToLeBytes::to_le_bytes(&entry)[..], &[1, 0, 0, 0, 0, 1, 0, 0]);
    assert!(Entry(1, 2) == Entry(1, 3));
}
