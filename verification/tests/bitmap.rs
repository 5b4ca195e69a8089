use m6coll::m6bitmap::{bit_get, bit_set, BitMap};

#[test]
fn test_bitop() {
    assert_eq!(bit_set(0b_0000_1110, 4), 0b_0001_1110);
    assert_eq!(bit_get(0b_0000_1110, 4), false);
}

#[test]
fn test_bitmap() {
    let max = 256;
    let mut map = BitMap::new(max as u128);

    for i in 0..max {
        for j in 0..i {
            assert!(map.test(j as usize))
        }
        for j2 in i..max {
            assert!(!map.test(j2 as usize))
        }
        map.set(i as usize);
    }
}

#[test]
fn view_bit() {
    println!("{:08b}", 4);
}

#[test]
fn bit_set_and_get_every_position() {
    for i in 0..8u8 {
        assert_eq!(bit_set(0, i), 1u8 << i);
        assert!(bit_get(bit_set(0, i), i));
        for j in 0..8u8 {
            if j != i {
                assert!(!bit_get(bit_set(0, i), j));
            }
        }
    }
    assert_eq!(bit_set(0b1000_0000, 7), 0b1000_0000);
}

#[test]
fn bitmap_len_counts_bytes() {
    let map = BitMap::new(64);
    assert_eq!(map.len(), 8);
    assert!(!map.is_empty());
    let none = BitMap::new(0);
    assert_eq!(none.len(), 0);
    assert!(none.is_empty());
}

#[test]
fn bitmap_head_shows_bytes() {
    let mut map = BitMap::new(24);
    map.set(0);
    map.set(9);
    map.set(23);
    assert_eq!(map.head(3), vec![0b0000_0001, 0b0000_0010, 0b1000_0000]);
    assert_eq!(map.head(1), vec![0b0000_0001]);
    assert!(map.head(0).is_empty());
}
