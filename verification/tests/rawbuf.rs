use m6coll::m6io::rawbuf::{
    align_size, is_pow2, ptr_align_ceil_count, ptr_align_to, AlignedRawBuf, AlignedRawBufRef,
    RawBuf, RawBufRef, RefSpec,
};

#[test]
fn verify_ref_align() {
    println!("{}", 0usize.trailing_zeros());

    let slice = [0u8; 61];
    // the buffer is taken to lie at an address that is 3 past a multiple of 8
    let addr = 0x1003usize;

    let mut arr_ref = AlignedRawBufRef::from_slice(&slice, 8, addr);
    assert_eq!(arr_ref.rem_len(), 61 - 5);

    let a = arr_ref.cast::<u64>();
    println!("a: {:?}", a.as_bytes());
    assert_eq!(a.as_bytes(), &[0u8; 8]);

    println!("p align to {}", ptr_align_to(addr));
    println!("p2 align to {}", ptr_align_to(addr + 5));

    // twelve bytes behind an aligned address is not aligned to eight
    assert!(ptr_align_ceil_count(addr + 5 + 12, 8) != 0);

    arr_ref.forward_bytes(12);
    // the cursor went on to the next multiple of eight
    assert_eq!(arr_ref.consumed_slice().len(), 16);
    assert_eq!(ptr_align_ceil_count(addr + 5 + 16, 8), 0);

    let _a = arr_ref.cast::<u64>();

    assert_eq!(arr_ref.head_slice().len(), 61 - 5 - 16);
}

#[test]
fn align_size_rounds_up_to_a_multiple() {
    assert_eq!(align_size(8, 0), 0);
    assert_eq!(align_size(8, 1), 8);
    assert_eq!(align_size(8, 8), 8);
    assert_eq!(align_size(8, 9), 16);
    assert_eq!(align_size(1, 13), 13);
    assert_eq!(align_size(2, 13), 14);
    assert_eq!(align_size(4096, 4097), 8192);
    assert_eq!(align_size(16, usize::MAX - 15), usize::MAX - 15);
    for align in [1usize, 2, 4, 8, 16, 64] {
        for size in 0..200usize {
            let r = align_size(align, size);
            assert_eq!(r % align, 0);
            assert!(size <= r && r < size + align);
        }
    }
}

#[test]
fn alignment_of_addresses() {
    assert_eq!(ptr_align_to(0), 0);
    assert_eq!(ptr_align_to(1), 1);
    assert_eq!(ptr_align_to(2), 1);
    assert_eq!(ptr_align_to(8), 1);
    assert_eq!(ptr_align_to(16), 2);
    assert_eq!(ptr_align_to(24), 1);
    assert_eq!(ptr_align_to(64), 8);
    assert_eq!(ptr_align_to(0x1000), 512);
    assert_eq!(ptr_align_to(0x1008), 1);
    assert_eq!(ptr_align_ceil_count(0, 8), 0);
    assert_eq!(ptr_align_ceil_count(1, 8), 7);
    assert_eq!(ptr_align_ceil_count(7, 8), 1);
    assert_eq!(ptr_align_ceil_count(8, 8), 0);
    assert_eq!(ptr_align_ceil_count(13, 1), 0);
    assert_eq!(ptr_align_ceil_count(0x1003, 16), 13);
}

#[test]
fn borrowed_buffer_walks_its_bytes() {
    let bytes = [1u8, 2, 3, 4, 5, 6, 7, 8, 9, 10];
    let mut buf = RawBufRef::from_slice(&bytes);
    assert_eq!(buf.rem_len(), 10);
    assert_eq!(buf.cur_slice(), &bytes);
    assert!(buf.consumed_slice().is_empty());
    buf.forward_bytes(3);
    assert_eq!(buf.rem_len(), 7);
    assert_eq!(buf.cur_slice(), &bytes[3..]);
    assert_eq!(buf.consumed_slice(), &bytes[..3]);
    assert_eq!(buf.head_slice(), &bytes[..7]);
    let word = buf.cast::<u16>();
    assert_eq!(word.as_bytes(), &[4, 5]);
    let word = buf.consume::<u32>();
    assert_eq!(word.as_bytes(), &[4, 5, 6, 7]);
    assert_eq!(buf.rem_len(), 3);
    buf.forward::<u8>();
    let mut part = buf.consume_bytes(2);
    assert_eq!(part.cur_slice(), &[9, 10]);
    assert_eq!(part.rem_len(), 2);
    part.forward_bytes(2);
    assert_eq!(part.rem_len(), 0);
    assert_eq!(buf.rem_len(), 0);
    let copy = buf;
    buf.reset();
    assert_eq!(buf.rem_len(), 10);
    assert_eq!(copy.rem_len(), 0);
    assert_eq!(RefSpec::<u8>::from_raw(&bytes[..1]).as_bytes(), &[1]);
}

#[test]
fn owned_buffer_walks_its_bytes() {
    let mut buf = RawBuf::new_from_slice(&[1, 2, 3, 4, 5, 6]);
    assert_eq!(buf.as_slice(), &[1, 2, 3, 4, 5, 6]);
    buf.forward_bytes(2);
    assert_eq!(buf.as_slice(), &[3, 4, 5, 6]);
    assert_eq!(buf.rem_len(), 4);
    buf.as_mut_slice()[0] = 30;
    assert_eq!(buf.as_slice(), &[30, 4, 5, 6]);
    // the place of a value is counted from the head
    assert_eq!(buf.cast::<u16>().as_bytes(), &[1, 2]);
    assert_eq!(buf.consume::<u16>().as_bytes(), &[1, 2]);
    assert_eq!(buf.rem_len(), 2);
    {
        let part = buf.consume_bytes(1);
        assert_eq!(part.cur_slice(), &[5]);
    }
    assert_eq!(buf.as_slice(), &[6]);
    let view = buf.to_ref();
    assert_eq!(view.cur_slice(), &[6]);
    assert_eq!(view.consumed_slice(), &[1, 2, 30, 4, 5]);
    buf.forward::<u8>();
    assert_eq!(buf.rem_len(), 0);
    buf.reset();
    assert_eq!(buf.rem_len(), 6);
    let blank = RawBuf::with_capacity(5);
    assert_eq!(blank.rem_len(), 5);
    assert_eq!(RawBuf::with_capacity(0).rem_len(), 0);
}

#[test]
fn aligned_buffers_step_by_their_alignment() {
    assert!(AlignedRawBuf::with_capacity_align_to(10, 3).is_none());
    assert!(AlignedRawBuf::with_capacity_align_to(10, 0).is_none());
    assert!(AlignedRawBuf::with_capacity_align_to(isize::MAX as usize, 8).is_none());
    let mut buf = AlignedRawBuf::with_capacity_align_to(32, 8).unwrap();
    assert_eq!(buf.rem_len(), 32);
    assert_eq!(buf.as_slice(), &[0u8; 32]);
    buf.forward_bytes(3);
    assert_eq!(buf.rem_len(), 24);
    buf.as_mut_slice()[0] = 7;
    assert_eq!(buf.as_slice()[0], 7);
    assert_eq!(buf.to_ref().consumed_slice(), &[0u8; 8]);
    {
        let mut part = buf.consume_bytes(9);
        assert_eq!(part.rem_len(), 16);
        part.forward_bytes(1);
        assert_eq!(part.rem_len(), 8);
        part.forward::<u32>();
        assert_eq!(part.rem_len(), 0);
        part.reset();
        let mut inner = part.consume_bytes(8);
        assert_eq!(inner.cur_slice().len(), 8);
        assert_eq!(inner.consume::<u16>().as_bytes(), &[7, 0]);
        assert_eq!(inner.rem_len(), 6);
        assert_eq!(part.to_rawbufref().rem_len(), 8);
    }
    assert_eq!(buf.rem_len(), 8);
    let view = buf.to_ref();
    assert_eq!(view.rem_len(), 8);
    assert_eq!(view.consumed_slice().len(), 24);
    buf.reset();
    assert_eq!(buf.rem_len(), 32);
}

#[test]
fn powers_of_two() {
    assert!(!is_pow2(0));
    for k in 0..usize::BITS {
        assert!(is_pow2(1usize << k));
    }
    for n in [3usize, 5, 6, 7, 12, 100, usize::MAX] {
        assert!(!is_pow2(n));
    }
}
