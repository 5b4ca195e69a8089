//! Buffers of bytes with a cursor, owned or borrowed, plain or stepping in
//! multiples of an alignment.

use core::marker::PhantomData;
use vstd::layout::size_of;
use vstd::prelude::*;
use vstd::std_specs::bits::u64_trailing_zeros;

verus! {

/// Whether `align` is a power of two: it is not zero and has no bit in
/// common with the number before it.
pub open spec fn spec_is_pow2(align: usize) -> bool {
    align != 0 && align & ((align - 1) as usize) == 0
}

/// Tells whether `align` is a power of two.
pub fn is_pow2(align: usize) -> (b: bool)
    ensures
        b == spec_is_pow2(align),
{
    align != 0 && align & (align - 1) == 0
}

/// `size` rounded up to a multiple of `align`.
pub open spec fn spec_align_size(align: usize, size: usize) -> usize
    recommends
        align > 0,
{
    (((size + align - 1) / (align as int)) * align) as usize
}

/// Rounding up is determined by what it gives: a multiple of `align` that
/// lies less than `align` above `size`.
pub proof fn lemma_align_up_unique(align: int, size: int, r: int)
    requires
        align > 0,
        size >= 0,
        size <= r < size + align,
        r % align == 0,
    ensures
        r == ((size + align - 1) / align) * align,
{
    let q = (size + align - 1) / align;
    vstd::arithmetic::div_mod::lemma_fundamental_div_mod(size + align - 1, align);
    vstd::arithmetic::div_mod::lemma_fundamental_div_mod(r, align);
    let k = r / align;
    assert(r == align * k);
    assert(size + align - 1 == align * q + (size + align - 1) % align);
    vstd::arithmetic::div_mod::lemma_mod_bound(size + align - 1, align);
    if k < q {
        assert(align * k + align <= align * q) by (nonlinear_arith)
            requires
                k < q,
                align > 0,
        ;
    } else if k > q {
        assert(align * q + align <= align * k) by (nonlinear_arith)
            requires
                k > q,
                align > 0,
        ;
    }
    assert(align * q == q * align) by (nonlinear_arith);
}

/// For a power of two `align`, the bits of `x` below the one bit of `align`
/// are the remainder of `x` by `align`.
pub proof fn lemma_low_bits_are_remainder(align: usize, x: usize)
    requires
        spec_is_pow2(align),
    ensures
        (x & ((align - 1) as usize)) == x % align,
    decreases align,
{
    if align == 1 {
        assert(x & ((1usize - 1) as usize) == 0) by (bit_vector);
    } else {
        let half: usize = align / 2;
        let y: usize = x / 2;
        assert(align != 1 && spec_is_pow2(align) ==> spec_is_pow2((align / 2) as usize) && align
            == 2 * (align / 2) && align / 2 >= 1) by (bit_vector);
        lemma_low_bits_are_remainder(half, y);
        assert(align != 1 && spec_is_pow2(align) ==> (x & ((align - 1) as usize)) == 2 * ((x / 2)
            & ((align / 2 - 1) as usize)) + x % 2) by (bit_vector);
        let r = (y % half) as int;
        let q = (y / half) as int;
        vstd::arithmetic::div_mod::lemma_fundamental_div_mod(y as int, half as int);
        vstd::arithmetic::div_mod::lemma_fundamental_div_mod(x as int, 2);
        assert(x == (align as int) * q + (2 * r + x % 2)) by (nonlinear_arith)
            requires
                y == (half as int) * q + r,
                x == 2 * (y as int) + x % 2,
                align == 2 * half,
        ;
        vstd::arithmetic::div_mod::lemma_fundamental_div_mod_converse(
            x as int,
            align as int,
            q,
            2 * r + (x % 2) as int,
        );
    }
}

/// `size` rounded up to a multiple of `align`, a power of two: the multiple
/// of `align` that lies less than `align` above `size`.
pub fn align_size(align: usize, size: usize) -> (r: usize)
    requires
        spec_is_pow2(align),
        size + align - 1 <= usize::MAX,
    ensures
        r == spec_align_size(align, size),
        r % align == 0,
        size <= r < size + align,
{
    let r: usize = (size + (align - 1)) & !(align - 1);
    assert(size <= r < size + align && r & ((align - 1) as usize) == 0) by (bit_vector)
        requires
            spec_is_pow2(align),
            (size + (align - 1)) as usize == size + (align - 1),
            r == ((size + (align - 1)) as usize) & !((align - 1) as usize),
    ;
    proof {
        lemma_low_bits_are_remainder(align, r);
        lemma_align_up_unique(align as int, size as int, r as int);
    }
    r
}

/// The alignment that an address has, as this library counts it: zero for
/// the null address, else an eighth of the largest power of two that
/// divides the address and at least one.
pub open spec fn spec_align_to(addr: usize) -> usize {
    if addr == 0 {
        0
    } else {
        let bits: u32 = 1u32 << u64_trailing_zeros(addr as u64);
        if bits / 8 >= 1 {
            (bits / 8) as usize
        } else {
            1
        }
    }
}

/// The alignment of the address `addr`; zero for the null address.
pub fn ptr_align_to(addr: usize) -> (r: usize)
    requires
        addr == 0 || u64_trailing_zeros(addr as u64) < 32,
    ensures
        r == spec_align_to(addr),
{
    if addr == 0 {
        0
    } else {
        let tz: u32 = (addr as u64).trailing_zeros();
        let aligned_bits: u32 = 1u32 << tz;
        let bytes: u32 = aligned_bits / 8;
        if bytes >= 1 {
            bytes as usize
        } else {
            1
        }
    }
}

/// The number of bytes from the address `addr` up to the next address that
/// is a multiple of `align`, a power of two.
pub fn ptr_align_ceil_count(addr: usize, align: usize) -> (r: usize)
    requires
        spec_is_pow2(align),
        addr + align - 1 <= usize::MAX,
    ensures
        r == spec_align_size(align, addr) - addr,
        r < align,
        (addr + r) % (align as int) == 0,
{
    align_size(align, addr) - addr
}

/// Where a value of type `T` lies: the bytes that it takes.
pub struct RefSpec<'a, T> {
    data: &'a [u8],
    marker: PhantomData<T>,
}

/// Where an aligned value of type `T` lies.
pub struct AlignedRefSpec<'a, T> {
    ref_spec: RefSpec<'a, T>,
}

impl<'a, T> RefSpec<'a, T> {
    /// The bytes of the value.
    pub closed spec fn spec_bytes(&self) -> Seq<u8> {
        self.data@
    }

    /// The place of a `T` in the bytes `data`.
    pub fn from_raw(data: &'a [u8]) -> (spec: Self)
        ensures
            spec.spec_bytes() == data@,
    {
        Self { data, marker: PhantomData }
    }

    /// The bytes of the value.
    pub fn as_bytes(&self) -> (bytes: &'a [u8])
        ensures
            bytes@ == self.spec_bytes(),
    {
        self.data
    }
}

impl<'a, T> AlignedRefSpec<'a, T> {
    /// The bytes of the value.
    pub closed spec fn spec_bytes(&self) -> Seq<u8> {
        self.ref_spec.spec_bytes()
    }

    /// The bytes of the value.
    pub fn as_bytes(&self) -> (bytes: &'a [u8])
        ensures
            bytes@ == self.spec_bytes(),
    {
        self.ref_spec.as_bytes()
    }
}

/// A borrowed buffer with a cursor.
#[derive(Clone, Copy)]
pub struct RawBufRef<'a> {
    cur: usize,
    cap: usize,
    data: &'a [u8],
}

impl<'a> RawBufRef<'a> {
    /// The cursor lies inside the buffer, whose capacity is its length.
    pub closed spec fn wf(&self) -> bool {
        self.cur <= self.cap == self.data@.len()
    }

    /// All bytes of the buffer, from its head.
    pub closed spec fn spec_data(&self) -> Seq<u8> {
        self.data@
    }

    /// The position of the cursor, counted from the head.
    pub closed spec fn spec_cur(&self) -> nat {
        self.cur as nat
    }

    /// In a well-formed buffer the cursor does not pass the end.
    pub proof fn lemma_cursor(&self)
        requires
            self.wf(),
        ensures
            self.spec_cur() <= self.spec_data().len(),
    {
    }

    /// The buffer over `src`, with the cursor at its head.
    pub fn from_slice(src: &'a [u8]) -> (buf: Self)
        ensures
            buf.wf(),
            buf.spec_data() == src@,
            buf.spec_cur() == 0,
    {
        Self { cur: 0, cap: src.len(), data: src }
    }

    /// The number of bytes from the cursor to the end.
    pub fn rem_len(&self) -> (n: usize)
        requires
            self.wf(),
        ensures
            n == self.spec_data().len() - self.spec_cur(),
    {
        self.cap - self.cur
    }

    /// The bytes from the cursor to the end.
    pub fn cur_slice(&self) -> (s: &'a [u8])
        requires
            self.wf(),
        ensures
            s@ == self.spec_data().skip(self.spec_cur() as int),
    {
        vstd::slice::slice_subrange(self.data, self.cur, self.cap)
    }

    /// The bytes before the cursor.
    pub fn consumed_slice(&self) -> (s: &'a [u8])
        requires
            self.wf(),
        ensures
            s@ == self.spec_data().take(self.spec_cur() as int),
    {
        vstd::slice::slice_subrange(self.data, 0, self.cur)
    }

    /// As many bytes from the head as lie behind the cursor.
    pub fn head_slice(&self) -> (s: &'a [u8])
        requires
            self.wf(),
        ensures
            s@ == self.spec_data().take(self.spec_data().len() - self.spec_cur()),
    {
        vstd::slice::slice_subrange(self.data, 0, self.cap - self.cur)
    }

    /// Puts the cursor back to the head.
    pub fn reset(&mut self)
        requires
            old(self).wf(),
        ensures
            final(self).wf(),
            final(self).spec_data() == old(self).spec_data(),
            final(self).spec_cur() == 0,
    {
        self.cur = 0;
    }

    /// Moves the cursor `count` bytes on.
    pub fn forward_bytes(&mut self, count: usize)
        requires
            old(self).wf(),
            count <= old(self).spec_data().len() - old(self).spec_cur(),
        ensures
            final(self).wf(),
            final(self).spec_data() == old(self).spec_data(),
            final(self).spec_cur() == old(self).spec_cur() + count,
    {
        self.cur += count;
    }

    /// Moves the cursor on by the size of a `T`.
    pub fn forward<T>(&mut self)
        requires
            old(self).wf(),
            size_of::<T>() <= old(self).spec_data().len() - old(self).spec_cur(),
        ensures
            final(self).wf(),
            final(self).spec_data() == old(self).spec_data(),
            final(self).spec_cur() == old(self).spec_cur() + size_of::<T>(),
    {
        self.forward_bytes(core::mem::size_of::<T>())
    }

    /// The place of the `T` under the cursor.
    pub fn cast<T>(&self) -> (spec: RefSpec<'a, T>)
        requires
            self.wf(),
            size_of::<T>() <= self.spec_data().len() - self.spec_cur(),
        ensures
            spec.spec_bytes() == self.spec_data().subrange(
                self.spec_cur() as int,
                (self.spec_cur() + size_of::<T>()) as int,
            ),
    {
        RefSpec::from_raw(
            vstd::slice::slice_subrange(self.data, self.cur, self.cur + core::mem::size_of::<T>()),
        )
    }

    /// The place of the `T` under the cursor, over which the cursor steps.
    pub fn consume<T>(&mut self) -> (spec: RefSpec<'a, T>)
        requires
            old(self).wf(),
            size_of::<T>() <= old(self).spec_data().len() - old(self).spec_cur(),
        ensures
            final(self).wf(),
            final(self).spec_data() == old(self).spec_data(),
            final(self).spec_cur() == old(self).spec_cur() + size_of::<T>(),
            spec.spec_bytes() == old(self).spec_data().subrange(
                old(self).spec_cur() as int,
                (old(self).spec_cur() + size_of::<T>()) as int,
            ),
    {
        let spec = self.cast::<T>();
        self.forward::<T>();
        spec
    }

    /// The next `count` bytes as a buffer of their own, over which the
    /// cursor steps.
    pub fn consume_bytes(&mut self, count: usize) -> (part: Self)
        requires
            old(self).wf(),
            count <= old(self).spec_data().len() - old(self).spec_cur(),
        ensures
            final(self).wf(),
            final(self).spec_data() == old(self).spec_data(),
            final(self).spec_cur() == old(self).spec_cur() + count,
            part.wf(),
            part.spec_cur() == 0,
            part.spec_data() == old(self).spec_data().subrange(
                old(self).spec_cur() as int,
                old(self).spec_cur() + count,
            ),
    {
        let data = vstd::slice::slice_subrange(self.data, self.cur, self.cur + count);
        self.forward_bytes(count);
        Self { cur: 0, cap: count, data }
    }
}

/// An owned buffer with a cursor.
pub struct RawBuf {
    cur: usize,
    cap: usize,
    data: Vec<u8>,
}

impl RawBuf {
    /// The cursor lies inside the buffer, whose capacity is its length.
    pub closed spec fn wf(&self) -> bool {
        self.cur <= self.cap == self.data@.len()
    }

    /// All bytes of the buffer, from its head.
    pub closed spec fn spec_data(&self) -> Seq<u8> {
        self.data@
    }

    /// The position of the cursor, counted from the head.
    pub closed spec fn spec_cur(&self) -> nat {
        self.cur as nat
    }

    /// A buffer of `cap` bytes, with the cursor at its head. What the bytes
    /// hold is not told.
    pub fn with_capacity(cap: usize) -> (buf: Self)
        ensures
            buf.wf(),
            buf.spec_data().len() == cap,
            buf.spec_cur() == 0,
    {
        let mut data: Vec<u8> = Vec::with_capacity(cap);
        while data.len() < cap
            invariant
                data@.len() <= cap,
            decreases cap - data@.len(),
        {
            data.push(0);
        }
        Self { cur: 0, cap, data }
    }

    /// A buffer that holds a copy of `src`, with the cursor at its head.
    pub fn new_from_slice(src: &[u8]) -> (buf: Self)
        ensures
            buf.wf(),
            buf.spec_data() == src@,
            buf.spec_cur() == 0,
    {
        Self { cur: 0, cap: src.len(), data: vstd::slice::slice_to_vec(src) }
    }

    /// Puts the cursor back to the head.
    pub fn reset(&mut self)
        requires
            old(self).wf(),
        ensures
            final(self).wf(),
            final(self).spec_data() == old(self).spec_data(),
            final(self).spec_cur() == 0,
    {
        self.cur = 0;
    }

    /// The bytes from the cursor to the end.
    pub fn as_slice(&self) -> (s: &[u8])
        requires
            self.wf(),
        ensures
            s@ == self.spec_data().skip(self.spec_cur() as int),
    {
        vstd::slice::slice_subrange(self.data.as_slice(), self.cur, self.cap)
    }

    /// The bytes from the cursor to the end, for writing; the bytes before
    /// the cursor stay as they are, and the buffer stays well-formed as the
    /// slice keeps its length.
    pub fn as_mut_slice(&mut self) -> (s: &mut [u8])
        requires
            old(self).wf(),
        ensures
            s@ == old(self).spec_data().skip(old(self).spec_cur() as int),
            final(self).spec_cur() == old(self).spec_cur(),
            final(self).spec_data() == old(self).spec_data().take(old(self).spec_cur() as int)
                + final(s)@,
            final(s)@.len() == s@.len() ==> final(self).wf(),
    {
        let cur = self.cur;
        let (_, rest) = self.data.as_mut_slice().split_at_mut(cur);
        rest
    }

    /// The buffer as a borrowed one, with the cursor where it is.
    pub fn to_ref(&self) -> (buf: RawBufRef<'_>)
        requires
            self.wf(),
        ensures
            buf.wf(),
            buf.spec_data() == self.spec_data(),
            buf.spec_cur() == self.spec_cur(),
    {
        RawBufRef { cur: self.cur, cap: self.cap, data: self.data.as_slice() }
    }

    /// The number of bytes from the cursor to the end.
    pub fn rem_len(&self) -> (n: usize)
        requires
            self.wf(),
        ensures
            n == self.spec_data().len() - self.spec_cur(),
    {
        self.cap - self.cur
    }

    /// Moves the cursor `count` bytes on.
    pub fn forward_bytes(&mut self, count: usize)
        requires
            old(self).wf(),
            count <= old(self).spec_data().len() - old(self).spec_cur(),
        ensures
            final(self).wf(),
            final(self).spec_data() == old(self).spec_data(),
            final(self).spec_cur() == old(self).spec_cur() + count,
    {
        self.cur += count;
    }

    /// Moves the cursor on by the size of a `T`.
    pub fn forward<T>(&mut self)
        requires
            old(self).wf(),
            size_of::<T>() <= old(self).spec_data().len() - old(self).spec_cur(),
        ensures
            final(self).wf(),
            final(self).spec_data() == old(self).spec_data(),
            final(self).spec_cur() == old(self).spec_cur() + size_of::<T>(),
    {
        self.forward_bytes(core::mem::size_of::<T>())
    }

    /// The place of the `T` at the head of the buffer, for which as much
    /// room must be left behind the cursor.
    pub fn cast<T>(&self) -> (spec: RefSpec<'_, T>)
        requires
            self.wf(),
            size_of::<T>() <= self.spec_data().len() - self.spec_cur(),
        ensures
            spec.spec_bytes() == self.spec_data().take(size_of::<T>() as int),
    {
        RefSpec::from_raw(
            vstd::slice::slice_subrange(self.data.as_slice(), 0, core::mem::size_of::<T>()),
        )
    }

    /// The place of the `T` at the head of the buffer; the cursor steps on
    /// by the size of a `T`.
    pub fn consume<T>(&mut self) -> (spec: RefSpec<'_, T>)
        requires
            old(self).wf(),
            size_of::<T>() <= old(self).spec_data().len() - old(self).spec_cur(),
        ensures
            final(self).wf(),
            final(self).spec_data() == old(self).spec_data(),
            final(self).spec_cur() == old(self).spec_cur() + size_of::<T>(),
            spec.spec_bytes() == old(self).spec_data().take(size_of::<T>() as int),
    {
        self.forward::<T>();
        RefSpec::from_raw(
            vstd::slice::slice_subrange(self.data.as_slice(), 0, core::mem::size_of::<T>()),
        )
    }

    /// The next `count` bytes as a borrowed buffer of their own, over which
    /// the cursor steps.
    pub fn consume_bytes(&mut self, count: usize) -> (part: RawBufRef<'_>)
        requires
            old(self).wf(),
            count <= old(self).spec_data().len() - old(self).spec_cur(),
        ensures
            final(self).wf(),
            final(self).spec_data() == old(self).spec_data(),
            final(self).spec_cur() == old(self).spec_cur() + count,
            part.wf(),
            part.spec_cur() == 0,
            part.spec_data() == old(self).spec_data().subrange(
                old(self).spec_cur() as int,
                old(self).spec_cur() + count,
            ),
    {
        let from: usize = self.cur;
        self.forward_bytes(count);
        RawBufRef {
            cur: 0,
            cap: count,
            data: vstd::slice::slice_subrange(self.data.as_slice(), from, from + count),
        }
    }
}

/// An owned buffer whose cursor moves in multiples of an alignment.
pub struct AlignedRawBuf {
    align: usize,
    rawbuf: RawBuf,
}

/// A borrowed buffer whose cursor moves in multiples of an alignment.
#[derive(Clone, Copy)]
pub struct AlignedRawBufRef<'a> {
    align: usize,
    rawbuf: RawBufRef<'a>,
}

/// Whether a buffer of `size` bytes aligned to `align` can be laid out:
/// `align` is a power of two, and `size` rounded up to a multiple of it does
/// not pass the largest `isize`.
pub open spec fn spec_valid_layout(size: usize, align: usize) -> bool {
    &&& spec_is_pow2(align)
    &&& align - 1 <= isize::MAX
    &&& size <= isize::MAX - (align - 1)
}

impl AlignedRawBuf {
    /// The alignment is a power of two and the buffer is well-formed.
    pub closed spec fn wf(&self) -> bool {
        spec_is_pow2(self.align) && self.rawbuf.wf()
    }

    /// The alignment by which the cursor steps.
    pub closed spec fn spec_align(&self) -> usize {
        self.align
    }

    /// The buffer underneath.
    pub closed spec fn spec_buf(&self) -> RawBuf {
        self.rawbuf
    }

    /// A zeroed buffer of `cap` bytes that steps by `align`, or `None`
    /// where such a buffer cannot be laid out.
    pub fn with_capacity_align_to(cap: usize, align: usize) -> (res: Option<Self>)
        ensures
            res is Some <==> spec_valid_layout(cap, align),
            res matches Some(buf) ==> {
                &&& buf.wf()
                &&& buf.spec_align() == align
                &&& buf.spec_buf().spec_cur() == 0
                &&& buf.spec_buf().spec_data() == Seq::new(cap as nat, |i: int| 0u8)
            },
    {
        if !is_pow2(align) {
            return None;
        }
        if align - 1 > isize::MAX as usize || cap > isize::MAX as usize - (align - 1) {
            return None;
        }
        let mut data: Vec<u8> = Vec::with_capacity(cap);
        while data.len() < cap
            invariant
                data@.len() <= cap,
                forall|i: int| 0 <= i < data@.len() ==> data@[i] == 0,
            decreases cap - data@.len(),
        {
            data.push(0);
        }
        assert(data@ =~= Seq::new(cap as nat, |i: int| 0u8));
        Some(Self { align, rawbuf: RawBuf { cur: 0, cap, data } })
    }

    /// Puts the cursor back to the head.
    pub fn reset(&mut self)
        requires
            old(self).wf(),
        ensures
            final(self).wf(),
            final(self).spec_align() == old(self).spec_align(),
            final(self).spec_buf().spec_data() == old(self).spec_buf().spec_data(),
            final(self).spec_buf().spec_cur() == 0,
    {
        self.rawbuf.reset()
    }

    /// The bytes from the cursor to the end.
    pub fn as_slice(&self) -> (s: &[u8])
        requires
            self.wf(),
        ensures
            s@ == self.spec_buf().spec_data().skip(self.spec_buf().spec_cur() as int),
    {
        self.rawbuf.as_slice()
    }

    /// The bytes from the cursor to the end, for writing; the bytes before
    /// the cursor stay as they are, and the buffer stays well-formed as the
    /// slice keeps its length.
    pub fn as_mut_slice(&mut self) -> (s: &mut [u8])
        requires
            old(self).wf(),
        ensures
            s@ == old(self).spec_buf().spec_data().skip(old(self).spec_buf().spec_cur() as int),
            final(self).spec_align() == old(self).spec_align(),
            final(self).spec_buf().spec_cur() == old(self).spec_buf().spec_cur(),
            final(self).spec_buf().spec_data() == old(self).spec_buf().spec_data().take(
                old(self).spec_buf().spec_cur() as int,
            ) + final(s)@,
            final(s)@.len() == s@.len() ==> final(self).wf(),
    {
        self.rawbuf.as_mut_slice()
    }

    /// The buffer as a borrowed one, with the cursor where it is.
    pub fn to_ref(&self) -> (buf: AlignedRawBufRef<'_>)
        requires
            self.wf(),
        ensures
            buf.wf(),
            buf.spec_align() == self.spec_align(),
            buf.spec_buf().spec_data() == self.spec_buf().spec_data(),
            buf.spec_buf().spec_cur() == self.spec_buf().spec_cur(),
    {
        AlignedRawBufRef { align: self.align, rawbuf: self.rawbuf.to_ref() }
    }

    /// The number of bytes from the cursor to the end.
    pub fn rem_len(&self) -> (n: usize)
        requires
            self.wf(),
        ensures
            n == self.spec_buf().spec_data().len() - self.spec_buf().spec_cur(),
    {
        self.rawbuf.rem_len()
    }

    /// Moves the cursor on by `count` bytes rounded up to a multiple of the
    /// alignment.
    pub fn forward_bytes(&mut self, count: usize)
        requires
            old(self).wf(),
            count + old(self).spec_align() - 1 <= usize::MAX,
            spec_align_size(old(self).spec_align(), count) <= old(self).spec_buf().spec_data().len()
                - old(self).spec_buf().spec_cur(),
        ensures
            final(self).wf(),
            final(self).spec_align() == old(self).spec_align(),
            final(self).spec_buf().spec_data() == old(self).spec_buf().spec_data(),
            final(self).spec_buf().spec_cur() == old(self).spec_buf().spec_cur() + spec_align_size(
                old(self).spec_align(),
                count,
            ),
    {
        let step = align_size(self.align, count);
        self.rawbuf.forward_bytes(step)
    }

    /// The next `count` bytes, rounded up to a multiple of the alignment, as
    /// a borrowed buffer of their own, over which the cursor steps.
    pub fn consume_bytes(&mut self, count: usize) -> (part: AlignedRawBufRef<'_>)
        requires
            old(self).wf(),
            count + old(self).spec_align() - 1 <= usize::MAX,
            spec_align_size(old(self).spec_align(), count) <= old(self).spec_buf().spec_data().len()
                - old(self).spec_buf().spec_cur(),
        ensures
            final(self).wf(),
            final(self).spec_align() == old(self).spec_align(),
            final(self).spec_buf().spec_data() == old(self).spec_buf().spec_data(),
            final(self).spec_buf().spec_cur() == old(self).spec_buf().spec_cur() + spec_align_size(
                old(self).spec_align(),
                count,
            ),
            part.wf(),
            part.spec_align() == old(self).spec_align(),
            part.spec_buf().spec_cur() == 0,
            part.spec_buf().spec_data() == old(self).spec_buf().spec_data().subrange(
                old(self).spec_buf().spec_cur() as int,
                old(self).spec_buf().spec_cur() + spec_align_size(old(self).spec_align(), count),
            ),
    {
        let step = align_size(self.align, count);
        let align = self.align;
        AlignedRawBufRef { align, rawbuf: self.rawbuf.consume_bytes(step) }
    }
}

impl<'a> AlignedRawBufRef<'a> {
    /// The alignment is a power of two and the buffer is well-formed.
    pub closed spec fn wf(&self) -> bool {
        spec_is_pow2(self.align) && self.rawbuf.wf()
    }

    /// The alignment by which the cursor steps.
    pub closed spec fn spec_align(&self) -> usize {
        self.align
    }

    /// The buffer underneath.
    pub closed spec fn spec_buf(&self) -> RawBufRef<'a> {
        self.rawbuf
    }

    /// The part of `src`, which lies at the address `addr`, from the first
    /// address on that is a multiple of `align`.
    pub fn from_slice(src: &'a [u8], align: usize, addr: usize) -> (buf: Self)
        requires
            spec_is_pow2(align),
            addr + align - 1 <= usize::MAX,
            spec_align_size(align, addr) - addr <= src@.len(),
        ensures
            buf.wf(),
            buf.spec_align() == align,
            buf.spec_buf().spec_cur() == 0,
            buf.spec_buf().spec_data() == src@.skip(spec_align_size(align, addr) - addr),
    {
        let cap: usize = src.len();
        let count: usize = ptr_align_ceil_count(addr, align);
        Self {
            align,
            rawbuf: RawBufRef::from_slice(vstd::slice::slice_subrange(src, count, cap)),
        }
    }

    /// The number of bytes from the cursor to the end.
    pub fn rem_len(&self) -> (n: usize)
        requires
            self.wf(),
        ensures
            n == self.spec_buf().spec_data().len() - self.spec_buf().spec_cur(),
    {
        self.rawbuf.rem_len()
    }

    /// Puts the cursor back to the head.
    pub fn reset(&mut self)
        requires
            old(self).wf(),
        ensures
            final(self).wf(),
            final(self).spec_align() == old(self).spec_align(),
            final(self).spec_buf().spec_data() == old(self).spec_buf().spec_data(),
            final(self).spec_buf().spec_cur() == 0,
    {
        self.rawbuf.reset()
    }

    /// As many bytes from the head as lie behind the cursor.
    pub fn head_slice(&self) -> (s: &'a [u8])
        requires
            self.wf(),
        ensures
            s@ == self.spec_buf().spec_data().take(
                self.spec_buf().spec_data().len() - self.spec_buf().spec_cur(),
            ),
    {
        self.rawbuf.head_slice()
    }

    /// The bytes from the cursor to the end.
    pub fn cur_slice(&self) -> (s: &'a [u8])
        requires
            self.wf(),
        ensures
            s@ == self.spec_buf().spec_data().skip(self.spec_buf().spec_cur() as int),
    {
        self.rawbuf.cur_slice()
    }

    /// The bytes before the cursor.
    pub fn consumed_slice(&self) -> (s: &'a [u8])
        requires
            self.wf(),
        ensures
            s@ == self.spec_buf().spec_data().take(self.spec_buf().spec_cur() as int),
    {
        self.rawbuf.consumed_slice()
    }

    /// Moves the cursor on by `count` bytes rounded up to a multiple of the
    /// alignment.
    pub fn forward_bytes(&mut self, count: usize)
        requires
            old(self).wf(),
            count + old(self).spec_align() - 1 <= usize::MAX,
            spec_align_size(old(self).spec_align(), count) <= old(self).spec_buf().spec_data().len()
                - old(self).spec_buf().spec_cur(),
        ensures
            final(self).wf(),
            final(self).spec_align() == old(self).spec_align(),
            final(self).spec_buf().spec_data() == old(self).spec_buf().spec_data(),
            final(self).spec_buf().spec_cur() == old(self).spec_buf().spec_cur() + spec_align_size(
                old(self).spec_align(),
                count,
            ),
    {
        let step = align_size(self.align, count);
        self.rawbuf.forward_bytes(step);
    }

    /// Moves the cursor on by the size of a `T` rounded up to a multiple of
    /// the alignment.
    pub fn forward<T>(&mut self)
        requires
            old(self).wf(),
            size_of::<T>() + old(self).spec_align() - 1 <= usize::MAX,
            spec_align_size(old(self).spec_align(), size_of::<T>() as usize) <= old(self).spec_buf().spec_data().len() - old(self).spec_buf().spec_cur(),
        ensures
            final(self).wf(),
            final(self).spec_align() == old(self).spec_align(),
            final(self).spec_buf().spec_data() == old(self).spec_buf().spec_data(),
            final(self).spec_buf().spec_cur() == old(self).spec_buf().spec_cur() + spec_align_size(
                old(self).spec_align(),
                size_of::<T>() as usize,
            ),
    {
        self.forward_bytes(core::mem::size_of::<T>())
    }

    /// The place of the `T` under the cursor.
    pub fn cast<T>(&self) -> (spec: AlignedRefSpec<'a, T>)
        requires
            self.wf(),
            size_of::<T>() <= self.spec_buf().spec_data().len() - self.spec_buf().spec_cur(),
        ensures
            spec.spec_bytes() == self.spec_buf().spec_data().subrange(
                self.spec_buf().spec_cur() as int,
                (self.spec_buf().spec_cur() + size_of::<T>()) as int,
            ),
    {
        AlignedRefSpec { ref_spec: self.rawbuf.cast() }
    }

    /// The place of the `T` under the cursor, over which the cursor steps
    /// by the plain size of a `T`.
    pub fn consume<T>(&mut self) -> (spec: AlignedRefSpec<'a, T>)
        requires
            old(self).wf(),
            size_of::<T>() <= old(self).spec_buf().spec_data().len() - old(self).spec_buf().spec_cur(),
        ensures
            final(self).wf(),
            final(self).spec_align() == old(self).spec_align(),
            final(self).spec_buf().spec_data() == old(self).spec_buf().spec_data(),
            final(self).spec_buf().spec_cur() == old(self).spec_buf().spec_cur() + size_of::<T>(),
            spec.spec_bytes() == old(self).spec_buf().spec_data().subrange(
                old(self).spec_buf().spec_cur() as int,
                (old(self).spec_buf().spec_cur() + size_of::<T>()) as int,
            ),
    {
        let spec = self.rawbuf.consume::<T>();
        AlignedRefSpec { ref_spec: spec }
    }

    /// The next `count` bytes, rounded up to a multiple of the alignment, as
    /// a buffer of their own, over which the cursor steps.
    pub fn consume_bytes(&mut self, count: usize) -> (part: Self)
        requires
            old(self).wf(),
            count + old(self).spec_align() - 1 <= usize::MAX,
            spec_align_size(old(self).spec_align(), count) <= old(self).spec_buf().spec_data().len()
                - old(self).spec_buf().spec_cur(),
        ensures
            final(self).wf(),
            final(self).spec_align() == old(self).spec_align(),
            final(self).spec_buf().spec_data() == old(self).spec_buf().spec_data(),
            final(self).spec_buf().spec_cur() == old(self).spec_buf().spec_cur() + spec_align_size(
                old(self).spec_align(),
                count,
            ),
            part.wf(),
            part.spec_align() == old(self).spec_align(),
            part.spec_buf().spec_cur() == 0,
            part.spec_buf().spec_data() == old(self).spec_buf().spec_data().subrange(
                old(self).spec_buf().spec_cur() as int,
                old(self).spec_buf().spec_cur() + spec_align_size(old(self).spec_align(), count),
            ),
    {
        let step = align_size(self.align, count);
        Self { align: self.align, rawbuf: self.rawbuf.consume_bytes(step) }
    }

    /// The buffer without its alignment.
    pub fn to_rawbufref(&self) -> (buf: RawBufRef<'a>)
        ensures
            buf == self.spec_buf(),
    {
        self.rawbuf
    }
}

} // verus!
