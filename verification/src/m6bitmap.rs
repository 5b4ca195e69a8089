//! Single-byte bit operations and a fixed-size bit set.

use vstd::prelude::*;

verus! {

/// The mask with only bit `i` set.
pub open spec fn spec_bit_mask(i: u8) -> u8
    recommends
        i < 8,
{
    1u8 << i
}

/// `val` with bit `i` switched on.
pub open spec fn spec_bit_set(val: u8, i: u8) -> u8
    recommends
        i < 8,
{
    val | spec_bit_mask(i)
}

/// Whether bit `i` of `val` is on.
pub open spec fn spec_bit_get(val: u8, i: u8) -> bool
    recommends
        i < 8,
{
    val & spec_bit_mask(i) != 0
}

/// Setting bit `i` turns exactly that bit on: reading bit `j` afterwards
/// gives `true` for `j == i` and the old value for every other bit.
pub proof fn lemma_bit_get_after_set(val: u8, i: u8, j: u8)
    requires
        i < 8,
        j < 8,
    ensures
        spec_bit_get(spec_bit_set(val, i), j) == (i == j || spec_bit_get(val, j)),
{
    assert(i < 8 && j < 8 ==> (((val | (1u8 << i)) & (1u8 << j)) != 0) == (i == j || (val & (1u8
        << j)) != 0)) by (bit_vector);
}

/// No bit of the zero byte is on.
pub proof fn lemma_bit_get_zero(j: u8)
    requires
        j < 8,
    ensures
        !spec_bit_get(0, j),
{
    assert((0u8 & (1u8 << j)) == 0) by (bit_vector);
}

/// The mask with only bit `i` set.
fn bit_mask(i: u8) -> (mask: u8)
    requires
        i < 8,
    ensures
        mask == spec_bit_mask(i),
{
    assert(i < 8 ==> (1u8 << i) == match i {
        0u8 => 1u8,
        1u8 => 2u8,
        2u8 => 4u8,
        3u8 => 8u8,
        4u8 => 16u8,
        5u8 => 32u8,
        6u8 => 64u8,
        _ => 128u8,
    }) by (bit_vector);
    match i {
        0 => 0b_0000_0001,
        1 => 0b_0000_0010,
        2 => 0b_0000_0100,
        3 => 0b_0000_1000,
        4 => 0b_0001_0000,
        5 => 0b_0010_0000,
        6 => 0b_0100_0000,
        _ => 0b_1000_0000,
    }
}

/// Returns `val` with bit `i` switched on.
pub fn bit_set(val: u8, i: u8) -> (r: u8)
    requires
        i < 8,
    ensures
        r == spec_bit_set(val, i),
{
    val | bit_mask(i)
}

/// Tells whether bit `i` of `val` is on.
pub fn bit_get(val: u8, i: u8) -> (r: bool)
    requires
        i < 8,
    ensures
        r == spec_bit_get(val, i),
{
    val & bit_mask(i) != 0
}

/// A bit set of fixed size, stored eight bits to the byte, lowest bit first.
pub struct BitMap {
    bytes: Vec<u8>,
}

impl View for BitMap {
    type V = Seq<bool>;

    /// One `bool` per bit, in index order.
    closed spec fn view(&self) -> Seq<bool> {
        Seq::new(self.bytes@.len() * 8, |i: int| spec_bit_get(self.bytes@[i / 8], (i % 8) as u8))
    }
}

impl BitMap {
    /// The bytes behind the bits.
    pub closed spec fn spec_bytes(&self) -> Seq<u8> {
        self.bytes@
    }

    /// How the bits are read off the bytes.
    pub proof fn lemma_view(&self)
        ensures
            self@.len() == self.spec_bytes().len() * 8,
            forall|i: int|
                0 <= i < self@.len() ==> #[trigger] self@[i] == spec_bit_get(
                    self.spec_bytes()[i / 8],
                    (i % 8) as u8,
                ),
    {
    }

    /// A bit set of `cap` bits, all of them off. `cap` counts bits and is a
    /// multiple of eight.
    pub fn new(cap: u128) -> (map: Self)
        requires
            cap % 8 == 0,
            cap / 8 <= usize::MAX,
        ensures
            map@.len() == cap,
            forall|i: int| 0 <= i < cap ==> !#[trigger] map@[i],
    {
        let cap_byte: usize = (cap / 8) as usize;
        let mut bytes: Vec<u8> = Vec::new();
        while bytes.len() < cap_byte
            invariant
                bytes@.len() <= cap_byte,
                forall|k: int| 0 <= k < bytes@.len() ==> bytes@[k] == 0,
            decreases cap_byte - bytes@.len(),
        {
            bytes.push(0);
        }
        let map = BitMap { bytes };
        proof {
            assert forall|i: int| 0 <= i < cap implies !#[trigger] map@[i] by {
                lemma_bit_get_zero((i % 8) as u8);
            }
        }
        map
    }

    /// The size in bytes: an eighth of the number of bits.
    pub fn len(&self) -> (n: usize)
        ensures
            n * 8 == self@.len(),
    {
        self.bytes.len()
    }

    /// Whether the set holds no bit at all.
    pub fn is_empty(&self) -> (b: bool)
        ensures
            b == (self@.len() == 0),
    {
        self.bytes.len() == 0
    }

    /// Reads bit `i`.
    pub fn test(&self, i: usize) -> (b: bool)
        requires
            i < self@.len(),
        ensures
            b == self@[i as int],
    {
        let off_byte: usize = i / 8;
        let off_bits: u8 = (i % 8) as u8;
        bit_get(self.bytes[off_byte], off_bits)
    }

    /// Switches bit `i` on and leaves every other bit as it was.
    pub fn set(&mut self, i: usize)
        requires
            i < old(self)@.len(),
        ensures
            final(self)@ == old(self)@.update(i as int, true),
    {
        let off_byte: usize = i / 8;
        let off_bits: u8 = (i % 8) as u8;
        let byte: u8 = self.bytes[off_byte];
        self.bytes.set(off_byte, bit_set(byte, off_bits));
        proof {
            assert forall|k: int| 0 <= k < self@.len() implies self@[k] == old(self)@.update(
                i as int,
                true,
            )[k] by {
                if k / 8 == off_byte as int {
                    lemma_bit_get_after_set(byte, off_bits, (k % 8) as u8);
                }
            }
            assert(self@ =~= old(self)@.update(i as int, true));
        }
    }

    /// The first `n` bytes of the set, for display.
    pub fn head(&self, n: usize) -> (out: Vec<u8>)
        requires
            n <= self.spec_bytes().len(),
        ensures
            out@ == self.spec_bytes().subrange(0, n as int),
    {
        let mut out: Vec<u8> = Vec::new();
        let mut k: usize = 0;
        while k < n
            invariant
                k <= n <= self.bytes@.len(),
                out@ == self.bytes@.subrange(0, k as int),
            decreases n - k,
        {
            out.push(self.bytes[k]);
            proof {
                assert(out@ =~= self.bytes@.subrange(0, k + 1));
            }
            k += 1;
        }
        out
    }
}

} // verus!
