//! Unsigned integers as bytes, least significant byte first or last.

use vstd::prelude::*;

verus! {

/// A value that can be made from `N` bytes.
pub trait FromBytes<const N: usize>: Sized {
    /// The value whose bytes, least significant first, are `bytes`.
    spec fn spec_from_le_bytes(bytes: Seq<u8>) -> Self;

    /// The value whose bytes, most significant first, are `bytes`.
    spec fn spec_from_be_bytes(bytes: Seq<u8>) -> Self;

    /// Reads the value from its bytes, least significant first.
    fn from_le_bytes(bytes: [u8; N]) -> (x: Self)
        ensures
            x == Self::spec_from_le_bytes(bytes@),
    ;

    /// Reads the value from its bytes, most significant first.
    fn from_be_bytes(bytes: [u8; N]) -> (x: Self)
        ensures
            x == Self::spec_from_be_bytes(bytes@),
    ;

    /// Reads the value from its bytes in the order of the machine.
    fn from_ne_bytes(bytes: [u8; N]) -> (x: Self)
        ensures
            x == Self::spec_from_le_bytes(bytes@) || x == Self::spec_from_be_bytes(bytes@),
    {
        if is_little_endian() {
            Self::from_le_bytes(bytes)
        } else {
            Self::from_be_bytes(bytes)
        }
    }
}

/// A value that can be written as `N` bytes.
pub trait ToBytes<const N: usize>: Sized {
    /// The bytes of the value, least significant first.
    spec fn spec_to_le_bytes(self) -> Seq<u8>;

    /// The bytes of the value, most significant first.
    spec fn spec_to_be_bytes(self) -> Seq<u8>;

    /// The bytes of the value, least significant first.
    fn to_le_bytes(self) -> (bytes: [u8; N])
        ensures
            bytes@ == self.spec_to_le_bytes(),
    ;

    /// The bytes of the value, most significant first.
    fn to_be_bytes(self) -> (bytes: [u8; N])
        ensures
            bytes@ == self.spec_to_be_bytes(),
    ;

    /// The bytes of the value in the order of the machine.
    fn to_ne_bytes(self) -> (bytes: [u8; N])
        ensures
            bytes@ == self.spec_to_le_bytes() || bytes@ == self.spec_to_be_bytes(),
    {
        if is_little_endian() {
            self.to_le_bytes()
        } else {
            self.to_be_bytes()
        }
    }
}

/// `u16::from_ne_bytes`: the number that the machine reads from two bytes,
/// taking the first one as the low byte or as the high byte.
#[verifier::external_body]
fn native_u16(bytes: [u8; 2]) -> (x: u16)
    ensures
        x == spec_u16_le(bytes@) || x == spec_u16_be(bytes@),
{
    u16::from_ne_bytes(bytes)
}

/// Whether the machine puts the least significant byte first: what it
/// reads from the bytes one and zero tells.
pub fn is_little_endian() -> bool {
    low_byte_first(native_u16([1, 0]))
}

/// Whether `probe`, the number that a machine read from the bytes one and
/// zero, shows that the machine takes the first byte as the low one: the
/// number is then one, and 256 on a machine that takes it as the high one.
pub fn low_byte_first(probe: u16) -> (b: bool)
    ensures
        b == (probe == spec_u16_le(seq![1u8, 0u8])),
        probe == spec_u16_be(seq![1u8, 0u8]) ==> !b,
{
    assert(spec_u16_le(seq![1u8, 0u8]) == 1 && spec_u16_be(seq![1u8, 0u8]) == 256) by {
        assert(((1u8 as u16) | (0u8 as u16) << 8) == 1) by (bit_vector);
        assert(((0u8 as u16) | (1u8 as u16) << 8) == 256) by (bit_vector);
    }
    probe == 1
}

/// The 16-bit number whose low byte is `b[0]`.
pub open spec fn spec_u16_le(b: Seq<u8>) -> u16 {
    (b[0] as u16) | (b[1] as u16) << 8
}

/// The 16-bit number whose high byte is `b[0]`.
pub open spec fn spec_u16_be(b: Seq<u8>) -> u16 {
    (b[1] as u16) | (b[0] as u16) << 8
}

/// The 32-bit number whose lowest byte is `b[0]`.
pub open spec fn spec_u32_le(b: Seq<u8>) -> u32 {
    (b[0] as u32) | (b[1] as u32) << 8 | (b[2] as u32) << 16 | (b[3] as u32) << 24
}

/// The 32-bit number whose highest byte is `b[0]`.
pub open spec fn spec_u32_be(b: Seq<u8>) -> u32 {
    (b[3] as u32) | (b[2] as u32) << 8 | (b[1] as u32) << 16 | (b[0] as u32) << 24
}

/// The 64-bit number whose lowest byte is `b[0]`.
pub open spec fn spec_u64_le(b: Seq<u8>) -> u64 {
    (b[0] as u64) | (b[1] as u64) << 8 | (b[2] as u64) << 16 | (b[3] as u64) << 24 | (b[4] as u64)
        << 32 | (b[5] as u64) << 40 | (b[6] as u64) << 48 | (b[7] as u64) << 56
}

/// The 64-bit number whose highest byte is `b[0]`.
pub open spec fn spec_u64_be(b: Seq<u8>) -> u64 {
    (b[7] as u64) | (b[6] as u64) << 8 | (b[5] as u64) << 16 | (b[4] as u64) << 24 | (b[3] as u64)
        << 32 | (b[2] as u64) << 40 | (b[1] as u64) << 48 | (b[0] as u64) << 56
}

/// Byte `i` of `x`, counted from the least significant one.
pub open spec fn spec_byte_of(x: u64, i: nat) -> u8 {
    ((x >> (8 * i) as u64) & 0xff) as u8
}

impl FromBytes<1> for u8 {
    open spec fn spec_from_le_bytes(bytes: Seq<u8>) -> u8 {
        bytes[0]
    }

    open spec fn spec_from_be_bytes(bytes: Seq<u8>) -> u8 {
        bytes[0]
    }

    fn from_le_bytes(bytes: [u8; 1]) -> (x: u8) {
        bytes[0]
    }

    fn from_be_bytes(bytes: [u8; 1]) -> (x: u8) {
        bytes[0]
    }
}

impl ToBytes<1> for u8 {
    open spec fn spec_to_le_bytes(self) -> Seq<u8> {
        seq![self]
    }

    open spec fn spec_to_be_bytes(self) -> Seq<u8> {
        seq![self]
    }

    fn to_le_bytes(self) -> (bytes: [u8; 1]) {
        let bytes = [self];
        assert(bytes@ =~= seq![self]);
        bytes
    }

    fn to_be_bytes(self) -> (bytes: [u8; 1]) {
        let bytes = [self];
        assert(bytes@ =~= seq![self]);
        bytes
    }
}

impl FromBytes<2> for u16 {
    open spec fn spec_from_le_bytes(bytes: Seq<u8>) -> u16 {
        spec_u16_le(bytes)
    }

    open spec fn spec_from_be_bytes(bytes: Seq<u8>) -> u16 {
        spec_u16_be(bytes)
    }

    fn from_le_bytes(bytes: [u8; 2]) -> (x: u16) {
        (bytes[0] as u16) | (bytes[1] as u16) << 8
    }

    fn from_be_bytes(bytes: [u8; 2]) -> (x: u16) {
        (bytes[1] as u16) | (bytes[0] as u16) << 8
    }
}

impl ToBytes<2> for u16 {
    open spec fn spec_to_le_bytes(self) -> Seq<u8> {
        seq![spec_byte_of(self as u64, 0), spec_byte_of(self as u64, 1)]
    }

    open spec fn spec_to_be_bytes(self) -> Seq<u8> {
        seq![spec_byte_of(self as u64, 1), spec_byte_of(self as u64, 0)]
    }

    fn to_le_bytes(self) -> (bytes: [u8; 2]) {
        let x: u64 = self as u64;
        let bytes = [byte_of(x, 0), byte_of(x, 1)];
        assert(bytes@ =~= self.spec_to_le_bytes());
        bytes
    }

    fn to_be_bytes(self) -> (bytes: [u8; 2]) {
        let x: u64 = self as u64;
        let bytes = [byte_of(x, 1), byte_of(x, 0)];
        assert(bytes@ =~= self.spec_to_be_bytes());
        bytes
    }
}

/// Byte `i` of `x`, counted from the least significant one.
pub fn byte_of(x: u64, i: u8) -> (b: u8)
    requires
        i < 8,
    ensures
        b == spec_byte_of(x, i as nat),
{
    assert(((x >> (8 * i) as u64) & 0xff) < 256) by (bit_vector);
    ((x >> (8 * i) as u64) & 0xff) as u8
}

impl FromBytes<4> for u32 {
    open spec fn spec_from_le_bytes(bytes: Seq<u8>) -> u32 {
        spec_u32_le(bytes)
    }

    open spec fn spec_from_be_bytes(bytes: Seq<u8>) -> u32 {
        spec_u32_be(bytes)
    }

    fn from_le_bytes(bytes: [u8; 4]) -> (x: u32) {
        (bytes[0] as u32) | (bytes[1] as u32) << 8 | (bytes[2] as u32) << 16 | (bytes[3] as u32) << 24
    }

    fn from_be_bytes(bytes: [u8; 4]) -> (x: u32) {
        (bytes[3] as u32) | (bytes[2] as u32) << 8 | (bytes[1] as u32) << 16 | (bytes[0] as u32) << 24
    }
}

impl ToBytes<4> for u32 {
    open spec fn spec_to_le_bytes(self) -> Seq<u8> {
        seq![spec_byte_of(self as u64, 0), spec_byte_of(self as u64, 1), spec_byte_of(self as u64, 2), spec_byte_of(self as u64, 3)]
    }

    open spec fn spec_to_be_bytes(self) -> Seq<u8> {
        seq![spec_byte_of(self as u64, 3), spec_byte_of(self as u64, 2), spec_byte_of(self as u64, 1), spec_byte_of(self as u64, 0)]
    }

    fn to_le_bytes(self) -> (bytes: [u8; 4]) {
        let x: u64 = self as u64;
        let bytes = [byte_of(x, 0), byte_of(x, 1), byte_of(x, 2), byte_of(x, 3)];
        assert(bytes@ =~= self.spec_to_le_bytes());
        bytes
    }

    fn to_be_bytes(self) -> (bytes: [u8; 4]) {
        let x: u64 = self as u64;
        let bytes = [byte_of(x, 3), byte_of(x, 2), byte_of(x, 1), byte_of(x, 0)];
        assert(bytes@ =~= self.spec_to_be_bytes());
        bytes
    }
}

impl FromBytes<8> for u64 {
    open spec fn spec_from_le_bytes(bytes: Seq<u8>) -> u64 {
        spec_u64_le(bytes)
    }

    open spec fn spec_from_be_bytes(bytes: Seq<u8>) -> u64 {
        spec_u64_be(bytes)
    }

    fn from_le_bytes(bytes: [u8; 8]) -> (x: u64) {
        (bytes[0] as u64) | (bytes[1] as u64) << 8 | (bytes[2] as u64) << 16 | (bytes[3] as u64) << 24 | (bytes[4] as u64) << 32 | (bytes[5] as u64) << 40 | (bytes[6] as u64) << 48 | (bytes[7] as u64) << 56
    }

    fn from_be_bytes(bytes: [u8; 8]) -> (x: u64) {
        (bytes[7] as u64) | (bytes[6] as u64) << 8 | (bytes[5] as u64) << 16 | (bytes[4] as u64) << 24 | (bytes[3] as u64) << 32 | (bytes[2] as u64) << 40 | (bytes[1] as u64) << 48 | (bytes[0] as u64) << 56
    }
}

impl ToBytes<8> for u64 {
    open spec fn spec_to_le_bytes(self) -> Seq<u8> {
        seq![spec_byte_of(self as u64, 0), spec_byte_of(self as u64, 1), spec_byte_of(self as u64, 2), spec_byte_of(self as u64, 3), spec_byte_of(self as u64, 4), spec_byte_of(self as u64, 5), spec_byte_of(self as u64, 6), spec_byte_of(self as u64, 7)]
    }

    open spec fn spec_to_be_bytes(self) -> Seq<u8> {
        seq![spec_byte_of(self as u64, 7), spec_byte_of(self as u64, 6), spec_byte_of(self as u64, 5), spec_byte_of(self as u64, 4), spec_byte_of(self as u64, 3), spec_byte_of(self as u64, 2), spec_byte_of(self as u64, 1), spec_byte_of(self as u64, 0)]
    }

    fn to_le_bytes(self) -> (bytes: [u8; 8]) {
        let x: u64 = self as u64;
        let bytes = [byte_of(x, 0), byte_of(x, 1), byte_of(x, 2), byte_of(x, 3), byte_of(x, 4), byte_of(x, 5), byte_of(x, 6), byte_of(x, 7)];
        assert(bytes@ =~= self.spec_to_le_bytes());
        bytes
    }

    fn to_be_bytes(self) -> (bytes: [u8; 8]) {
        let x: u64 = self as u64;
        let bytes = [byte_of(x, 7), byte_of(x, 6), byte_of(x, 5), byte_of(x, 4), byte_of(x, 3), byte_of(x, 2), byte_of(x, 1), byte_of(x, 0)];
        assert(bytes@ =~= self.spec_to_be_bytes());
        bytes
    }
}

/// Writing a `u16` as bytes and reading the bytes back, in either order
/// of bytes, gives the number again.
pub proof fn lemma_u16_round_trip(x: u16)
    ensures
        <u16 as FromBytes<2>>::spec_from_le_bytes(x.spec_to_le_bytes()) == x,
        <u16 as FromBytes<2>>::spec_from_be_bytes(x.spec_to_be_bytes()) == x,
{
    assert(((((x as u64) >> 0u64) & 0xff) as u8 as u16) | ((((x as u64) >> 8u64) & 0xff) as u8 as u16) << 8u16 == x) by (bit_vector);
}

/// Writing a `u32` as bytes and reading the bytes back, in either order
/// of bytes, gives the number again.
pub proof fn lemma_u32_round_trip(x: u32)
    ensures
        <u32 as FromBytes<4>>::spec_from_le_bytes(x.spec_to_le_bytes()) == x,
        <u32 as FromBytes<4>>::spec_from_be_bytes(x.spec_to_be_bytes()) == x,
{
    assert(((((x as u64) >> 0u64) & 0xff) as u8 as u32) | ((((x as u64) >> 8u64) & 0xff) as u8 as u32) << 8u32 | ((((x as u64) >> 16u64) & 0xff) as u8 as u32) << 16u32 | ((((x as u64) >> 24u64) & 0xff) as u8 as u32) << 24u32 == x) by (bit_vector);
}

/// Writing a `u64` as bytes and reading the bytes back, in either order
/// of bytes, gives the number again.
pub proof fn lemma_u64_round_trip(x: u64)
    ensures
        <u64 as FromBytes<8>>::spec_from_le_bytes(x.spec_to_le_bytes()) == x,
        <u64 as FromBytes<8>>::spec_from_be_bytes(x.spec_to_be_bytes()) == x,
{
    assert(((((x as u64) >> 0u64) & 0xff) as u8 as u64) | ((((x as u64) >> 8u64) & 0xff) as u8 as u64) << 8u64 | ((((x as u64) >> 16u64) & 0xff) as u8 as u64) << 16u64 | ((((x as u64) >> 24u64) & 0xff) as u8 as u64) << 24u64 | ((((x as u64) >> 32u64) & 0xff) as u8 as u64) << 32u64 | ((((x as u64) >> 40u64) & 0xff) as u8 as u64) << 40u64 | ((((x as u64) >> 48u64) & 0xff) as u8 as u64) << 48u64 | ((((x as u64) >> 56u64) & 0xff) as u8 as u64) << 56u64 == x) by (bit_vector);
}

/// Writing a `u8` as a byte and reading it back gives the number again.
pub proof fn lemma_u8_round_trip(x: u8)
    ensures
        <u8 as FromBytes<1>>::spec_from_le_bytes(x.spec_to_le_bytes()) == x,
        <u8 as FromBytes<1>>::spec_from_be_bytes(x.spec_to_be_bytes()) == x,
{
}

} // verus!
