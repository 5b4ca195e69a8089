//! What can be read as one byte.

use vstd::prelude::*;

verus! {

/// An item of input that can be read as a byte.
pub trait AsByte: Copy {
    /// The byte that the item stands for.
    spec fn spec_as_byte(self) -> u8;

    /// The byte that the item stands for.
    fn as_byte(self) -> (b: u8)
        ensures
            b == self.spec_as_byte(),
    ;
}

impl AsByte for u8 {
    open spec fn spec_as_byte(self) -> u8 {
        self
    }

    fn as_byte(self) -> (b: u8) {
        self
    }
}

impl<'a> AsByte for &'a u8 {
    open spec fn spec_as_byte(self) -> u8 {
        *self
    }

    fn as_byte(self) -> (b: u8) {
        *self
    }
}

impl AsByte for char {
    /// The lowest eight bits of the code point.
    open spec fn spec_as_byte(self) -> u8 {
        ((self as u32) & 0xff) as u8
    }

    fn as_byte(self) -> (b: u8) {
        let code: u32 = self as u32;
        assert((code & 0xff) < 256) by (bit_vector);
        (code & 0xff) as u8
    }
}

} // verus!
