//! Values that are read from byte strings: the `Into` family of traits,
//! and single bytes as patterns.

use crate::m6io::bstr::{from_consumed, ByteStr, Pattern};
use vstd::prelude::*;

verus! {

/// A value that can be read off the front of a byte string, telling how
/// many bytes it took.
pub trait ConsumeBytesInto: Sized {
    /// What a failed reading reports.
    type Err;

    /// The value at the front of `bytes`, and the number of bytes read.
    fn consume_bytes_into(bytes: &ByteStr) -> Result<(Self, usize), Self::Err>;
}

/// A value that can be read from a byte string.
pub trait FromBytesInto: Sized {
    /// What a failed reading reports.
    type Err;

    /// The value that `bytes` spell.
    fn from_bytes_into(bytes: &ByteStr) -> Result<Self, Self::Err>;
}

impl<T: ConsumeBytesInto> FromBytesInto for T {
    type Err = T::Err;

    fn from_bytes_into(bytes: &ByteStr) -> (res: Result<Self, Self::Err>)
        ensures
            exists|consumed: Result<(Self, usize), Self::Err>|
                #[trigger] call_ensures(T::consume_bytes_into, (bytes,), consumed) && res
                    == match consumed {
                    Ok((it, _)) => Ok::<Self, Self::Err>(it),
                    Err(e) => Err::<Self, Self::Err>(e),
                },
    {
        from_consumed(T::consume_bytes_into(bytes))
    }
}

impl<'a> ByteStr<'a> {
    /// Reads a value of type `F` from the text.
    pub fn parse_into<F: FromBytesInto>(&self) -> (res: Result<F, F::Err>)
        ensures
            call_ensures(F::from_bytes_into, (self,), res),
    {
        F::from_bytes_into(self)
    }
}

/// `core::slice::from_ref`: the slice of length one that holds `*byte`.
#[verifier::external_body]
fn slice_from_ref(byte: &u8) -> (s: &[u8])
    ensures
        s@ == seq![*byte],
{
    core::slice::from_ref(byte)
}

impl Pattern for u8 {
    /// The byte alone.
    open spec fn spec_pattern(&self) -> Seq<u8> {
        seq![*self]
    }

    fn as_bytes(&self) -> (b: &[u8]) {
        slice_from_ref(self)
    }
}

} // verus!
