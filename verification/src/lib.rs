//! Low-level collection and byte-sequence primitives: a fixed-capacity heap
//! array with an owning double-ended iterator, a flat copy-on-write slice, and
//! the small structures built around them.

use crate::m6arr::Array;
use crate::m6entry::KVEntry;
use crate::m6tobytes::{byte_of, spec_byte_of};
use vstd::layout::size_of;
use vstd::prelude::*;

pub mod entry;
pub mod m6arr;
pub mod m6bag;
pub mod m6bitmap;
pub mod m6entry;
pub mod m6io;
pub mod m6parsing;
pub mod m6ptr;
pub mod m6stack;
pub mod m6tobytes;

verus! {

/// A value that writes itself as bytes, least significant byte first, into
/// an array of bytes.
pub trait ToLeBytes {
    /// The bytes that the value writes.
    spec fn spec_le_bytes(&self) -> Seq<u8>;

    /// Whether the value can be written: its parts have the sizes that the
    /// writing counts on.
    spec fn spec_le_ready(&self) -> bool;

    /// The value as bytes.
    fn to_le_bytes(&self) -> (bytes: Array<u8>)
        requires
            self.spec_le_ready(),
        ensures
            bytes@ == self.spec_le_bytes(),
    ;
}

/// The four bytes of the low 32 bits of `x`, least significant first.
pub open spec fn spec_low_le_bytes(x: u64) -> Seq<u8> {
    seq![spec_byte_of(x, 0), spec_byte_of(x, 1), spec_byte_of(x, 2), spec_byte_of(x, 3)]
}

/// The four bytes of the low 32 bits of `x`, least significant first.
pub fn low_le_bytes(x: u64) -> (bytes: Array<u8>)
    ensures
        bytes@ == spec_low_le_bytes(x),
{
    let buf: [u8; 4] = [byte_of(x, 0), byte_of(x, 1), byte_of(x, 2), byte_of(x, 3)];
    let bytes = Array::copy_from_slice(buf.as_slice());
    assert(bytes@ =~= spec_low_le_bytes(x));
    bytes
}

impl ToLeBytes for u32 {
    open spec fn spec_le_bytes(&self) -> Seq<u8> {
        spec_low_le_bytes(*self as u64)
    }

    open spec fn spec_le_ready(&self) -> bool {
        true
    }

    fn to_le_bytes(&self) -> (bytes: Array<u8>) {
        low_le_bytes(*self as u64)
    }
}

impl ToLeBytes for u64 {
    open spec fn spec_le_bytes(&self) -> Seq<u8> {
        spec_low_le_bytes(*self)
    }

    open spec fn spec_le_ready(&self) -> bool {
        true
    }

    fn to_le_bytes(&self) -> (bytes: Array<u8>) {
        low_le_bytes(*self)
    }
}

impl ToLeBytes for usize {
    open spec fn spec_le_bytes(&self) -> Seq<u8> {
        spec_low_le_bytes(*self as u64)
    }

    open spec fn spec_le_ready(&self) -> bool {
        true
    }

    fn to_le_bytes(&self) -> (bytes: Array<u8>) {
        low_le_bytes(*self as u64)
    }
}

/// The bytes of the items of `items`, one item after the other.
pub open spec fn spec_concat_le_bytes<T: ToLeBytes>(items: Seq<T>) -> Seq<u8>
    decreases items.len(),
{
    if items.len() == 0 {
        Seq::empty()
    } else {
        spec_concat_le_bytes(items.drop_last()) + items.last().spec_le_bytes()
    }
}

impl<T: ToLeBytes> ToLeBytes for Array<T> {
    open spec fn spec_le_bytes(&self) -> Seq<u8> {
        spec_concat_le_bytes(self@)
    }

    /// Each item is ready and writes as many bytes as a `T` takes in
    /// memory, and all of them together fit an array.
    open spec fn spec_le_ready(&self) -> bool {
        &&& size_of::<T>() * self@.len() <= usize::MAX
        &&& forall|i: int|
            0 <= i < self@.len() ==> (#[trigger] self@[i]).spec_le_ready()
                && self@[i].spec_le_bytes().len() == size_of::<T>()
    }

    fn to_le_bytes(&self) -> (bytes: Array<u8>) {
        let unit: usize = core::mem::size_of::<T>();
        let n: usize = self.len();
        let mut out: Vec<u8> = Vec::new();
        let mut i: usize = 0;
        while i < n
            invariant
                i <= n == self@.len(),
                unit == size_of::<T>(),
                self.spec_le_ready(),
                out@ == spec_concat_le_bytes(self@.take(i as int)),
            decreases n - i,
        {
            let part = self.get(i).to_le_bytes();
            let mut k: usize = 0;
            let ghost head = out@;
            while k < part.len()
                invariant
                    k <= part@.len(),
                    out@ == head + part@.take(k as int),
                decreases part@.len() - k,
            {
                out.push(*part.get(k));
                assert(out@ =~= head + part@.take(k + 1));
                k += 1;
            }
            proof {
                assert(part@.take(part@.len() as int) =~= part@);
                assert(self@.take(i + 1).drop_last() =~= self@.take(i as int));
            }
            i += 1;
        }
        assert(self@.take(n as int) =~= self@);
        Array::copy_from_slice(out.as_slice())
    }
}

impl<K: ToLeBytes, V: ToLeBytes> ToLeBytes for KVEntry<K, V> {
    open spec fn spec_le_bytes(&self) -> Seq<u8> {
        self.0.spec_le_bytes() + self.1.spec_le_bytes()
    }

    /// Both parts are ready, each writes as many bytes as it takes in
    /// memory, and the two together fit an array.
    open spec fn spec_le_ready(&self) -> bool {
        &&& size_of::<K>() + size_of::<V>() <= usize::MAX
        &&& self.0.spec_le_ready()
        &&& self.1.spec_le_ready()
        &&& self.0.spec_le_bytes().len() == size_of::<K>()
        &&& self.1.spec_le_bytes().len() == size_of::<V>()
    }

    fn to_le_bytes(&self) -> (bytes: Array<u8>) {
        let key = self.0.to_le_bytes();
        let value = self.1.to_le_bytes();
        Array::merge(&key, &value)
    }
}

} // verus!
