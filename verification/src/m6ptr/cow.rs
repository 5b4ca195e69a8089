//! Staging a flat copy-on-write slice without giving the staging a name
//! of its own at the call site.

use crate::m6io::cow::{CowBuf, FlatCow};
use vstd::prelude::*;

verus! {

impl<'a, T: Clone> FlatCow<'a, [T]> {
    /// Wraps the value for staging.
    pub fn to_cow_buf(self) -> (buf: CowBuf<'a, [T]>)
        ensures
            buf.spec_cow() == self,
    {
        self.into_cow_buf()
    }
}

} // verus!
