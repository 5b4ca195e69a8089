//! A key with a value, for use in ordered collections.

use core::cmp::Ordering;
use vstd::prelude::*;
use vstd::std_specs::cmp::{PartialEqSpec, PartialEqSpecImpl, PartialOrdSpec, PartialOrdSpecImpl};

verus! {

/// A key with a value. `==` and `<` look at the keys alone.
#[derive(Debug, Eq, Ord)]
pub struct Entry<K, V>(pub K, pub V);

impl<K: PartialEq, V> PartialEq for Entry<K, V> {
    /// Whether the keys are equal.
    fn eq(&self, other: &Self) -> (r: bool)
        ensures
            call_ensures(K::eq, (&self.0, &other.0), r),
    {
        self.0 == other.0
    }
}

impl<K: PartialEq, V> PartialEqSpecImpl for Entry<K, V> {
    open spec fn obeys_eq_spec() -> bool {
        K::obeys_eq_spec()
    }

    open spec fn eq_spec(&self, other: &Self) -> bool {
        self.0.eq_spec(&other.0)
    }
}

impl<K: PartialOrd, V> PartialOrd for Entry<K, V> {
    /// How the keys compare.
    fn partial_cmp(&self, other: &Self) -> (r: Option<Ordering>)
        ensures
            call_ensures(K::partial_cmp, (&self.0, &other.0), r),
    {
        self.0.partial_cmp(&other.0)
    }
}

impl<K: PartialOrd, V> PartialOrdSpecImpl for Entry<K, V> {
    open spec fn obeys_partial_cmp_spec() -> bool {
        K::obeys_partial_cmp_spec()
    }

    open spec fn partial_cmp_spec(&self, other: &Self) -> Option<Ordering> {
        self.0.partial_cmp_spec(&other.0)
    }
}

} // verus!
