//! Pairs that are compared by their first part.

use core::cmp::Ordering;
use vstd::prelude::*;
use vstd::std_specs::cmp::{PartialEqSpec, PartialEqSpecImpl, PartialOrdSpec, PartialOrdSpecImpl};

verus! {

/// A key with a value. Two of them are compared by their keys alone.
#[derive(Debug, Clone)]
pub struct KVEntry<K, V>(pub K, pub V);

/// A pair that is ordered by its first part, then by its second.
#[derive(PartialEq, Eq, PartialOrd, Ord)]
pub struct TOEntry2<T1, T2>(pub T1, pub T2);

impl<K: PartialEq, V> PartialEq for KVEntry<K, V> {
    /// Whether the keys are equal.
    fn eq(&self, other: &Self) -> (r: bool)
        ensures
            call_ensures(K::eq, (&self.0, &other.0), r),
    {
        self.0 == other.0
    }
}

impl<K: PartialEq, V> PartialEqSpecImpl for KVEntry<K, V> {
    open spec fn obeys_eq_spec() -> bool {
        K::obeys_eq_spec()
    }

    open spec fn eq_spec(&self, other: &Self) -> bool {
        self.0.eq_spec(&other.0)
    }
}

impl<K: PartialEq, V> Eq for KVEntry<K, V> {

}

impl<K: PartialOrd, V> PartialOrd for KVEntry<K, V> {
    /// How the keys compare.
    fn partial_cmp(&self, other: &Self) -> (r: Option<Ordering>)
        ensures
            call_ensures(K::partial_cmp, (&self.0, &other.0), r),
    {
        self.0.partial_cmp(&other.0)
    }
}

impl<K: PartialOrd, V> PartialOrdSpecImpl for KVEntry<K, V> {
    open spec fn obeys_partial_cmp_spec() -> bool {
        K::obeys_partial_cmp_spec()
    }

    open spec fn partial_cmp_spec(&self, other: &Self) -> Option<Ordering> {
        self.0.partial_cmp_spec(&other.0)
    }
}

/// The ordering inside `o`.
pub open spec fn ordering_in(o: Option<Ordering>) -> Ordering
    recommends
        o is Some,
{
    match o {
        Some(ordering) => ordering,
        None => Ordering::Equal,
    }
}

impl<K: PartialOrd, V> KVEntry<K, V> {
    /// How the keys compare, for keys that can always be compared.
    pub fn cmp(&self, other: &Self) -> (r: Ordering)
        requires
            K::obeys_partial_cmp_spec(),
            self.0.partial_cmp_spec(&other.0) is Some,
        ensures
            r == ordering_in(self.0.partial_cmp_spec(&other.0)),
    {
        match self.partial_cmp(other) {
            Some(ordering) => ordering,
            None => unreached(),
        }
    }
}

} // verus!
