//! A bag over an ordered map: it keeps every item put in and counts how many
//! equal ones it holds.

use crate::m6arr::clone_is_equal;
use crate::m6arr::into_iter::IntoIter;
use std::collections::BTreeMap;
use vstd::laws_cmp::obeys_cmp;
use vstd::prelude::*;
use vstd::std_specs::btree::{group_btree_axioms, increasing_seq};
use vstd::std_specs::iter::IteratorSpec;

verus! {

broadcast use group_btree_axioms;

/// A bag of items of an ordered type. Equal items are kept side by side, in
/// the order in which they came.
pub struct BTreeBag<T> {
    map: BTreeMap<T, Vec<T>>,
}

/// Whether the order of `T` is a total order that agrees with equality,
/// which is what an ordered map needs of its keys.
pub open spec fn lawful_order<T: Ord>() -> bool {
    obeys_cmp::<T>()
}

/// The groups after `item` has been put in: its group, which was empty if
/// there was none, has `item` behind what it held.
pub open spec fn spec_insert<T>(groups: Map<T, Seq<T>>, item: T) -> Map<T, Seq<T>> {
    groups.insert(
        item,
        if groups.contains_key(item) {
            groups[item].push(item)
        } else {
            Seq::empty().push(item)
        },
    )
}

/// The groups after the items of `items` have been put in one by one.
pub open spec fn spec_insert_all<T>(groups: Map<T, Seq<T>>, items: Seq<T>) -> Map<T, Seq<T>>
    decreases items.len(),
{
    if items.len() == 0 {
        groups
    } else {
        spec_insert(spec_insert_all(groups, items.drop_last()), items.last())
    }
}

impl<T> BTreeBag<T> {
    /// The groups of equal items, each under the item that it holds.
    pub closed spec fn spec_groups(&self) -> Map<T, Seq<T>> {
        self.map@.map_values(|v: Vec<T>| v@)
    }

    /// The group of the items equal to `key`; empty where there is none.
    pub open spec fn spec_group(&self, key: T) -> Seq<T> {
        if self.spec_groups().contains_key(key) {
            self.spec_groups()[key]
        } else {
            Seq::empty()
        }
    }

    /// How many items equal to `key` the bag holds.
    pub open spec fn spec_count(&self, key: T) -> nat {
        self.spec_group(key).len()
    }

    /// The empty bag.
    pub fn new() -> (bag: Self)
        ensures
            bag.spec_groups() == Map::<T, Seq<T>>::empty(),
    {
        let bag = Self { map: BTreeMap::new() };
        assert(bag.spec_groups() =~= Map::<T, Seq<T>>::empty());
        bag
    }
}

impl<T: Ord> BTreeBag<T> {
    /// Puts `item` in, behind the items equal to it that are there already,
    /// and returns how many such items the bag then holds.
    pub fn insert(&mut self, item: T) -> (n: usize) where T: Clone
        requires
            lawful_order::<T>(),
            clone_is_equal::<T>(),
        ensures
            n == old(self).spec_count(item) + 1,
            final(self).spec_groups() == spec_insert(old(self).spec_groups(), item),
    {
        let key = item.clone();
        assert(cloned(item, key));
        let mut colls: Vec<T> = match self.map.remove(&key) {
            Some(colls) => colls,
            None => Vec::new(),
        };
        let ghost was = colls@;
        colls.push(item);
        let n = colls.len();
        self.map.insert(key, colls);
        proof {
            assert(was == old(self).spec_group(item));
            assert(self.spec_groups() =~= old(self).spec_groups().insert(item, was.push(item)));
        }
        n
    }

    /// The bag of the items of `items`, put in one by one.
    pub fn from_iter(items: Vec<T>) -> (bag: Self) where T: Clone
        requires
            lawful_order::<T>(),
            clone_is_equal::<T>(),
        ensures
            bag.spec_groups() == spec_insert_all(Map::<T, Seq<T>>::empty(), items@),
    {
        let mut bag = Self::new();
        let mut rest = IntoIter::from_vec(items);
        while rest.len() > 0
            invariant
                lawful_order::<T>(),
                clone_is_equal::<T>(),
                rest.wf(),
                rest@.len() <= items@.len(),
                rest@ == items@.skip(items@.len() - rest@.len()),
                bag.spec_groups() == spec_insert_all(
                    Map::<T, Seq<T>>::empty(),
                    items@.take(items@.len() - rest@.len()),
                ),
            decreases rest@.len(),
        {
            let ghost k = items@.len() - rest@.len();
            let item = rest.next().unwrap();
            let _ = bag.insert(item);
            proof {
                assert(rest@ =~= items@.skip(k + 1));
                assert(items@.take(k + 1).drop_last() =~= items@.take(k));
            }
        }
        assert(items@.take(items@.len() as int) =~= items@);
        bag
    }

    /// How many items equal to `key` the bag holds.
    pub fn count(&self, key: &T) -> (n: usize)
        requires
            lawful_order::<T>(),
        ensures
            n == self.spec_count(*key),
    {
        if let Some(coll) = self.map.get(key) {
            coll.len()
        } else {
            0
        }
    }

    /// The items that differ, each with the number of items equal to it, in
    /// increasing order.
    pub fn iter(&self) -> (out: Vec<(&T, usize)>)
        requires
            lawful_order::<T>(),
        ensures
            out@.len() == self.spec_groups().dom().len(),
            increasing_seq(out@.map_values(|e: (&T, usize)| *e.0)),
            forall|i: int|
                0 <= i < out@.len() ==> self.spec_groups().contains_key(*(#[trigger] out@[i]).0)
                    && out@[i].1 == self.spec_count(*out@[i].0),
    {
        let ghost all = self.map.iter().remaining();
        let mut out: Vec<(&T, usize)> = Vec::new();
        for kv in it: self.map.iter()
            invariant
                it.seq() == all,
                out@.len() == it.index(),
                forall|i: int|
                    0 <= i < out@.len() ==> *(#[trigger] out@[i]).0 == *all[i].0 && out@[i].1
                        == all[i].1@.len(),
        {
            out.push((kv.0, kv.1.len()));
        }
        proof {
            vstd::std_specs::btree::axiom_spec_btree_map_iter(&self.map);
            assert(self.spec_groups().dom() =~= self.map@.dom());
            assert(out@.map_values(|e: (&T, usize)| *e.0) =~= all.map_values(
                |kv: (&T, &Vec<T>)| *kv.0,
            ));
            assert forall|i: int| 0 <= i < out@.len() implies self.spec_groups().contains_key(
                *(#[trigger] out@[i]).0,
            ) && out@[i].1 == self.spec_count(*out@[i].0) by {
                assert(self.map@.contains_key(*all[i].0));
            }
        }
        out
    }

    /// Every item of the bag: group after group in increasing order, and
    /// inside a group in the order in which the items came.
    pub fn flat_iter(&self) -> (out: Vec<&T>)
        requires
            lawful_order::<T>(),
        ensures
            exists|keys: Seq<T>|
                {
                    &&& #[trigger] increasing_seq(keys)
                    &&& keys.len() == self.spec_groups().dom().len()
                    &&& forall|i: int|
                        0 <= i < keys.len() ==> self.spec_groups().contains_key(#[trigger] keys[i])
                    &&& out@.map_values(|e: &T| *e) == spec_flatten(
                        keys.map_values(|k: T| self.spec_group(k)),
                    )
                },
    {
        let ghost all = self.map.iter().remaining();
        let mut out: Vec<&T> = Vec::new();
        let ghost mut flat: Seq<T> = Seq::empty();
        for kv in it: self.map.iter()
            invariant
                it.seq() == all,
                out@.len() == flat.len(),
                forall|i: int| 0 <= i < flat.len() ==> *(#[trigger] out@[i]) == flat[i],
                flat == spec_flatten(all.take(it.index()).map_values(|kv: (&T, &Vec<T>)| kv.1@)),
        {
            let v: &Vec<T> = kv.1;
            let ghost head = flat;
            let mut j: usize = 0;
            while j < v.len()
                invariant
                    j <= v@.len(),
                    out@.len() == flat.len(),
                    forall|i: int| 0 <= i < flat.len() ==> *(#[trigger] out@[i]) == flat[i],
                    flat == head + v@.take(j as int),
                decreases v@.len() - j,
            {
                out.push(&v[j]);
                proof {
                    flat = flat.push(v@[j as int]);
                    assert(flat =~= head + v@.take(j + 1));
                }
                j += 1;
            }
            proof {
                assert(v@.take(v@.len() as int) =~= v@);
                let groups = all.take(it.index() + 1).map_values(|kv: (&T, &Vec<T>)| kv.1@);
                assert(groups.drop_last() =~= all.take(it.index()).map_values(
                    |kv: (&T, &Vec<T>)| kv.1@,
                ));
                assert(groups.last() == v@);
            }
        }
        proof {
            vstd::std_specs::btree::axiom_spec_btree_map_iter(&self.map);
            assert(self.spec_groups().dom() =~= self.map@.dom());
            let keys = all.map_values(|kv: (&T, &Vec<T>)| *kv.0);
            assert(all.take(all.len() as int) =~= all);
            assert(out@.map_values(|e: &T| *e) =~= flat);
            assert forall|i: int| 0 <= i < keys.len() implies self.spec_groups().contains_key(
                #[trigger] keys[i],
            ) by {
                assert(self.map@.contains_key(*all[i].0));
            }
            assert(keys.map_values(|k: T| self.spec_group(k)) =~= all.map_values(
                |kv: (&T, &Vec<T>)| kv.1@,
            )) by {
                assert forall|i: int| 0 <= i < all.len() implies self.spec_group(keys[i])
                    == all[i].1@ by {
                    assert(self.map@.contains_key(*all[i].0));
                }
            }
        }
        out
    }
}

/// The items of all groups, one group after the other.
pub open spec fn spec_flatten<T>(groups: Seq<Seq<T>>) -> Seq<T>
    decreases groups.len(),
{
    if groups.len() == 0 {
        Seq::empty()
    } else {
        spec_flatten(groups.drop_last()) + groups.last()
    }
}

} // verus!
