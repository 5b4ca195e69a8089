//! A heap array of fixed capacity: its length is its capacity, and it only
//! changes size through an explicit `resize`.

use vstd::prelude::*;

pub mod into_iter;

verus! {

/// A contiguous, exclusively owned run of `T` whose length doubles as its
/// capacity.
pub struct Array<T> {
    data: Vec<T>,
}

impl<T> View for Array<T> {
    type V = Seq<T>;

    /// The elements, in index order.
    closed spec fn view(&self) -> Seq<T> {
        self.data@
    }
}

/// Whether every item of `s` is a value that `T::default` may return.
pub open spec fn all_default<T: Default>(s: Seq<T>) -> bool {
    forall|i: int| 0 <= i < s.len() ==> call_ensures(T::default, (), #[trigger] s[i])
}

/// Whether a clone of a `T` is always equal to what was cloned, as it is
/// for numbers, characters and the other types that are copied bit by bit.
pub open spec fn clone_is_equal<T: Clone>() -> bool {
    forall|a: T, b: T| #[trigger] cloned(a, b) ==> a == b
}

/// Each item of `to` is a clone of the item of `from` at the same index;
/// where a clone of a `T` is equal to what was cloned, `to` is `from`.
pub open spec fn cloned_seq<T: Clone>(from: Seq<T>, to: Seq<T>) -> bool {
    &&& from.len() == to.len()
    &&& forall|i: int| 0 <= i < from.len() ==> cloned(#[trigger] from[i], to[i])
    &&& clone_is_equal::<T>() ==> to == from
}

/// Clones at the same places make a sequence of clones.
pub proof fn lemma_cloned_seq<T: Clone>(from: Seq<T>, to: Seq<T>)
    requires
        from.len() == to.len(),
        forall|i: int| 0 <= i < from.len() ==> cloned(#[trigger] from[i], to[i]),
    ensures
        cloned_seq(from, to),
{
    if clone_is_equal::<T>() {
        assert(to =~= from);
    }
}

impl<T> Array<T> {
    /// The array of length zero.
    pub fn empty() -> (arr: Self)
        ensures
            arr@ == Seq::<T>::empty(),
    {
        Array { data: Vec::new() }
    }

    /// An array of `cap` slots, each holding the default value of `T`: zero
    /// for the number types, `false`, the character zero.
    pub fn new(cap: usize) -> (arr: Self) where T: Default
        ensures
            arr@.len() == cap,
            all_default(arr@),
    {
        let mut data: Vec<T> = Vec::new();
        while data.len() < cap
            invariant
                data@.len() <= cap,
                all_default(data@),
            decreases cap - data@.len(),
        {
            data.push(T::default());
        }
        Array { data }
    }

    /// An array of `cap` slots, each a copy of `init`.
    pub fn new_with(init: T, cap: usize) -> (arr: Self) where T: Copy
        ensures
            arr@ == Seq::new(cap as nat, |i: int| init),
    {
        let mut data: Vec<T> = Vec::new();
        while data.len() < cap
            invariant
                data@.len() <= cap,
                forall|i: int| 0 <= i < data@.len() ==> data@[i] == init,
            decreases cap - data@.len(),
        {
            data.push(init);
        }
        assert(data@ =~= Seq::new(cap as nat, |i: int| init));
        Array { data }
    }

    /// An array of `cap` slots, each a clone of `init`.
    pub fn new_with_clone(init: T, cap: usize) -> (arr: Self) where T: Clone
        ensures
            cloned_seq(Seq::new(cap as nat, |i: int| init), arr@),
    {
        let mut data: Vec<T> = Vec::new();
        while data.len() < cap
            invariant
                data@.len() <= cap,
                forall|i: int| 0 <= i < data@.len() ==> cloned(init, #[trigger] data@[i]),
            decreases cap - data@.len(),
        {
            data.push(init.clone());
        }
        proof {
            lemma_cloned_seq(Seq::new(cap as nat, |i: int| init), data@);
        }
        Array { data }
    }

    /// An array holding a copy of each item of `src`, in order.
    pub fn copy_from_slice(src: &[T]) -> (arr: Self) where T: Copy
        ensures
            arr@ == src@,
    {
        let mut data: Vec<T> = Vec::new();
        let mut i: usize = 0;
        while i < src.len()
            invariant
                i <= src@.len(),
                data@ == src@.subrange(0, i as int),
            decreases src@.len() - i,
        {
            data.push(src[i]);
            assert(data@ =~= src@.subrange(0, i + 1));
            i += 1;
        }
        assert(src@.subrange(0, src@.len() as int) =~= src@);
        Array { data }
    }

    /// An array holding a clone of each item of `src`, in order.
    pub fn clone_from_slice(src: &[T]) -> (arr: Self) where T: Clone
        ensures
            cloned_seq(src@, arr@),
    {
        let mut data: Vec<T> = Vec::new();
        let mut i: usize = 0;
        while i < src.len()
            invariant
                i <= src@.len(),
                data@.len() == i,
                forall|k: int| 0 <= k < i ==> cloned(#[trigger] src@[k], data@[k]),
            decreases src@.len() - i,
        {
            data.push(src[i].clone());
            i += 1;
        }
        proof {
            lemma_cloned_seq(src@, data@);
        }
        Array { data }
    }

    /// An array that takes over the first `cap` items of `values`, or all
    /// of them where there are fewer; the items behind them are dropped.
    pub fn from_vec(values: Vec<T>, cap: usize) -> (arr: Self)
        ensures
            arr@ == values@.take(
                if cap <= values@.len() {
                    cap as int
                } else {
                    values@.len() as int
                },
            ),
    {
        let mut data = values;
        data.truncate(cap);
        assert(values@.take(values@.len() as int) =~= values@);
        Array { data }
    }

    /// The items of `lf` followed by those of `rh`, in a fresh array. Both
    /// arguments are left as they were.
    pub fn merge(lf: &Self, rh: &Self) -> (arr: Self) where T: Copy
        requires
            lf@.len() + rh@.len() <= usize::MAX,
        ensures
            arr@ == lf@ + rh@,
    {
        let mut data: Vec<T> = Vec::new();
        let mut i: usize = 0;
        while i < lf.data.len()
            invariant
                i <= lf.data@.len(),
                data@ == lf.data@.subrange(0, i as int),
            decreases lf.data@.len() - i,
        {
            data.push(lf.data[i]);
            assert(data@ =~= lf.data@.subrange(0, i + 1));
            i += 1;
        }
        let mut j: usize = 0;
        while j < rh.data.len()
            invariant
                j <= rh.data@.len(),
                data@ == lf.data@ + rh.data@.subrange(0, j as int),
            decreases rh.data@.len() - j,
        {
            data.push(rh.data[j]);
            assert(data@ =~= lf.data@ + rh.data@.subrange(0, j + 1));
            j += 1;
        }
        assert(lf.data@.subrange(0, lf.data@.len() as int) =~= lf.data@);
        assert(rh.data@.subrange(0, rh.data@.len() as int) =~= rh.data@);
        Array { data }
    }

    /// The number of slots.
    pub fn len(&self) -> (n: usize)
        ensures
            n == self@.len(),
    {
        self.data.len()
    }

    /// Whether the array has no slot.
    pub fn is_empty(&self) -> (b: bool)
        ensures
            b == (self@.len() == 0),
    {
        self.data.len() == 0
    }

    /// The items as a slice.
    pub fn as_slice(&self) -> (s: &[T])
        ensures
            s@ == self@,
    {
        self.data.as_slice()
    }

    /// The item in slot `i`.
    pub fn get(&self, i: usize) -> (item: &T)
        requires
            i < self@.len(),
        ensures
            *item == self@[i as int],
    {
        &self.data[i]
    }

    /// Puts `value` in slot `i`; the other slots keep their items.
    pub fn set(&mut self, i: usize, value: T)
        requires
            i < old(self)@.len(),
        ensures
            final(self)@ == old(self)@.update(i as int, value),
    {
        self.data.set(i, value);
    }

    /// Changes the number of slots to `new_cap`. The items in the slots that
    /// remain are moved over unchanged; slots past the old length hold the
    /// default value; items past the new length are dropped.
    pub fn resize(&mut self, new_cap: usize) where T: Default
        ensures
            final(self)@.len() == new_cap,
            forall|i: int|
                0 <= i < new_cap && i < old(self)@.len() ==> #[trigger] final(self)@[i] == old(self)@[i],
            forall|i: int|
                old(self)@.len() <= i < new_cap ==> call_ensures(
                    T::default,
                    (),
                    #[trigger] final(self)@[i],
                ),
    {
        let ghost before = self.data@;
        self.data.truncate(new_cap);
        while self.data.len() < new_cap
            invariant
                self.data@.len() <= new_cap,
                self.data@.len() >= before.len() || self.data@.len() == new_cap,
                forall|i: int|
                    0 <= i < self.data@.len() && i < before.len() ==> #[trigger] self.data@[i]
                        == before[i],
                forall|i: int|
                    before.len() <= i < self.data@.len() ==> call_ensures(
                        T::default,
                        (),
                        #[trigger] self.data@[i],
                    ),
            decreases new_cap - self.data@.len(),
        {
            self.data.push(T::default());
        }
    }

    /// A cursor over the items from slot 0 on, borrowing the array.
    pub fn iter<'a>(&'a self) -> (it: Iter<'a, T>)
        ensures
            it.spec_items() == self@,
            it.spec_pos() == 0,
            it.spec_rest() == self@,
    {
        assert(self.data@.skip(0) =~= self.data@);
        Iter { items: self.data.as_slice(), pos: 0 }
    }

    /// Gives up the array for the iterator that owns its items.
    pub fn into_iter(self) -> (it: into_iter::IntoIter<T>)
        ensures
            it.wf(),
            it@ == self@,
            it.spec_cap() == self@.len(),
            it.spec_front() == 0,
            it.spec_back() == self@.len(),
    {
        into_iter::IntoIter::from_vec(self.data)
    }
}

/// A borrowing cursor over an array: each `next` hands out the item under the
/// cursor and moves one slot on.
pub struct Iter<'a, T> {
    items: &'a [T],
    pos: usize,
}

impl<'a, T> Iter<'a, T> {
    /// The items of the array that the cursor walks.
    pub closed spec fn spec_items(&self) -> Seq<T> {
        self.items@
    }

    /// The number of items handed out so far.
    pub closed spec fn spec_pos(&self) -> nat {
        if self.pos <= self.items@.len() {
            self.pos as nat
        } else {
            self.items@.len()
        }
    }

    /// The items that are still to come, in the order in which they come.
    pub open spec fn spec_rest(&self) -> Seq<T> {
        self.spec_items().skip(self.spec_pos() as int)
    }

    /// The cursor never stands behind the end of the items.
    pub proof fn lemma_pos_in_bounds(&self)
        ensures
            self.spec_pos() <= self.spec_items().len(),
    {
    }

    /// The item under the cursor, or `None` once every item has been handed
    /// out; from then on it stays `None`.
    pub fn next(&mut self) -> (item: Option<&'a T>)
        ensures
            final(self).spec_items() == old(self).spec_items(),
            old(self).spec_rest().len() > 0 ==> item == Some(&old(self).spec_rest()[0]) && final(self).spec_rest() == old(self).spec_rest().skip(1),
            old(self).spec_rest().len() == 0 ==> item.is_none() && final(self).spec_rest() == old(self).spec_rest(),
            old(self).spec_pos() < old(self).spec_items().len() ==> item == Some(
                &old(self).spec_items()[old(self).spec_pos() as int],
            ) && final(self).spec_pos() == old(self).spec_pos() + 1,
            old(self).spec_pos() >= old(self).spec_items().len() ==> item.is_none() && final(self).spec_pos() == old(self).spec_pos(),
    {
        if self.pos >= self.items.len() {
            return None;
        }
        let res = &self.items[self.pos];
        self.pos += 1;
        assert(self.spec_rest() =~= old(self).spec_rest().skip(1));
        Some(res)
    }
}

/// Going through an array that was made from a slice hands out the items
/// of the slice, each once and in their order: a cursor at the head of an
/// array whose items are `src` has exactly `src` still to come, and taking
/// the items from the front one by one gives `src`.
pub proof fn lemma_round_trip<'a, T>(src: Seq<T>, arr: Array<T>, cursor: Iter<'a, T>)
    requires
        arr@ == src,
        cursor.spec_items() == arr@,
        cursor.spec_pos() == 0,
    ensures
        cursor.spec_rest() == src,
        into_iter::drain_order(cursor.spec_rest(), Seq::new(src.len(), |i: int| false)) == src,
{
    assert(src.skip(0) =~= src);
    into_iter::lemma_drain_front_is_identity(src, Seq::new(src.len(), |i: int| false));
}

/// An array joined with the empty array, on either side, has the items
/// that it had.
pub proof fn lemma_merge_with_empty<T>(items: Seq<T>)
    ensures
        Seq::<T>::empty() + items == items,
        items + Seq::<T>::empty() == items,
{
    assert(Seq::<T>::empty() + items =~= items);
    assert(items + Seq::<T>::empty() =~= items);
}

impl<T: Clone> Clone for Array<T> {
    /// An array holding a clone of each item, in order.
    fn clone(&self) -> (arr: Self)
        ensures
            cloned_seq(self@, arr@),
    {
        Array::clone_from_slice(self.data.as_slice())
    }
}

impl<T: Clone> From<&[T]> for Array<T> {
    /// An array holding a clone of each item of `src`, in order.
    fn from(src: &[T]) -> (arr: Self)
        ensures
            cloned_seq(src@, arr@),
    {
        Array::clone_from_slice(src)
    }
}

impl<T: Clone> vstd::std_specs::convert::FromSpecImpl<&[T]> for Array<T> {
    open spec fn obeys_from_spec() -> bool {
        false
    }

    closed spec fn from_spec(src: &[T]) -> Self {
        arbitrary()
    }
}

impl<T> Default for Array<T> {
    /// The array of length zero.
    fn default() -> (arr: Self)
        ensures
            arr@ == Seq::<T>::empty(),
    {
        Array::empty()
    }
}

impl<T> core::ops::Deref for Array<T> {
    type Target = [T];

    /// The items as a slice.
    fn deref(&self) -> (s: &[T])
        ensures
            s@ == self@,
    {
        self.data.as_slice()
    }
}

} // verus!
