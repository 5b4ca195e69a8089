//! The owning, double-ended iterator that an array turns into.

use std::collections::VecDeque;
use vstd::prelude::*;

verus! {

/// Owns what is left of an array and hands its items out by value, from the
/// front and from the back. It remembers the capacity that the array had and
/// the two cursors between which the items not yet handed out lie.
pub struct IntoIter<T> {
    cap: usize,
    front: usize,
    back: usize,
    items: VecDeque<T>,
}

impl<T> View for IntoIter<T> {
    type V = Seq<T>;

    /// The items not yet handed out, front first.
    closed spec fn view(&self) -> Seq<T> {
        self.items@
    }
}

/// What a run of calls hands out of `s`, one item per entry of `from_back`:
/// the last item left where the entry is `true`, the first item left where
/// it is `false`. The run ends early when nothing is left.
pub open spec fn drain_order<T>(s: Seq<T>, from_back: Seq<bool>) -> Seq<T>
    decreases from_back.len(),
{
    if from_back.len() == 0 || s.len() == 0 {
        Seq::empty()
    } else if from_back[0] {
        seq![s.last()] + drain_order(s.drop_last(), from_back.skip(1))
    } else {
        seq![s[0]] + drain_order(s.skip(1), from_back.skip(1))
    }
}

/// Draining from the front alone hands out the items in their order, each
/// once.
pub proof fn lemma_drain_front_is_identity<T>(s: Seq<T>, from_back: Seq<bool>)
    requires
        from_back.len() == s.len(),
        forall|i: int| 0 <= i < from_back.len() ==> !from_back[i],
    ensures
        drain_order(s, from_back) == s,
    decreases from_back.len(),
{
    if s.len() > 0 {
        lemma_drain_front_is_identity(s.skip(1), from_back.skip(1));
        assert(seq![s[0]] + s.skip(1) =~= s);
    } else {
        assert(s =~= Seq::<T>::empty());
    }
}

/// Draining from the back alone hands out the items in reverse order, each
/// once.
pub proof fn lemma_drain_back_is_reverse<T>(s: Seq<T>, from_back: Seq<bool>)
    requires
        from_back.len() == s.len(),
        forall|i: int| 0 <= i < from_back.len() ==> from_back[i],
    ensures
        drain_order(s, from_back) == s.reverse(),
    decreases from_back.len(),
{
    if s.len() > 0 {
        lemma_drain_back_is_reverse(s.drop_last(), from_back.skip(1));
        assert(seq![s.last()] + s.drop_last().reverse() =~= s.reverse());
    } else {
        assert(s.reverse() =~= Seq::<T>::empty());
    }
}

/// However the calls from the front and from the back are interleaved, a
/// full drain hands out every item exactly once: what comes out holds the
/// items of `s` as a multiset, with nothing lost and nothing doubled.
pub proof fn lemma_drain_is_permutation<T>(s: Seq<T>, from_back: Seq<bool>)
    requires
        from_back.len() == s.len(),
    ensures
        drain_order(s, from_back).len() == s.len(),
        drain_order(s, from_back).to_multiset() == s.to_multiset(),
    decreases from_back.len(),
{
    broadcast use vstd::seq_lib::group_to_multiset_ensures;

    if s.len() == 0 {
        assert(s =~= Seq::<T>::empty());
    } else if from_back[0] {
        let rest = drain_order(s.drop_last(), from_back.skip(1));
        lemma_drain_is_permutation(s.drop_last(), from_back.skip(1));
        assert(s =~= s.drop_last().push(s.last()));
        vstd::seq_lib::lemma_multiset_commutative(seq![s.last()], rest);
        assert(seq![s.last()] =~= Seq::<T>::empty().push(s.last()));
        assert(drain_order(s, from_back).to_multiset() =~= s.to_multiset());
    } else {
        let rest = drain_order(s.skip(1), from_back.skip(1));
        lemma_drain_is_permutation(s.skip(1), from_back.skip(1));
        assert(s =~= seq![s[0]] + s.skip(1));
        vstd::seq_lib::lemma_multiset_commutative(seq![s[0]], rest);
        vstd::seq_lib::lemma_multiset_commutative(seq![s[0]], s.skip(1));
        assert(drain_order(s, from_back).to_multiset() =~= s.to_multiset());
    }
}

impl<T> IntoIter<T> {
    /// The cursors are in order and inside the capacity, and exactly the
    /// items between them are left.
    pub closed spec fn wf(&self) -> bool {
        &&& self.front <= self.back <= self.cap
        &&& self.items@.len() == self.back - self.front
    }

    /// The capacity of the array that the iterator was made from.
    pub closed spec fn spec_cap(&self) -> nat {
        self.cap as nat
    }

    /// The slot of the next item that `next` hands out.
    pub closed spec fn spec_front(&self) -> nat {
        self.front as nat
    }

    /// One past the slot of the next item that `next_back` hands out.
    pub closed spec fn spec_back(&self) -> nat {
        self.back as nat
    }

    /// In a well-formed iterator the front cursor never passes the back
    /// cursor, neither leaves the capacity, and the number of items left is
    /// their distance.
    pub proof fn lemma_cursors(&self)
        requires
            self.wf(),
        ensures
            self.spec_front() <= self.spec_back() <= self.spec_cap(),
            self@.len() == self.spec_back() - self.spec_front(),
    {
    }

    /// Takes over the items of `data`, first item at the front.
    pub fn from_vec(data: Vec<T>) -> (it: Self)
        ensures
            it.wf(),
            it@ == data@,
            it.spec_cap() == data@.len(),
            it.spec_front() == 0,
            it.spec_back() == data@.len(),
    {
        let cap = data.len();
        let mut data = data;
        let mut items: VecDeque<T> = VecDeque::new();
        let ghost all = data@;
        while data.len() > 0
            invariant
                data@.len() <= all.len(),
                data@ + items@ =~= all,
            decreases data@.len(),
        {
            let x = data.pop().unwrap();
            items.push_front(x);
        }
        assert(items@ =~= all);
        IntoIter { cap, front: 0, back: cap, items }
    }

    /// The capacity that the array had when the iterator took it over. It
    /// stays the same however many items have been handed out.
    pub fn capacity(&self) -> (n: usize)
        ensures
            n == self.spec_cap(),
    {
        self.cap
    }

    /// The number of items left: the distance between the two cursors.
    pub fn len(&self) -> (n: usize)
        requires
            self.wf(),
        ensures
            n == self@.len(),
            n == self.spec_back() - self.spec_front(),
    {
        self.back - self.front
    }

    /// Whether every item has been handed out.
    pub fn is_empty(&self) -> (b: bool)
        requires
            self.wf(),
        ensures
            b == (self@.len() == 0),
            b == (self.spec_front() == self.spec_back()),
    {
        self.front == self.back
    }

    /// The exact number of items left, as a lower and an upper bound.
    pub fn size_hint(&self) -> (hint: (usize, Option<usize>))
        requires
            self.wf(),
        ensures
            hint.0 == self@.len(),
            hint.1 == Some(hint.0),
    {
        let exact = self.len();
        (exact, Some(exact))
    }

    /// Uses the iterator up and returns the number of items that were left.
    pub fn count(self) -> (n: usize)
        requires
            self.wf(),
        ensures
            n == self@.len(),
    {
        self.len()
    }

    /// The item `i` places behind the front cursor.
    pub fn get(&self, i: usize) -> (item: &T)
        requires
            self.wf(),
            i < self@.len(),
        ensures
            *item == self@[i as int],
    {
        &self.items[i]
    }

    /// Drops the items that are left and puts the front cursor on the back
    /// cursor; the capacity is kept.
    pub fn forget_remaining_elements(&mut self)
        requires
            old(self).wf(),
        ensures
            final(self).wf(),
            final(self)@ == Seq::<T>::empty(),
            final(self).spec_front() == old(self).spec_back(),
            final(self).spec_back() == old(self).spec_back(),
            final(self).spec_cap() == old(self).spec_cap(),
    {
        self.items.clear();
        self.front = self.back;
    }

    /// Moves the front item out and steps the front cursor over it. Once
    /// the cursors have met it returns `None`, and goes on doing so.
    pub fn next(&mut self) -> (item: Option<T>)
        requires
            old(self).wf(),
        ensures
            final(self).wf(),
            final(self).spec_cap() == old(self).spec_cap(),
            final(self).spec_back() == old(self).spec_back(),
            old(self)@.len() == 0 ==> item.is_none() && final(self)@ == old(self)@ && final(self).spec_front() == old(self).spec_front(),
            old(self)@.len() > 0 ==> item == Some(old(self)@[0]) && final(self)@ == old(self)@.skip(1) && final(self).spec_front() == old(self).spec_front() + 1,
    {
        if self.front == self.back {
            return None;
        }
        let item = self.items.pop_front();
        self.front = self.front + 1;
        assert(self.items@ =~= old(self).items@.skip(1));
        item
    }

    /// Steps the back cursor one slot down and moves the item there out.
    /// Once the cursors have met it returns `None`, and goes on doing so.
    pub fn next_back(&mut self) -> (item: Option<T>)
        requires
            old(self).wf(),
        ensures
            final(self).wf(),
            final(self).spec_cap() == old(self).spec_cap(),
            final(self).spec_front() == old(self).spec_front(),
            old(self)@.len() == 0 ==> item.is_none() && final(self)@ == old(self)@ && final(self).spec_back() == old(self).spec_back(),
            old(self)@.len() > 0 ==> item == Some(old(self)@.last()) && final(self)@ == old(self)@.drop_last() && final(self).spec_back() == old(self).spec_back() - 1,
    {
        if self.front == self.back {
            return None;
        }
        self.back = self.back - 1;
        let item = self.items.pop_back();
        assert(self.items@ =~= old(self).items@.drop_last());
        item
    }

    /// Drops up to `n` items from the front without handing them out.
    /// Returns `Ok` when `n` items were there, else `Err` with the number
    /// that were, all of which are then gone.
    pub fn advance_by(&mut self, n: usize) -> (res: Result<(), usize>)
        requires
            old(self).wf(),
        ensures
            final(self).wf(),
            final(self).spec_cap() == old(self).spec_cap(),
            final(self).spec_back() == old(self).spec_back(),
            n <= old(self)@.len() ==> res == Ok::<(), usize>(()) && final(self)@ == old(self)@.skip(
                n as int,
            ) && final(self).spec_front() == old(self).spec_front() + n,
            n > old(self)@.len() ==> res == Err::<(), usize>(old(self)@.len() as usize) && final(self)@ == Seq::<T>::empty() && final(self).spec_front() == old(self).spec_back(),
    {
        let len = self.len();
        let step_size: usize = if len < n { len } else { n };
        let mut k: usize = 0;
        while k < step_size
            invariant
                self.wf(),
                k <= step_size <= old(self)@.len(),
                self.cap == old(self).cap,
                self.back == old(self).back,
                self.front == old(self).front + k,
                self.items@ == old(self).items@.skip(k as int),
            decreases step_size - k,
        {
            let _ = self.items.pop_front();
            self.front = self.front + 1;
            k += 1;
            assert(self.items@ =~= old(self).items@.skip(k as int));
        }
        if step_size < n {
            assert(self.items@ =~= Seq::<T>::empty());
            return Err(step_size);
        }
        Ok(())
    }

    /// Drops up to `n` items from the back without handing them out.
    /// Returns `Ok` when `n` items were there, else `Err` with the number
    /// that were, all of which are then gone.
    pub fn advance_back_by(&mut self, n: usize) -> (res: Result<(), usize>)
        requires
            old(self).wf(),
        ensures
            final(self).wf(),
            final(self).spec_cap() == old(self).spec_cap(),
            final(self).spec_front() == old(self).spec_front(),
            n <= old(self)@.len() ==> res == Ok::<(), usize>(()) && final(self)@ == old(self)@.take(old(self)@.len() - n) && final(self).spec_back() == old(self).spec_back() - n,
            n > old(self)@.len() ==> res == Err::<(), usize>(old(self)@.len() as usize) && final(self)@ == Seq::<T>::empty() && final(self).spec_back() == old(self).spec_front(),
    {
        let len = self.len();
        let step_size: usize = if len < n { len } else { n };
        let mut k: usize = 0;
        while k < step_size
            invariant
                self.wf(),
                k <= step_size <= old(self)@.len(),
                self.cap == old(self).cap,
                self.front == old(self).front,
                self.back == old(self).back - k,
                self.items@ == old(self).items@.take(old(self).items@.len() - k),
            decreases step_size - k,
        {
            let _ = self.items.pop_back();
            self.back = self.back - 1;
            k += 1;
            assert(self.items@ =~= old(self).items@.take(old(self).items@.len() - k));
        }
        if step_size < n {
            assert(self.items@ =~= Seq::<T>::empty());
            return Err(step_size);
        }
        Ok(())
    }

    /// Moves a batch of `n` items out of the front. With `n` or more items
    /// left the batch is full and comes as `Ok`. With fewer, whatever is left
    /// comes as `Err`, and the iterator is exhausted.
    pub fn next_chunk(&mut self, n: usize) -> (res: Result<Vec<T>, Vec<T>>)
        requires
            old(self).wf(),
        ensures
            final(self).wf(),
            final(self).spec_cap() == old(self).spec_cap(),
            final(self).spec_back() == old(self).spec_back(),
            n <= old(self)@.len() ==> (res matches Ok(chunk) && chunk@ == old(self)@.take(
                n as int,
            )) && final(self)@ == old(self)@.skip(n as int) && final(self).spec_front() == old(self).spec_front() + n,
            n > old(self)@.len() ==> (res matches Err(rest) && rest@ == old(self)@) && final(self)@
                == Seq::<T>::empty() && final(self).spec_front() == old(self).spec_back(),
    {
        let len = self.len();
        let take: usize = if len < n { len } else { n };
        let mut chunk: Vec<T> = Vec::new();
        while chunk.len() < take
            invariant
                self.wf(),
                chunk@.len() <= take <= old(self)@.len(),
                self.cap == old(self).cap,
                self.back == old(self).back,
                self.front == old(self).front + chunk@.len(),
                self.items@ == old(self).items@.skip(chunk@.len() as int),
                chunk@ == old(self).items@.take(chunk@.len() as int),
            decreases take - chunk@.len(),
        {
            let ghost k = chunk@.len() as int;
            let item = self.items.pop_front().unwrap();
            self.front = self.front + 1;
            chunk.push(item);
            assert(self.items@ =~= old(self).items@.skip(k + 1));
            assert(chunk@ =~= old(self).items@.take(k + 1));
        }
        if len < n {
            assert(chunk@ =~= old(self).items@);
            self.forget_remaining_elements();
            return Err(chunk);
        }
        Ok(chunk)
    }
}

} // verus!
