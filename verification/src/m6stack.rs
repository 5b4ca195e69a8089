//! A stack over a vector: the last item pushed is the first one popped.

use crate::m6arr::into_iter::IntoIter;
use crate::m6arr::{cloned_seq, lemma_cloned_seq};
use vstd::prelude::*;

verus! {

/// A stack. Its view lists the items from the bottom to the top.
pub struct Stack<T> {
    _value_vec: Vec<T>,
}

impl<T> View for Stack<T> {
    type V = Seq<T>;

    closed spec fn view(&self) -> Seq<T> {
        self._value_vec@
    }
}

/// A cursor over borrowed items: each `next` hands out the item under the
/// cursor and moves one place on.
pub struct AnIteratorWrapper<'a, T> {
    items: &'a [T],
    pos: usize,
}

impl<'a, T> AnIteratorWrapper<'a, T> {
    /// The items that are still to come, in the order in which they come.
    pub closed spec fn spec_rest(&self) -> Seq<T> {
        if self.pos <= self.items@.len() {
            self.items@.skip(self.pos as int)
        } else {
            Seq::empty()
        }
    }

    /// The next item, or `None` when none is left.
    pub fn next(&mut self) -> (item: Option<&'a T>)
        ensures
            old(self).spec_rest().len() > 0 ==> item == Some(&old(self).spec_rest()[0]) && final(self).spec_rest() == old(self).spec_rest().skip(1),
            old(self).spec_rest().len() == 0 ==> item.is_none() && final(self).spec_rest() == old(self).spec_rest(),
    {
        if self.pos >= self.items.len() {
            return None;
        }
        let res = &self.items[self.pos];
        self.pos += 1;
        assert(self.spec_rest() =~= old(self).spec_rest().skip(1));
        Some(res)
    }
}

impl<T> Stack<T> {
    /// The empty stack.
    pub fn new() -> (stack: Self)
        ensures
            stack@ == Seq::<T>::empty(),
    {
        Self { _value_vec: Vec::new() }
    }

    /// Puts `item` on top.
    pub fn push(&mut self, item: T)
        ensures
            final(self)@ == old(self)@.push(item),
    {
        self._value_vec.push(item)
    }

    /// Takes the top item off, if there is one.
    pub fn pop(&mut self) -> (item: Option<T>)
        ensures
            old(self)@.len() == 0 ==> item.is_none() && final(self)@ == old(self)@,
            old(self)@.len() > 0 ==> item == Some(old(self)@.last()) && final(self)@ == old(self)@.drop_last(),
    {
        self._value_vec.pop()
    }

    /// The top item, if there is one.
    pub fn peek(&self) -> (item: Option<&T>)
        ensures
            self@.len() == 0 ==> item.is_none(),
            self@.len() > 0 ==> item == Some(&self@.last()),
    {
        self._value_vec.as_slice().last()
    }

    /// The top item for writing, if there is one: what is written through
    /// the reference becomes the top item, and the items below stay.
    pub fn peek_mut(&mut self) -> (item: Option<&mut T>)
        ensures
            old(self)@.len() == 0 ==> item.is_none() && final(self)@ == old(self)@,
            old(self)@.len() > 0 ==> item.is_some() && *item.unwrap() == old(self)@.last()
                && final(self)@ == old(self)@.update(
                old(self)@.len() - 1,
                *final(item.unwrap()),
            ),
    {
        self._value_vec.as_mut_slice().last_mut()
    }

    /// The number of items.
    pub fn len(&self) -> (n: usize)
        ensures
            n == self@.len(),
    {
        self._value_vec.len()
    }

    /// Whether there is no item.
    pub fn is_empty(&self) -> (b: bool)
        ensures
            b == (self@.len() == 0),
    {
        self._value_vec.len() == 0
    }

    /// A cursor over the items from the bottom to the top.
    pub fn stack_iter<'a>(&'a self) -> (it: AnIteratorWrapper<'a, T>)
        ensures
            it.spec_rest() == self@,
    {
        assert(self._value_vec@.skip(0) =~= self._value_vec@);
        AnIteratorWrapper { items: self._value_vec.as_slice(), pos: 0 }
    }

    /// A cursor over the items in the order in which they were pushed.
    pub fn queue_iter<'a>(&'a self) -> (it: AnIteratorWrapper<'a, T>)
        ensures
            it.spec_rest() == self@,
    {
        assert(self._value_vec@.skip(0) =~= self._value_vec@);
        AnIteratorWrapper { items: self._value_vec.as_slice(), pos: 0 }
    }

    /// Moves the items of `income_stack` onto this stack, keeping their
    /// order: its bottom item comes to lie on the old top, its top item
    /// becomes the new top.
    pub fn extend_stack(&mut self, income_stack: Stack<T>)
        ensures
            final(self)@ == old(self)@ + income_stack@,
    {
        let mut income = income_stack.into_iter();
        let ghost all = income@;
        assert(all == income_stack@.reverse());
        while income.len() > 0
            invariant
                income.wf(),
                income@.len() <= all.len(),
                income@ == all.take(income@.len() as int),
                self@ == old(self)@ + income_stack@.take(all.len() - income@.len()),
                all == income_stack@.reverse(),
            decreases income@.len(),
        {
            let item = income.next_back().unwrap();
            self.push(item);
            proof {
                let k = income@.len() as int;
                assert(income@ =~= all.take(k));
                assert(item == all[k]);
                assert(self@ =~= old(self)@ + income_stack@.take(all.len() - k));
            }
        }
        assert(income_stack@.take(all.len() as int) =~= income_stack@);
    }

    /// Puts each item of `items` on top, the first one first.
    pub fn extend(&mut self, items: Vec<T>)
        ensures
            final(self)@ == old(self)@ + items@,
    {
        let mut income = IntoIter::from_vec(items);
        while income.len() > 0
            invariant
                income.wf(),
                income@.len() <= items@.len(),
                income@ == items@.skip(items@.len() - income@.len()),
                self@ == old(self)@ + items@.take(items@.len() - income@.len()),
            decreases income@.len(),
        {
            let item = income.next().unwrap();
            self._value_vec.push(item);
            proof {
                let k = items@.len() - income@.len();
                assert(income@ =~= items@.skip(k));
                assert(self@ =~= old(self)@ + items@.take(k));
            }
        }
        assert(items@.take(items@.len() as int) =~= items@);
    }

    /// Gives the stack up for an iterator that hands the items out from the
    /// top down.
    pub fn into_iter(self) -> (it: IntoIter<T>)
        ensures
            it.wf(),
            it@ == self@.reverse(),
    {
        let mut below = self._value_vec;
        let mut out: Vec<T> = Vec::new();
        while below.len() > 0
            invariant
                below@.len() <= self@.len(),
                below@ == self@.take(below@.len() as int),
                out@ == self@.skip(below@.len() as int).reverse(),
            decreases below@.len(),
        {
            let ghost k = below@.len() as int;
            let item = below.pop().unwrap();
            out.push(item);
            proof {
                assert(below@ =~= self@.take(k - 1));
                assert(out@ =~= self@.skip(k - 1).reverse());
            }
        }
        assert(self@.skip(0) =~= self@);
        IntoIter::from_vec(out)
    }

    /// The stack whose items are those of `income`, the first one on top.
    pub fn from_vec(income: Vec<T>) -> (stack: Self)
        ensures
            stack@ == income@.reverse(),
    {
        let mut rest = income;
        let mut out: Vec<T> = Vec::new();
        while rest.len() > 0
            invariant
                rest@.len() <= income@.len(),
                rest@ == income@.take(rest@.len() as int),
                out@ == income@.skip(rest@.len() as int).reverse(),
            decreases rest@.len(),
        {
            let ghost k = rest@.len() as int;
            let item = rest.pop().unwrap();
            out.push(item);
            proof {
                assert(rest@ =~= income@.take(k - 1));
                assert(out@ =~= income@.skip(k - 1).reverse());
            }
        }
        assert(income@.skip(0) =~= income@);
        Self { _value_vec: out }
    }
}

impl<T: Clone> Stack<T> {
    /// Clones of the items, from the top down.
    pub fn to_vec(&self) -> (v: Vec<T>)
        ensures
            cloned_seq(self@.reverse(), v@),
    {
        let n: usize = self._value_vec.len();
        let mut v: Vec<T> = Vec::new();
        while v.len() < n
            invariant
                n == self._value_vec@.len(),
                v@.len() <= n,
                forall|i: int|
                    0 <= i < v@.len() ==> cloned(self._value_vec@[n - 1 - i], #[trigger] v@[i]),
            decreases n - v@.len(),
        {
            let k: usize = n - 1 - v.len();
            v.push(self._value_vec[k].clone());
        }
        proof {
            lemma_cloned_seq(self@.reverse(), v@);
        }
        v
    }
}

impl<T> From<Vec<T>> for Stack<T> {
    /// The stack whose items are those of `income`, the first one on top.
    fn from(income: Vec<T>) -> (stack: Self)
        ensures
            stack@ == income@.reverse(),
    {
        Stack::from_vec(income)
    }
}

impl<T> vstd::std_specs::convert::FromSpecImpl<Vec<T>> for Stack<T> {
    open spec fn obeys_from_spec() -> bool {
        false
    }

    closed spec fn from_spec(income: Vec<T>) -> Self {
        arbitrary()
    }
}

impl<T: Clone> Clone for Stack<T> {
    /// A stack with a clone of each item, in the same order.
    fn clone(&self) -> (stack: Self)
        ensures
            cloned_seq(self@, stack@),
    {
        let stack = Self { _value_vec: self._value_vec.clone() };
        proof {
            lemma_cloned_seq(self@, stack@);
        }
        stack
    }
}

/// The texts of `items` from the last to the first, with one space between
/// two of them.
pub open spec fn spec_join_rev(items: Seq<Seq<char>>) -> Seq<char>
    decreases items.len(),
{
    if items.len() == 0 {
        Seq::empty()
    } else if items.len() == 1 {
        items[0]
    } else {
        items.last() + seq![' '] + spec_join_rev(items.drop_last())
    }
}

/// The text of a stack whose items have the texts `items`, bottom first:
/// the items from the top down, separated by single spaces; nothing for the
/// empty stack.
pub fn join_rev(items: &Vec<String>) -> (s: String)
    ensures
        s@ == spec_join_rev(items.deep_view()),
{
    let mut out = String::new();
    let n: usize = items.len();
    let ghost texts = items.deep_view();
    let mut k: usize = 0;
    while k < n
        invariant
            k <= n == items@.len(),
            texts == items.deep_view(),
            out@ == spec_join_rev(texts.take(k as int)),
        decreases n - k,
    {
        let mut next = String::new();
        next.append(items[k].as_str());
        if k > 0 {
            next.append(" ");
            next.append(out.as_str());
        }
        proof {
            reveal_strlit(" ");
            let upto = texts.take(k + 1);
            assert(upto.drop_last() =~= texts.take(k as int));
            assert(upto.last() == items@[k as int]@);
            assert(" "@ =~= seq![' ']);
            if k > 0 {
                assert(next@ =~= upto.last() + seq![' '] + spec_join_rev(upto.drop_last()));
            } else {
                assert(next@ =~= upto[0]);
            }
        }
        out = next;
        k += 1;
    }
    assert(texts.take(n as int) =~= texts);
    out
}

} // verus!
