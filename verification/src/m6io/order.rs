//! The order of byte sequences: byte by byte, a proper prefix first.

use core::cmp::Ordering;
use vstd::prelude::*;

verus! {

/// How one value stands to another in a total order.
#[derive(Clone, Copy, Debug, PartialEq, Eq, Structural)]
pub enum Rank {
    /// It comes first.
    Less,
    /// Neither comes first.
    Equal,
    /// It comes second.
    Greater,
}

/// How `a` stands to `b` when the two are compared byte by byte from the
/// front: the first pair of unlike bytes decides, and where one sequence runs
/// out the shorter one comes first.
pub open spec fn lex_rank(a: Seq<u8>, b: Seq<u8>) -> Rank
    decreases a.len(),
{
    if a.len() == 0 {
        if b.len() == 0 {
            Rank::Equal
        } else {
            Rank::Less
        }
    } else if b.len() == 0 {
        Rank::Greater
    } else if a[0] < b[0] {
        Rank::Less
    } else if a[0] > b[0] {
        Rank::Greater
    } else {
        lex_rank(a.skip(1), b.skip(1))
    }
}

/// Equal fronts do not decide: the order is that of what follows them.
pub proof fn lemma_lex_rank_skip(a: Seq<u8>, b: Seq<u8>, i: int)
    requires
        0 <= i <= a.len(),
        i <= b.len(),
        a.take(i) == b.take(i),
    ensures
        lex_rank(a, b) == lex_rank(a.skip(i), b.skip(i)),
    decreases i,
{
    if i == 0 {
        assert(a.skip(0) =~= a);
        assert(b.skip(0) =~= b);
    } else {
        assert(a[0] == a.take(i)[0]);
        assert(b[0] == b.take(i)[0]);
        assert(a.skip(1).take(i - 1) =~= a.take(i).skip(1));
        assert(b.skip(1).take(i - 1) =~= b.take(i).skip(1));
        lemma_lex_rank_skip(a.skip(1), b.skip(1), i - 1);
        assert(a.skip(1).skip(i - 1) =~= a.skip(i));
        assert(b.skip(1).skip(i - 1) =~= b.skip(i));
    }
}

/// Two sequences rank as equal exactly when they are the same.
pub proof fn lemma_lex_rank_equal(a: Seq<u8>, b: Seq<u8>)
    ensures
        lex_rank(a, b) == Rank::Equal <==> a == b,
    decreases a.len(),
{
    if a.len() > 0 && b.len() > 0 {
        lemma_lex_rank_equal(a.skip(1), b.skip(1));
        if a[0] == b[0] && a.skip(1) == b.skip(1) {
            assert(a =~= seq![a[0]] + a.skip(1));
            assert(b =~= seq![b[0]] + b.skip(1));
        }
        if a == b {
            assert(a.skip(1) == b.skip(1));
        }
    } else if a.len() == 0 && b.len() == 0 {
        assert(a =~= b);
    }
}

/// Swapping the two sequences swaps `Less` and `Greater`.
pub proof fn lemma_lex_rank_antisymmetric(a: Seq<u8>, b: Seq<u8>)
    ensures
        lex_rank(a, b) == Rank::Less <==> lex_rank(b, a) == Rank::Greater,
    decreases a.len(),
{
    if a.len() > 0 && b.len() > 0 {
        lemma_lex_rank_antisymmetric(a.skip(1), b.skip(1));
    }
}

/// Compares two slices byte by byte.
pub fn rank_bytes(a: &[u8], b: &[u8]) -> (r: Rank)
    ensures
        r == lex_rank(a@, b@),
{
    let n: usize = if a.len() < b.len() {
        a.len()
    } else {
        b.len()
    };
    let mut i: usize = 0;
    while i < n
        invariant
            i <= n,
            n <= a@.len(),
            n <= b@.len(),
            n == a@.len() || n == b@.len(),
            a@.take(i as int) == b@.take(i as int),
        decreases n - i,
    {
        proof {
            lemma_lex_rank_skip(a@, b@, i as int);
        }
        if a[i] < b[i] {
            return Rank::Less;
        }
        if a[i] > b[i] {
            return Rank::Greater;
        }
        assert(a@.take(i + 1) =~= a@.take(i as int).push(a@[i as int]));
        assert(b@.take(i + 1) =~= b@.take(i as int).push(b@[i as int]));
        i += 1;
    }
    proof {
        lemma_lex_rank_skip(a@, b@, n as int);
    }
    if a.len() < b.len() {
        Rank::Less
    } else if a.len() > b.len() {
        Rank::Greater
    } else {
        Rank::Equal
    }
}

/// The rank as the ordering of the standard library.
pub open spec fn rank_ordering(r: Rank) -> Ordering {
    match r {
        Rank::Less => Ordering::Less,
        Rank::Equal => Ordering::Equal,
        Rank::Greater => Ordering::Greater,
    }
}

/// Gives the rank as the ordering of the standard library.
pub fn to_ordering(r: Rank) -> (o: Ordering)
    ensures
        o == rank_ordering(r),
{
    match r {
        Rank::Less => Ordering::Less,
        Rank::Equal => Ordering::Equal,
        Rank::Greater => Ordering::Greater,
    }
}

} // verus!
