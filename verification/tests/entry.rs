use m6coll::entry::Entry;
use m6coll::m6entry::{KVEntry, TOEntry2};
use std::cmp::Ordering;
use std::cmp::Reverse;
use std::collections::BinaryHeap;

/// An entry in a heap: ordered as the entry orders itself, by its key.
#[derive(Debug)]
struct ByKey(KVEntry<i32, i32>);

impl PartialEq for ByKey {
    fn eq(&self, other: &Self) -> bool {
        self.0 == other.0
    }
}

impl Eq for ByKey {}

impl PartialOrd for ByKey {
    fn partial_cmp(&self, other: &Self) -> Option<Ordering> {
        self.0.partial_cmp(&other.0)
    }
}

impl Ord for ByKey {
    fn cmp(&self, other: &Self) -> Ordering {
        self.0.cmp(&other.0)
    }
}

#[test]
fn test_kventry() {
    let mut heap = BinaryHeap::new();

    heap.push(Reverse(ByKey(KVEntry(2, 3))));
    heap.push(Reverse(ByKey(KVEntry(1, 1))));
    heap.push(Reverse(ByKey(KVEntry(4, 16))));
    heap.push(Reverse(ByKey(KVEntry(2, 1))));

    assert_eq!(heap.pop(), Some(Reverse(ByKey(KVEntry(1, 1)))));
    assert_eq!(heap.pop(), Some(Reverse(ByKey(KVEntry(2, 3)))));
    assert_eq!(heap.pop(), Some(Reverse(ByKey(KVEntry(2, 1)))));
    assert_eq!(heap.pop(), Some(Reverse(ByKey(KVEntry(4, 16)))));

    assert_eq!(heap.pop(), None);
}

#[test]
fn test_toentry() {
    assert!((3, 2) > (3, 1));

    assert!((3, 2) > (3, 1));
    assert!((3, 2) < (3, 3));
    assert!((3, 3) == (3, 3));

    assert!((2, 3) < (3, 2));
    assert!((2, 2) < (3, 3));
}

#[test]
fn test_entry() {
    let mut heap = BinaryHeap::new();

    heap.push(Reverse(Entry(2, 3)));
    heap.push(Reverse(Entry(1, 1)));
    heap.push(Reverse(Entry(4, 16)));
    heap.push(Reverse(Entry(2, 1)));

    assert_eq!(heap.pop(), Some(Reverse(Entry(1, 1))));
    assert_eq!(heap.pop(), Some(Reverse(Entry(2, 3))));
    assert_eq!(heap.pop(), Some(Reverse(Entry(2, 1))));
    assert_eq!(heap.pop(), Some(Reverse(Entry(4, 16))));

    assert_eq!(heap.pop(), None);
}

#[test]
fn kventry_compares_keys_only() {
    assert!(KVEntry(2, 3) == KVEntry(2, 1));
    assert!(KVEntry(2, 3) != KVEntry(3, 3));
    assert_eq!(KVEntry(2, 3).partial_cmp(&KVEntry(2, 1)), Some(Ordering::Equal));
    assert_eq!(KVEntry(1, 9).partial_cmp(&KVEntry(2, 0)), Some(Ordering::Less));
    assert_eq!(KVEntry(5, 0).cmp(&KVEntry(2, 9)), Ordering::Greater);
    assert!(KVEntry(1, 9) < KVEntry(2, 0));
}

#[test]
fn entry_compares_keys_only() {
    assert!(Entry(2, 3) == Entry(2, 1));
    assert!(Entry(1, 9) < Entry(2, 0));
    assert_eq!(Entry(7, 0).partial_cmp(&Entry(7, 5)), Some(Ordering::Equal));
}

#[test]
fn toentry2_orders_by_both_parts() {
    assert!(TOEntry2(3, 2) > TOEntry2(3, 1));
    assert!(TOEntry2(3, 2) < TOEntry2(3, 3));
    assert!(TOEntry2(3, 3) == TOEntry2(3, 3));
    assert!(TOEntry2(2, 3) < TOEntry2(3, 2));
}
