use m6coll::m6arr::Array;

#[test]
fn test_arr() {
    let mut arr = Array::<usize>::new(10);

    arr.set(2, 15);
    arr.set(4, 20);
    println!("{}", arr[2]);
    println!("{}", arr[1]);
    assert_eq!(arr[2], 15);
    assert_eq!(arr[1], 0);

    let arr = [0; 0];

    assert!(arr.is_empty());

    let _arr2 = Array::new_with(0, 3);
    let arr2 = Array::copy_from_slice(&['a', 'b', 'd']);

    let mut it = arr2.iter();
    while let Some(e) = it.next() {
        println!("{}", e);
    }

    let arr2 = Array::copy_from_slice(&[1, 2, 3]);

    let slice0 = &arr2[..];

    println!("{:?}", slice0);
    assert_eq!(slice0, &[1, 2, 3]);

    let arr0 = Array::copy_from_slice(&['a', 'c']);
    let arr1 = Array::copy_from_slice(&['d', 'e']);
    let arr0 = Array::copy_from_slice(&arr1[..]);

    assert_eq!(arr0[..], arr1[..]);

    /* test into_iter */
    let arr = Array::copy_from_slice(&[0usize, 1, 2, 3]);

    let mut it = arr.into_iter();
    let mut i = 0;
    while let Some(v) = it.next() {
        assert_eq!(i, v);
        println!("{i} == {v}",);
        i += 1;
    }
    assert_eq!(i, 4);

    let mut arr = Array::copy_from_slice(&[2, 3, 4]);
    arr.resize(4);

    println!("arr: {:?}", &arr[..]);
    assert_eq!(&arr[..], &[2, 3, 4, 0]);

    let (a0, a2) = (arr[0], arr[2]);
    arr.set(0, a2);
    arr.set(2, a0);

    println!("after swap arr: {:?}", &arr[..]);
    assert_eq!(&arr[..], &[4, 3, 2, 0]);
}

use m6coll::m6arr::into_iter::IntoIter;
use std::cell::Cell;
use std::rc::Rc;

/// Counts how often values of it are dropped.
#[derive(Clone, Default)]
struct Counted {
    drops: Option<Rc<Cell<usize>>>,
    tag: usize,
}

impl Drop for Counted {
    fn drop(&mut self) {
        if let Some(drops) = &self.drops {
            drops.set(drops.get() + 1);
        }
    }
}

fn counted(n: usize, drops: &Rc<Cell<usize>>) -> Array<Counted> {
    let items: Vec<Counted> =
        (0..n).map(|tag| Counted { drops: Some(drops.clone()), tag }).collect();
    let arr = Array::clone_from_slice(&items);
    drop(items);
    drops.set(0);
    arr
}

#[test]
fn round_trip_through_iteration() {
    let src = [5u8, 1, 4, 1, 5, 9, 2, 6];
    let arr = Array::copy_from_slice(&src);
    let mut it = arr.iter();
    let mut seen = Vec::new();
    while let Some(x) = it.next() {
        seen.push(*x);
    }
    assert_eq!(seen, src);
    assert!(it.next().is_none());
    // a second cursor starts at the head again
    assert_eq!(arr.iter().next(), Some(&5));
    let words = [String::from("a"), String::from("bc")];
    let arr = Array::clone_from_slice(&words);
    assert_eq!(&arr[..], &words);
    let none = Array::<u8>::copy_from_slice(&[]);
    assert!(none.iter().next().is_none());
}

#[test]
fn constructors_fill_every_slot() {
    let zeros = Array::<u32>::new(4);
    assert_eq!(&zeros[..], &[0, 0, 0, 0]);
    assert_eq!(zeros.len(), 4);
    let none = Array::<u32>::new(0);
    assert!(none.is_empty());
    assert!(Array::<u32>::empty().is_empty());
    assert!(Array::<String>::default().is_empty());
    assert_eq!(&Array::new_with(7u8, 3)[..], &[7, 7, 7]);
    assert!(Array::new_with(7u8, 0).is_empty());
    assert_eq!(&Array::new_with_clone(String::from("x"), 2)[..], &["x", "x"]);
    let arr = Array::copy_from_slice(&[1, 2, 3]);
    let copy = arr.clone();
    assert_eq!(&copy[..], &[1, 2, 3]);
    assert_eq!(arr.as_slice(), copy.as_slice());
    assert_eq!(*arr.get(1), 2);
}

#[test]
fn merge_joins_two_arrays() {
    let none = Array::<i32>::new(0);
    assert_eq!(none.len(), 0);
    let b = Array::copy_from_slice(&[4, 5]);
    assert_eq!(&Array::merge(&none, &b)[..], &[4, 5]);
    assert_eq!(&Array::merge(&b, &none)[..], &[4, 5]);
    assert!(Array::merge(&none, &none).is_empty());
    let a = Array::copy_from_slice(&[1, 2, 3]);
    let merged = Array::merge(&a, &b);
    assert_eq!(&merged[..], &[1, 2, 3, 4, 5]);
    // the two sources are as they were
    assert_eq!(&a[..], &[1, 2, 3]);
    assert_eq!(&b[..], &[4, 5]);
}

#[test]
fn resize_keeps_the_front() {
    let mut arr = Array::copy_from_slice(&[1, 2, 3]);
    arr.resize(5);
    assert_eq!(&arr[..], &[1, 2, 3, 0, 0]);
    arr.resize(2);
    assert_eq!(&arr[..], &[1, 2]);
    arr.resize(2);
    assert_eq!(&arr[..], &[1, 2]);
    arr.resize(0);
    assert!(arr.is_empty());
    arr.resize(1);
    assert_eq!(&arr[..], &[0]);
}

#[test]
fn resize_drops_the_tail_once() {
    let drops = Rc::new(Cell::new(0));
    let mut arr = counted(5, &drops);
    arr.resize(2);
    assert_eq!(drops.get(), 3);
    assert_eq!(arr.get(0).tag, 0);
    assert_eq!(arr.get(1).tag, 1);
    arr.resize(4);
    assert_eq!(drops.get(), 3);
    assert!(arr.get(3).drops.is_none());
    drop(arr);
    // the two that were left; the two new ones count nothing
    assert_eq!(drops.get(), 5);
}

#[test]
fn draining_moves_every_item_out_once() {
    let arr = Array::copy_from_slice(&[1, 2, 3, 4, 5]);
    let mut it = arr.into_iter();
    assert_eq!(it.len(), 5);
    assert_eq!(it.capacity(), 5);
    assert_eq!(it.size_hint(), (5, Some(5)));
    let mut out = Vec::new();
    while let Some(x) = it.next() {
        out.push(x);
    }
    assert_eq!(out, vec![1, 2, 3, 4, 5]);
    assert!(it.is_empty());
    // it stays exhausted
    assert_eq!(it.next(), None);
    assert_eq!(it.next_back(), None);
    assert_eq!(it.capacity(), 5);
}

#[test]
fn front_and_back_meet_in_the_middle() {
    let mut it = Array::copy_from_slice(&[1, 2, 3, 4, 5]).into_iter();
    assert_eq!(it.next(), Some(1));
    assert_eq!(it.next_back(), Some(5));
    assert_eq!(it.next_back(), Some(4));
    assert_eq!(it.len(), 2);
    assert_eq!(*it.get(0), 2);
    assert_eq!(*it.get(1), 3);
    assert_eq!(it.next(), Some(2));
    assert_eq!(it.next(), Some(3));
    assert_eq!(it.next(), None);
    assert_eq!(it.next_back(), None);
    let mut back = Array::copy_from_slice(&[1, 2, 3]).into_iter();
    let mut out = Vec::new();
    while let Some(x) = back.next_back() {
        out.push(x);
    }
    assert_eq!(out, vec![3, 2, 1]);
    assert_eq!(Array::copy_from_slice(&[1, 2, 3]).into_iter().count(), 3);
    let mut none = Array::<u8>::empty().into_iter();
    assert_eq!(none.next(), None);
    assert_eq!(none.len(), 0);
}

#[test]
fn dropping_early_drops_what_is_left() {
    for n in 0..6 {
        for k in 0..=n {
            let drops = Rc::new(Cell::new(0));
            let mut it = counted(n, &drops).into_iter();
            for want in 0..k {
                let item = it.next().unwrap();
                assert_eq!(item.tag, want);
            }
            assert_eq!(drops.get(), k);
            assert_eq!(it.len(), n - k);
            assert_eq!(it.capacity(), n);
            drop(it);
            assert_eq!(drops.get(), n);
        }
    }
    // from both ends
    let drops = Rc::new(Cell::new(0));
    let mut it = counted(5, &drops).into_iter();
    let first = it.next().unwrap();
    let last = it.next_back().unwrap();
    drop(it);
    assert_eq!(drops.get(), 3);
    drop(first);
    drop(last);
    assert_eq!(drops.get(), 5);
}

#[test]
fn advancing_drops_without_yielding() {
    let drops = Rc::new(Cell::new(0));
    let mut it = counted(6, &drops).into_iter();
    assert_eq!(it.advance_by(2), Ok(()));
    assert_eq!(drops.get(), 2);
    assert_eq!(it.get(0).tag, 2);
    assert_eq!(it.advance_back_by(1), Ok(()));
    assert_eq!(drops.get(), 3);
    assert_eq!(it.len(), 3);
    assert_eq!(it.advance_by(0), Ok(()));
    assert_eq!(it.advance_by(5), Err(3));
    assert_eq!(drops.get(), 6);
    assert!(it.is_empty());
    assert_eq!(it.advance_by(1), Err(0));
    assert_eq!(it.advance_back_by(1), Err(0));
    assert_eq!(it.advance_back_by(0), Ok(()));
    assert_eq!(it.capacity(), 6);
    let mut it = Array::copy_from_slice(&[1, 2, 3]).into_iter();
    assert_eq!(it.advance_back_by(4), Err(3));
    assert_eq!(it.next(), None);
    let mut it = Array::copy_from_slice(&[1, 2, 3]).into_iter();
    assert_eq!(it.advance_back_by(3), Ok(()));
    assert!(it.is_empty());
}

#[test]
fn chunks_are_full_or_the_rest() {
    let mut it = Array::copy_from_slice(&[1, 2, 3, 4, 5]).into_iter();
    assert_eq!(it.next_chunk(2), Ok(vec![1, 2]));
    assert_eq!(it.len(), 3);
    assert_eq!(it.next_chunk(0), Ok(vec![]));
    assert_eq!(it.next_chunk(4), Err(vec![3, 4, 5]));
    assert!(it.is_empty());
    assert_eq!(it.next_chunk(1), Err(vec![]));
    assert_eq!(it.next_chunk(0), Ok(vec![]));
    let mut it = Array::copy_from_slice(&[1, 2]).into_iter();
    assert_eq!(it.next_chunk(2), Ok(vec![1, 2]));
    assert!(it.is_empty());
    let mut it = IntoIter::from_vec(vec!['a', 'b', 'c']);
    it.forget_remaining_elements();
    assert!(it.is_empty());
    assert_eq!(it.capacity(), 3);
    assert_eq!(it.next(), None);
}

#[test]
fn array_set_replaces_one_slot() {
    let mut arr = Array::copy_from_slice(&["a", "b", "c"]);
    arr.set(1, "x");
    assert_eq!(&arr[..], &["a", "x", "c"]);
    arr.set(0, "y");
    arr.set(2, "z");
    assert_eq!(&arr[..], &["y", "x", "z"]);
}

#[test]
fn from_vec_takes_up_to_the_capacity() {
    assert_eq!(&Array::from_vec(vec![1, 2, 3, 4], 2)[..], &[1, 2]);
    assert_eq!(&Array::from_vec(vec![1, 2], 5)[..], &[1, 2]);
    assert!(Array::from_vec(vec![1, 2], 0).is_empty());
    assert!(Array::from_vec(Vec::<u8>::new(), 3).is_empty());
    let drops = Rc::new(Cell::new(0));
    let items: Vec<Counted> =
        (0..4).map(|tag| Counted { drops: Some(drops.clone()), tag }).collect();
    let arr = Array::from_vec(items, 3);
    assert_eq!(drops.get(), 1);
    assert_eq!(arr.len(), 3);
    let from: Array<u8> = Array::from(&[1u8, 2][..]);
    assert_eq!(&from[..], &[1, 2]);
}
