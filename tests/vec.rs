use nomicon::Vec;
use std::cell::Cell as StdCell;

#[test]
fn push_and_pop() {
    let mut b = Vec::<u8>::new();
    b.push(1);
    b.push(3);
    assert_eq!(b.len(), 2);
    assert_eq!(b.pop(), Some(3));
    assert_eq!(b.pop(), Some(1));
    assert_eq!(b.pop(), None);
    assert_eq!(b.len(), 0);
}

#[test]
fn iter() {
    let mut b = Vec::<u8>::new();
    b.push(1);
    b.push(2);
    b.push(3);
    b.push(4);
    let mut iter = b.into_iter();
    assert_eq!(iter.next(), Some(1));
    assert_eq!(iter.next(), Some(2));
    assert_eq!(iter.next(), Some(3));
    assert_eq!(iter.next(), Some(4));
    assert_eq!(iter.next(), None);
}

#[test]
fn push_two_pop_three() {
    let mut b = Vec::<i32>::new();
    b.push(1);
    b.push(2);
    assert_eq!(b.pop(), Some(2));
    assert_eq!(b.pop(), Some(1));
    assert_eq!(b.pop(), None);
}

#[test]
fn pops_come_back_reversed() {
    let mut b = Vec::<u32>::new();
    let values = [5u32, 9, 2, 7, 7, 1, 30];
    for v in values {
        b.push(v);
    }
    let mut out = std::vec::Vec::new();
    while let Some(v) = b.pop() {
        out.push(v);
    }
    let mut expected = values.to_vec();
    expected.reverse();
    assert_eq!(out, expected);
    assert_eq!(b.len(), 0);
    assert!(b.is_empty());
    assert_eq!(b.pop(), None);
}

#[test]
fn capacity_grows_one_then_doubles() {
    let mut b = Vec::<u16>::new();
    assert_eq!(b.capacity(), 0);
    let mut seen = std::vec::Vec::new();
    for i in 0..9u16 {
        b.push(i);
        seen.push(b.capacity());
    }
    assert_eq!(seen, vec![1, 2, 4, 4, 8, 8, 8, 8, 16]);
    b.pop();
    assert_eq!(b.capacity(), 16);
}

#[test]
fn default_is_empty() {
    let b: Vec<u8> = Vec::default();
    assert_eq!(b.len(), 0);
    assert_eq!(b.capacity(), 0);
    assert!(b.is_empty());
}

#[test]
fn insert_then_read_index() {
    let mut b = Vec::<u8>::new();
    for v in [10u8, 20, 30, 40] {
        b.push(v);
    }
    b.insert(1, 99);
    assert_eq!(*b.get(1), 99);
    assert_eq!(b.len(), 5);
    let got: std::vec::Vec<u8> = (0..b.len()).map(|i| *b.get(i)).collect();
    assert_eq!(got, vec![10, 99, 20, 30, 40]);
}

#[test]
fn insert_at_ends() {
    let mut b = Vec::<u8>::new();
    b.insert(0, 2);
    b.insert(0, 1);
    b.insert(2, 3);
    let got: std::vec::Vec<u8> = (0..b.len()).map(|i| *b.get(i)).collect();
    assert_eq!(got, vec![1, 2, 3]);
    assert_eq!(b.capacity(), 4);
}

#[test]
fn remove_shifts_left() {
    let mut b = Vec::<char>::new();
    for c in ['a', 'b', 'c', 'd'] {
        b.push(c);
    }
    assert_eq!(b.remove(1), 'b');
    let got: std::vec::Vec<char> = (0..b.len()).map(|i| *b.get(i)).collect();
    assert_eq!(got, vec!['a', 'c', 'd']);
    assert_eq!(b.remove(2), 'd');
    assert_eq!(b.remove(0), 'a');
    assert_eq!(b.len(), 1);
    assert_eq!(*b.get(0), 'c');
    assert_eq!(b.capacity(), 4);
}

#[test]
fn get_mut_writes_in_place() {
    let mut b = Vec::<u8>::new();
    b.push(1);
    b.push(2);
    *b.get_mut(0) = 50;
    assert_eq!(*b.get(0), 50);
    assert_eq!(*b.get(1), 2);
}

#[test]
fn into_iter_yields_all_in_order() {
    let mut b = Vec::<String>::new();
    for s in ["x", "y", "z"] {
        b.push(s.to_string());
    }
    let mut it = b.into_iter();
    assert_eq!(it.size_hint(), (3, Some(3)));
    assert_eq!(it.next().as_deref(), Some("x"));
    assert_eq!(it.size_hint(), (2, Some(2)));
    assert_eq!(it.next().as_deref(), Some("y"));
    assert_eq!(it.next().as_deref(), Some("z"));
    assert_eq!(it.size_hint(), (0, Some(0)));
    assert_eq!(it.next(), None);
    assert_eq!(it.next(), None);
}

#[test]
fn into_iter_of_empty_buffer() {
    let b = Vec::<u8>::new();
    let mut it = b.into_iter();
    assert_eq!(it.size_hint(), (0, Some(0)));
    assert_eq!(it.next(), None);
}

struct DropCounter<'a> {
    drops: &'a StdCell<u32>,
}

impl Drop for DropCounter<'_> {
    fn drop(&mut self) {
        self.drops.set(self.drops.get() + 1);
    }
}

#[test]
fn iterator_dropped_early_drops_the_rest() {
    let drops = StdCell::new(0);
    let mut b = Vec::new();
    for _ in 0..4 {
        b.push(DropCounter { drops: &drops });
    }
    let mut it = b.into_iter();
    let first = it.next();
    assert!(first.is_some());
    assert_eq!(drops.get(), 0);
    drop(it);
    assert_eq!(drops.get(), 3);
    drop(first);
    assert_eq!(drops.get(), 4);
}

#[test]
fn buffer_drop_drops_every_value() {
    let drops = StdCell::new(0);
    let mut b = Vec::new();
    for _ in 0..5 {
        b.push(DropCounter { drops: &drops });
    }
    let popped = b.pop();
    drop(b);
    assert_eq!(drops.get(), 4);
    drop(popped);
    assert_eq!(drops.get(), 5);
}
