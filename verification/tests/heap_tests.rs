use stack_heap::heap::{Heap, MaxHeap, MinHeap};
use stack_heap::priority::{Greatest, Least, Priority};

#[test]
fn test_empty_heap() {
    let mut heap = MaxHeap::new::<i32>();
    assert_eq!(heap.next(), None);
}

#[test]
fn test_min_heap() {
    let mut heap = MinHeap::new();
    heap.add(4);
    heap.add(2);
    heap.add(9);
    heap.add(11);
    assert_eq!(heap.len(), 4);
    assert_eq!(heap.next(), Some(2));
    assert_eq!(heap.next(), Some(4));
    assert_eq!(heap.next(), Some(9));
    heap.add(1);
    assert_eq!(heap.next(), Some(1));
}

#[test]
fn test_max_heap() {
    let mut heap = MaxHeap::new();
    heap.add(4);
    heap.add(2);
    heap.add(9);
    heap.add(11);
    assert_eq!(heap.len(), 4);
    assert_eq!(heap.next(), Some(11));
    assert_eq!(heap.next(), Some(9));
    assert_eq!(heap.next(), Some(4));
    heap.add(1);
    assert_eq!(heap.next(), Some(2));
}

#[test]
fn empty_heap_keeps_yielding_nothing() {
    let mut heap = MinHeap::new::<u16>();
    assert!(heap.is_empty());
    assert_eq!(heap.next(), None);
    assert_eq!(heap.next(), None);
    assert_eq!(heap.len(), 0);
    heap.add(5);
    assert!(!heap.is_empty());
    assert_eq!(heap.next(), Some(5));
    assert_eq!(heap.next(), None);
    assert_eq!(heap.next(), None);
    assert!(heap.is_empty());
}

#[test]
fn min_heap_yields_a_sorted_rearrangement() {
    let vals: Vec<i32> = vec![5, -1, 5, 3, 0, 12, 7, 7, -8, 3, 3, 100, 42];
    let mut heap = Heap::<i32, Least>::new_min();
    for v in vals.iter() {
        heap.add(*v);
    }
    assert_eq!(heap.len(), vals.len());
    let mut out: Vec<i32> = Vec::new();
    for _ in 0..vals.len() {
        out.push(heap.next().unwrap());
    }
    let mut sorted = vals.clone();
    sorted.sort();
    assert_eq!(out, sorted);
    assert!(heap.is_empty());
    assert_eq!(heap.next(), None);
}

#[test]
fn max_heap_yields_a_sorted_rearrangement() {
    let vals: Vec<u64> = vec![9, 1, 8, 2, 7, 3, 6, 4, 5, 5, 0];
    let mut heap = Heap::<u64, Greatest>::new_max();
    for v in vals.iter() {
        heap.add(*v);
    }
    let mut out: Vec<u64> = Vec::new();
    for _ in 0..vals.len() {
        out.push(heap.next().unwrap());
    }
    let mut sorted = vals.clone();
    sorted.sort();
    sorted.reverse();
    assert_eq!(out, sorted);
    assert!(heap.is_empty());
}

#[test]
fn heap_with_a_given_rule() {
    let mut heap: Heap<i8, Greatest> = Heap::new(Greatest);
    heap.add(-4);
    heap.add(6);
    heap.add(0);
    assert_eq!(heap.len(), 3);
    assert_eq!(heap.next(), Some(6));
    assert_eq!(heap.next(), Some(0));
    assert_eq!(heap.next(), Some(-4));
    assert_eq!(heap.next(), None);
}

#[test]
fn insertions_and_extractions_interleaved() {
    let mut heap = MinHeap::new::<i32>();
    heap.add(3);
    heap.add(1);
    assert_eq!(heap.next(), Some(1));
    heap.add(2);
    heap.add(0);
    assert_eq!(heap.next(), Some(0));
    assert_eq!(heap.next(), Some(2));
    heap.add(2);
    assert_eq!(heap.len(), 2);
    assert_eq!(heap.next(), Some(2));
    assert_eq!(heap.next(), Some(3));
    assert_eq!(heap.len(), 0);
}

#[test]
fn heap_of_owned_values() {
    let mut heap = MinHeap::new::<String>();
    heap.add(String::from("pear"));
    heap.add(String::from("apple"));
    heap.add(String::from("quince"));
    assert_eq!(heap.next(), Some(String::from("apple")));
    assert_eq!(heap.next(), Some(String::from("pear")));
    assert_eq!(heap.next(), Some(String::from("quince")));
    assert_eq!(heap.next(), None);
}

#[test]
fn rules_compare_as_they_say() {
    assert!(Least.higher(&1, &2));
    assert!(!Least.higher(&2, &1));
    assert!(!Least.higher(&2, &2));
    assert!(Greatest.higher(&2, &1));
    assert!(!Greatest.higher(&1, &2));
    assert!(!Greatest.higher(&2, &2));
}
