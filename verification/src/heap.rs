//! A binary heap in an array whose slot 0 is unused, ordered by a priority
//! rule.

use crate::heap_order::{
    exchange_keeps_elements, exchanged, first_child, heap_ordered, live, ordered_at, rise_step,
    risen, rising, root_is_top, sink_step, sink_stop, sinking, sunk,
};
use crate::priority::{Greatest, Least, Priority};
use vstd::prelude::*;

verus! {

/// A binary heap. The root, in slot 1 of `items`, is an element that no other
/// element outranks under the rule `comparator`; the children of slot `i` are
/// the slots `2 * i` and `2 * i + 1`. The view is the content in array order,
/// the root first.
#[derive(Debug)]
pub struct Heap<T, P> {
    count: usize,
    items: Vec<T>,
    comparator: P,
}

impl<T, P> View for Heap<T, P> {
    type V = Seq<T>;

    closed spec fn view(&self) -> Seq<T> {
        Seq::new(self.count as nat, |i: int| self.items@[i + 1])
    }
}

/// Exchanges the slots `i` and `j` of `v` by the slice method `swap` of the
/// standard library, which a `Vec` reaches through its slice. Nothing here
/// proves what that method does; it is taken from its documentation: both
/// indices must be in bounds, as `swap` stops the program otherwise, and
/// afterwards each of the two slots holds what the other held, while every
/// other slot is as before.
#[verifier::external_body]
fn swap_slots<T>(v: &mut Vec<T>, i: usize, j: usize)
    requires
        i < old(v)@.len(),
        j < old(v)@.len(),
    ensures
        final(v)@ == exchanged(old(v)@, i as int, j as int),
{
    v.swap(i, j)
}

/// What one insertion does: `value` goes behind the content and rises from
/// there. That leaves a heap under the same rule, which holds `value` besides
/// the elements it held.
pub open spec fn inserts<T: Default, P: Priority<T>>(
    pre: Heap<T, P>,
    post: Heap<T, P>,
    value: T,
) -> bool {
    &&& post@ == risen(pre.rule(), pre@.push(value), pre@.len() as int)
    &&& post.wf()
    &&& post.rule() == pre.rule()
    &&& post@.len() == pre@.len() + 1
    &&& post@.to_multiset() == pre@.to_multiset().insert(value)
}

/// What one extraction does: from an empty heap it yields nothing and leaves
/// the heap as it is; otherwise it yields the root, which no element of the
/// heap outranks, the last element takes the root's place and sinks from
/// there, and that leaves a heap of the other elements under the same rule.
pub open spec fn extracts<T: Default, P: Priority<T>>(
    pre: Heap<T, P>,
    post: Heap<T, P>,
    got: Option<T>,
) -> bool {
    if pre@.len() == 0 {
        got == None::<T> && post == pre
    } else {
        &&& got == Some(pre@[0])
        &&& forall|i: int| 0 <= i < pre@.len() ==> !pre.rule().prefers(#[trigger] pre@[i], pre@[0])
        &&& post@ == sunk(pre.rule(), pre@.update(0, pre@.last()).drop_last(), 0)
        &&& post.wf()
        &&& post.rule() == pre.rule()
        &&& post@.len() == pre@.len() - 1
        &&& post@.to_multiset() == pre@.to_multiset().remove(pre@[0])
    }
}

impl<T, P> Heap<T, P> where T: Default, P: Priority<T> {
    /// The rule by which the heap is ordered.
    pub closed spec fn rule(&self) -> P {
        self.comparator
    }

    /// The array is one slot longer than the content, the rule is lawful, and
    /// no element outranks its parent.
    pub closed spec fn wf(&self) -> bool {
        &&& self.items@.len() == self.count + 1
        &&& self.comparator.lawful()
        &&& heap_ordered(self.comparator, self.items@)
    }

    /// An empty heap ordered by `comparator`.
    pub fn new(comparator: P) -> (h: Self)
        requires
            comparator.lawful(),
        ensures
            h.wf(),
            h.rule() == comparator,
            h@ == Seq::<T>::empty(),
    {
        let mut items: Vec<T> = Vec::new();
        items.push(T::default());
        let h = Self { count: 0, items, comparator };
        assert(h@ =~= Seq::<T>::empty());
        h
    }

    /// The number of elements.
    pub fn len(&self) -> (n: usize)
        ensures
            n == self@.len(),
    {
        self.count
    }

    /// Whether the heap holds no element.
    pub fn is_empty(&self) -> (b: bool)
        ensures
            b == (self@.len() == 0),
    {
        self.len() == 0
    }

    /// Adds `value`: it goes into the next free slot and then rises past
    /// every ancestor that it outranks.
    pub fn add(&mut self, value: T)
        requires
            old(self).wf(),
        ensures
            inserts(*old(self), *final(self), value),
    {
        proof {
            assert(self.items@.len() == self.items.len());
        }
        self.count += 1;
        self.items.push(value);
        let ghost grown = self.items@;
        proof {
            assert(old(self)@ =~= live(old(self).items@));
            assert(live(grown) =~= old(self)@.push(value));
            vstd::seq_lib::to_multiset_build(old(self)@, value);
            assert forall|i: int| 2 <= i < grown.len() && i != self.count implies #[trigger] ordered_at(
                self.comparator,
                grown,
                i,
            ) by {
                assert(ordered_at(self.comparator, old(self).items@, i));
            }
        }
        let mut idx: usize = self.count;
        while idx != 1
            invariant_except_break
                rising(self.comparator, self.items@, idx as int),
                risen(self.comparator, live(self.items@), idx - 1) == risen(
                    self.comparator,
                    live(grown),
                    self.count - 1,
                ),
            invariant
                1 <= idx <= self.count,
                self.items@.len() == self.count + 1,
                self.count == old(self).count + 1,
                self.comparator == old(self).comparator,
                self.comparator.lawful(),
                live(self.items@).to_multiset() == live(grown).to_multiset(),
            ensures
                heap_ordered(self.comparator, self.items@),
                live(self.items@) == risen(self.comparator, live(grown), self.count - 1),
            decreases idx,
        {
            let pa_idx: usize = self.parent_idx(idx);
            if self.comparator.higher(&self.items[idx], &self.items[pa_idx]) {
                proof {
                    rise_step(self.comparator, self.items@, idx as int);
                    exchange_keeps_elements(self.items@, idx as int, pa_idx as int);
                    assert(live(exchanged(self.items@, idx as int, pa_idx as int)) =~= exchanged(
                        live(self.items@),
                        idx - 1,
                        pa_idx - 1,
                    ));
                }
                swap_slots(&mut self.items, idx, pa_idx);
            } else {
                break ;
            }
            idx = pa_idx;
        }
        proof {
            assert(self@ =~= live(self.items@));
        }
    }

    /// The slot of the parent of slot `idx`.
    fn parent_idx(&self, idx: usize) -> (r: usize)
        ensures
            r == idx / 2,
    {
        idx / 2
    }

    /// Whether slot `idx` holds an element, given that `idx` is not 0.
    fn present(&self, idx: usize) -> (r: bool)
        ensures
            r == (idx <= self.count),
    {
        idx <= self.count
    }

    /// The slot of the left child of slot `idx`.
    fn left_child_idx(&self, idx: usize) -> (r: usize)
        requires
            idx * 2 <= usize::MAX,
        ensures
            r == idx * 2,
    {
        idx * 2
    }

    /// The slot of the right child of slot `idx`.
    fn right_child_idx(&self, idx: usize) -> (r: usize)
        requires
            idx * 2 + 1 <= usize::MAX,
        ensures
            r == idx * 2 + 1,
    {
        self.left_child_idx(idx) + 1
    }

    /// The child of slot `idx` that goes first: of two children the left one
    /// if it outranks the right one, else the right one; an only child; and
    /// `usize::MAX`, which is no slot, where `idx` has no child.
    fn smallest_child_idx(&self, idx: usize) -> (r: usize)
        requires
            self.items@.len() == self.count + 1,
            self.comparator.lawful(),
            1 <= idx,
        ensures
            2 * idx > self.count ==> r == usize::MAX,
            2 * idx <= self.count ==> r == first_child(
                self.comparator,
                live(self.items@),
                idx - 1,
            ) + 1,
    {
        if idx > self.count / 2 {
            return usize::MAX;
        }
        let lidx: usize = self.left_child_idx(idx);
        let ridx: usize = self.right_child_idx(idx);
        if !self.present(ridx) {
            return lidx;
        }
        if self.comparator.higher(&self.items[lidx], &self.items[ridx]) {
            return lidx;
        } else {
            return ridx;
        }
    }

    /// Takes the root out and returns it, or returns `None` where the heap is
    /// empty. The last element takes the root's slot and then sinks below
    /// every child that outranks it, each time below the child that goes
    /// first.
    pub fn next(&mut self) -> (r: Option<T>)
        requires
            old(self).wf(),
        ensures
            extracts(*old(self), *final(self), r),
    {
        if self.is_empty() {
            return None;
        }
        proof {
            assert(old(self)@ =~= live(old(self).items@));
            assert forall|i: int| 0 <= i < old(self)@.len() implies !self.comparator.prefers(
                #[trigger] old(self)@[i],
                old(self)@[0],
            ) by {
                root_is_top(self.comparator, self.items@, i + 1);
            }
        }
        let ret = self.items.swap_remove(1);
        self.count -= 1;
        proof {
            let before = live(old(self).items@);
            let moved = before.update(0, before.last());
            assert(live(self.items@) =~= moved.drop_last());
            assert(moved.drop_last() =~= moved.remove(moved.len() - 1));
            vstd::seq_lib::to_multiset_update(before, 0, before.last());
            vstd::seq_lib::to_multiset_remove(moved, moved.len() - 1);
            broadcast use vstd::multiset::group_multiset_axioms;
            assert(live(self.items@).to_multiset() =~= before.to_multiset().remove(before[0]));
            assert forall|i: int| 2 <= i < self.items@.len() && i / 2 != 1 implies #[trigger] ordered_at(
                self.comparator,
                self.items@,
                i,
            ) by {
                assert(ordered_at(self.comparator, old(self).items@, i));
            }
        }
        let ghost shrunk = self.items@;
        let mut idx: usize = 1;
        loop
            invariant_except_break
                sinking(self.comparator, self.items@, idx as int),
                sunk(self.comparator, live(self.items@), idx - 1) == sunk(
                    self.comparator,
                    live(shrunk),
                    0,
                ),
            invariant
                1 <= idx,
                self.items@.len() == self.count + 1,
                self.count + 1 == old(self).count,
                self.comparator == old(self).comparator,
                self.comparator.lawful(),
                live(self.items@).to_multiset() == live(shrunk).to_multiset(),
            ensures
                heap_ordered(self.comparator, self.items@),
                live(self.items@) == sunk(self.comparator, live(shrunk), 0),
            decreases self.count + 1 - idx,
        {
            let mn_child: usize = self.smallest_child_idx(idx);
            if mn_child == usize::MAX {
                break ;
            }
            if self.comparator.higher(&self.items[mn_child], &self.items[idx]) {
                proof {
                    if 2 * idx + 1 <= self.count {
                        self.comparator.weak_order(
                            self.items@[2 * idx],
                            self.items@[2 * idx + 1],
                            self.items@[2 * idx],
                        );
                    }
                    sink_step(self.comparator, self.items@, idx as int, mn_child as int);
                    exchange_keeps_elements(self.items@, idx as int, mn_child as int);
                    assert(live(exchanged(self.items@, idx as int, mn_child as int)) =~= exchanged(
                        live(self.items@),
                        idx - 1,
                        mn_child - 1,
                    ));
                }
                swap_slots(&mut self.items, idx, mn_child);
                idx = mn_child;
            } else {
                proof {
                    if 2 * idx + 1 <= self.count {
                        self.comparator.weak_order(
                            self.items@[2 * idx],
                            self.items@[2 * idx + 1],
                            self.items@[2 * idx],
                        );
                    }
                    sink_stop(self.comparator, self.items@, idx as int, mn_child as int);
                }
                break ;
            }
        }
        proof {
            assert(self@ =~= live(self.items@));
        }
        Some(ret)
    }
}

impl<T> Heap<T, Least> where T: Default + Ord {
    /// An empty min-heap: the root is a least element.
    pub fn new_min() -> (h: Self)
        requires
            vstd::laws_cmp::obeys_cmp::<T>(),
        ensures
            h.wf(),
            h.rule() == Least,
            h@ == Seq::<T>::empty(),
    {
        Self::new(Least)
    }
}

impl<T> Heap<T, Greatest> where T: Default + Ord {
    /// An empty max-heap: the root is a greatest element.
    pub fn new_max() -> (h: Self)
        requires
            vstd::laws_cmp::obeys_cmp::<T>(),
        ensures
            h.wf(),
            h.rule() == Greatest,
            h@ == Seq::<T>::empty(),
    {
        Self::new(Greatest)
    }
}

/// The maker of min-heaps.
pub struct MinHeap;

impl MinHeap {
    /// An empty min-heap.
    pub fn new<T>() -> (h: Heap<T, Least>) where T: Default + Ord
        requires
            vstd::laws_cmp::obeys_cmp::<T>(),
        ensures
            h.wf(),
            h.rule() == Least,
            h@ == Seq::<T>::empty(),
    {
        Heap::new(Least)
    }
}

/// The maker of max-heaps.
pub struct MaxHeap;

impl MaxHeap {
    /// An empty max-heap.
    pub fn new<T>() -> (h: Heap<T, Greatest>) where T: Default + Ord
        requires
            vstd::laws_cmp::obeys_cmp::<T>(),
        ensures
            h.wf(),
            h.rule() == Greatest,
            h@ == Seq::<T>::empty(),
    {
        Heap::new(Greatest)
    }
}

} // verus!
