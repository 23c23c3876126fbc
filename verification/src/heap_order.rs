//! The heap property of an array whose slot 0 is unused, and how one step of
//! sifting an element up or down keeps it.

use crate::priority::Priority;
use vstd::prelude::*;

verus! {

/// The slots of `s` from 1 on: the part of the array that holds elements.
pub open spec fn live<T>(s: Seq<T>) -> Seq<T> {
    s.subrange(1, s.len() as int)
}

/// `s` with the slots `i` and `j` exchanged.
pub open spec fn exchanged<T>(s: Seq<T>, i: int, j: int) -> Seq<T> {
    s.update(i, s[j]).update(j, s[i])
}

/// The element in slot `i` does not outrank its parent, in slot `i / 2`.
pub open spec fn ordered_at<T, P: Priority<T>>(rule: P, s: Seq<T>, i: int) -> bool {
    !rule.prefers(s[i], s[i / 2])
}

/// The element in slot `i` does not outrank its grandparent.
pub open spec fn ordered_above<T, P: Priority<T>>(rule: P, s: Seq<T>, i: int) -> bool {
    !rule.prefers(s[i], s[i / 2 / 2])
}

/// The heap property: no element outranks its parent.
pub open spec fn heap_ordered<T, P: Priority<T>>(rule: P, s: Seq<T>) -> bool {
    forall|i: int| 2 <= i < s.len() ==> #[trigger] ordered_at(rule, s, i)
}

/// The heap property while the element in slot `hole` is on its way up: it
/// may outrank its parent, every other element is in order, and the children
/// of `hole` do not outrank the parent of `hole`.
pub open spec fn rising<T, P: Priority<T>>(rule: P, s: Seq<T>, hole: int) -> bool {
    &&& forall|i: int| 2 <= i < s.len() && i != hole ==> #[trigger] ordered_at(rule, s, i)
    &&& forall|i: int|
        2 <= i < s.len() && i / 2 == hole && hole >= 2 ==> #[trigger] ordered_above(rule, s, i)
}

/// The heap property while the element in slot `hole` is on its way down:
/// its children may outrank it, every other element is in order with its
/// parent, and the children of `hole` do not outrank the parent of `hole`.
pub open spec fn sinking<T, P: Priority<T>>(rule: P, s: Seq<T>, hole: int) -> bool {
    &&& forall|i: int| 2 <= i < s.len() && i / 2 != hole ==> #[trigger] ordered_at(rule, s, i)
    &&& forall|i: int|
        2 <= i < s.len() && i / 2 == hole && hole >= 2 ==> #[trigger] ordered_above(rule, s, i)
}

/// The content `v`, root first, after the element at place `k` has risen: as
/// long as it outranks its parent, at place `(k - 1) / 2`, the two change
/// places.
pub open spec fn risen<T, P: Priority<T>>(rule: P, v: Seq<T>, k: int) -> Seq<T>
    decreases k,
{
    if 0 < k < v.len() && rule.prefers(v[k], v[(k - 1) / 2]) {
        risen(rule, exchanged(v, k, (k - 1) / 2), (k - 1) / 2)
    } else {
        v
    }
}

/// The place of the child of place `k` that goes first, where `k` has a
/// child: of two children the left one, at `2 * k + 1`, if it outranks the
/// right one, else the right one; an only child otherwise.
pub open spec fn first_child<T, P: Priority<T>>(rule: P, v: Seq<T>, k: int) -> int {
    if 2 * k + 2 < v.len() && !rule.prefers(v[2 * k + 1], v[2 * k + 2]) {
        2 * k + 2
    } else {
        2 * k + 1
    }
}

/// The content `v`, root first, after the element at place `k` has sunk: as
/// long as the child that goes first outranks it, the two change places.
pub open spec fn sunk<T, P: Priority<T>>(rule: P, v: Seq<T>, k: int) -> Seq<T>
    decreases v.len() - k,
{
    if 0 <= k && 2 * k + 1 < v.len() && rule.prefers(v[first_child(rule, v, k)], v[k]) {
        sunk(rule, exchanged(v, k, first_child(rule, v, k)), first_child(rule, v, k))
    } else {
        v
    }
}

/// Exchanging two slots from 1 on keeps the elements of the array.
pub proof fn exchange_keeps_elements<T>(s: Seq<T>, i: int, j: int)
    requires
        1 <= i < s.len(),
        1 <= j < s.len(),
    ensures
        live(exchanged(s, i, j)).to_multiset() == live(s).to_multiset(),
{
    broadcast use vstd::multiset::group_multiset_axioms;

    let before = live(s);
    let half = before.update(i - 1, s[j]);
    assert(live(exchanged(s, i, j)) =~= half.update(j - 1, s[i]));
    vstd::seq_lib::to_multiset_update(before, i - 1, s[j]);
    vstd::seq_lib::to_multiset_update(half, j - 1, s[i]);
    assert(before[i - 1] == s[i]);
    assert(half[j - 1] == s[j]);
    vstd::seq_lib::to_multiset_contains(before, s[i]);
    assert(before.contains(s[i]));
    assert(before.to_multiset().insert(s[j]).remove(s[i]).insert(s[i]).remove(s[j])
        =~= before.to_multiset());
}

/// One step up: when the rising element outranks its parent, exchanging the
/// two leaves the array in order but for the rising element, now one level up.
pub proof fn rise_step<T, P: Priority<T>>(rule: P, s: Seq<T>, hole: int)
    requires
        rule.lawful(),
        2 <= hole < s.len(),
        rising(rule, s, hole),
        rule.prefers(s[hole], s[hole / 2]),
    ensures
        rising(rule, exchanged(s, hole, hole / 2), hole / 2),
{
    let up: int = hole / 2;
    let t = exchanged(s, hole, up);
    assert forall|i: int| 2 <= i < t.len() && i != up implies #[trigger] ordered_at(
        rule,
        t,
        i,
    ) by {
        if i == hole {
            rule.weak_order(s[hole], s[up], s[up]);
        } else if i / 2 == hole {
            assert(ordered_above(rule, s, i));
        } else if i / 2 == up {
            assert(ordered_at(rule, s, i));
            rule.weak_order(s[hole], s[up], s[up]);
            rule.weak_order(s[i], s[up], s[hole]);
        } else {
            assert(ordered_at(rule, s, i));
        }
    }
    assert forall|i: int| 2 <= i < t.len() && i / 2 == up && up >= 2 implies #[trigger] ordered_above(
        rule,
        t,
        i,
    ) by {
        assert(ordered_at(rule, s, up));
        if i == hole {
        } else {
            assert(ordered_at(rule, s, i));
            rule.weak_order(s[i], s[up], s[up / 2]);
        }
    }
}

/// One step down: when the child `m` of the sinking element outranks it, and
/// the other child does not outrank `m`, exchanging the sinking element with
/// `m` leaves the array in order but for the sinking element, now one level
/// down.
pub proof fn sink_step<T, P: Priority<T>>(rule: P, s: Seq<T>, hole: int, m: int)
    requires
        rule.lawful(),
        1 <= hole,
        2 <= m < s.len(),
        m / 2 == hole,
        sinking(rule, s, hole),
        rule.prefers(s[m], s[hole]),
        forall|o: int| 2 <= o < s.len() && o / 2 == hole && o != m ==> !rule.prefers(s[o], s[m]),
    ensures
        sinking(rule, exchanged(s, hole, m), m),
{
    let t = exchanged(s, hole, m);
    assert forall|i: int| 2 <= i < t.len() && i / 2 != m implies #[trigger] ordered_at(
        rule,
        t,
        i,
    ) by {
        if i == m {
            rule.weak_order(s[m], s[hole], s[hole]);
        } else if i / 2 == hole {
        } else if i == hole {
            assert(ordered_above(rule, s, m));
        } else {
            assert(ordered_at(rule, s, i));
        }
    }
    assert forall|i: int| 2 <= i < t.len() && i / 2 == m && m >= 2 implies #[trigger] ordered_above(
        rule,
        t,
        i,
    ) by {
        assert(ordered_at(rule, s, i));
    }
}

/// The end of the way down: when the child `m` that the rule picks does not
/// outrank the sinking element, neither does the other child, and the whole
/// array is in order.
pub proof fn sink_stop<T, P: Priority<T>>(rule: P, s: Seq<T>, hole: int, m: int)
    requires
        rule.lawful(),
        1 <= hole,
        2 <= m < s.len(),
        m / 2 == hole,
        sinking(rule, s, hole),
        !rule.prefers(s[m], s[hole]),
        forall|o: int| 2 <= o < s.len() && o / 2 == hole && o != m ==> !rule.prefers(s[o], s[m]),
    ensures
        heap_ordered(rule, s),
{
    assert forall|i: int| 2 <= i < s.len() implies #[trigger] ordered_at(rule, s, i) by {
        if i / 2 == hole && i != m {
            rule.weak_order(s[i], s[m], s[hole]);
        }
    }
}

/// In an ordered array no element outranks the root, in slot 1.
pub proof fn root_is_top<T, P: Priority<T>>(rule: P, s: Seq<T>, i: int)
    requires
        rule.lawful(),
        heap_ordered(rule, s),
        1 <= i < s.len(),
    ensures
        !rule.prefers(s[i], s[1]),
    decreases i,
{
    if i == 1 {
        rule.weak_order(s[1], s[1], s[1]);
    } else {
        assert(ordered_at(rule, s, i));
        root_is_top(rule, s, i / 2);
        rule.weak_order(s[i], s[i / 2], s[1]);
    }
}

} // verus!
