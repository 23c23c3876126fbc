//! What holds of every run of insertions and extractions on a heap.

use crate::heap::{extracts, inserts, Heap};
use crate::priority::{total_order, Greatest, Least, Priority};
use vstd::multiset::Multiset;
use vstd::prelude::*;
use vstd::std_specs::cmp::PartialOrdIs;

verus! {

/// `hs` are the states of a heap and `out` what it yielded: each state but
/// the last gave the element of `out` at its place and turned into the next.
pub open spec fn extraction_run<T: Default, P: Priority<T>>(
    hs: Seq<Heap<T, P>>,
    out: Seq<T>,
) -> bool {
    &&& hs.len() == out.len() + 1
    &&& forall|k: int|
        0 <= k < out.len() ==> #[trigger] extracts(hs[k], hs[k + 1], Some(out[k]))
}

/// `hs` are the states of a heap and `vals` what went into it: each state but
/// the last took the element of `vals` at its place and turned into the next.
pub open spec fn insertion_run<T: Default, P: Priority<T>>(
    hs: Seq<Heap<T, P>>,
    vals: Seq<T>,
) -> bool {
    &&& hs.len() == vals.len() + 1
    &&& forall|k: int| 0 <= k < vals.len() ==> #[trigger] inserts(hs[k], hs[k + 1], vals[k])
}

/// `out` is in priority order: no element outranks one that stands before it.
pub open spec fn in_order<T, P: Priority<T>>(rule: P, out: Seq<T>) -> bool {
    forall|i: int, j: int| 0 <= i < j < out.len() ==> !rule.prefers(out[j], out[i])
}

/// An extraction from an empty heap yields nothing and changes nothing, and
/// so does every extraction after it.
pub proof fn exhausted_stays_exhausted<T: Default, P: Priority<T>>(
    h0: Heap<T, P>,
    h1: Heap<T, P>,
    h2: Heap<T, P>,
    a: Option<T>,
    b: Option<T>,
)
    requires
        h0@.len() == 0,
        extracts(h0, h1, a),
        extracts(h1, h2, b),
    ensures
        a == None::<T>,
        b == None::<T>,
        h1 == h0,
        h2 == h0,
{
}

/// In a run of extractions every state is a heap under the rule of the first.
proof fn run_keeps_heap<T: Default, P: Priority<T>>(hs: Seq<Heap<T, P>>, out: Seq<T>, k: int)
    requires
        extraction_run(hs, out),
        hs[0].wf(),
        0 <= k <= out.len(),
    ensures
        hs[k].wf(),
        hs[k].rule() == hs[0].rule(),
    decreases k,
{
    if k > 0 {
        let m: int = k - 1;
        run_keeps_heap(hs, out, m);
        assert(extracts(hs[m], hs[m + 1], Some(out[m])));
    }
}

/// What a run of extractions yields at place `j` was in the heap at every
/// earlier place `i`.
proof fn yielded_was_held<T: Default, P: Priority<T>>(
    hs: Seq<Heap<T, P>>,
    out: Seq<T>,
    i: int,
    j: int,
)
    requires
        extraction_run(hs, out),
        0 <= i <= j < out.len(),
    ensures
        hs[i]@.contains(out[j]),
    decreases j - i,
{
    broadcast use vstd::multiset::group_multiset_axioms;

    assert(extracts(hs[i], hs[i + 1], Some(out[i])));
    if i == j {
        assert(hs[i]@[0] == out[j]);
    } else {
        yielded_was_held(hs, out, i + 1, j);
        vstd::seq_lib::to_multiset_contains(hs[i + 1]@, out[j]);
        vstd::seq_lib::to_multiset_contains(hs[i]@, out[j]);
    }
}

/// Successive extractions come in priority order: what the second yields does
/// not outrank what the first yielded.
pub proof fn successive_extractions_in_order<T: Default, P: Priority<T>>(
    h0: Heap<T, P>,
    h1: Heap<T, P>,
    h2: Heap<T, P>,
    a: T,
    b: T,
)
    requires
        h0.wf(),
        extracts(h0, h1, Some(a)),
        extracts(h1, h2, Some(b)),
    ensures
        !h0.rule().prefers(b, a),
{
    let hs = seq![h0, h1, h2];
    let out = seq![a, b];
    assert(extraction_run(hs, out)) by {
        assert forall|k: int| 0 <= k < out.len() implies #[trigger] extracts(
            hs[k],
            hs[k + 1],
            Some(out[k]),
        ) by {
            if k == 0 {
            } else {
            }
        }
    }
    extractions_in_order(hs, out);
}

/// Whatever was inserted before, a run of extractions from a heap yields its
/// elements in priority order.
pub proof fn extractions_in_order<T: Default, P: Priority<T>>(hs: Seq<Heap<T, P>>, out: Seq<T>)
    requires
        extraction_run(hs, out),
        hs[0].wf(),
    ensures
        in_order(hs[0].rule(), out),
{
    assert forall|i: int, j: int| 0 <= i < j < out.len() implies !hs[0].rule().prefers(
        out[j],
        out[i],
    ) by {
        yielded_was_held(hs, out, i, j);
        run_keeps_heap(hs, out, i);
        assert(extracts(hs[i], hs[i + 1], Some(out[i])));
        let at: int = hs[i]@.index_of(out[j]);
        assert(hs[i]@[at] == out[j]);
    }
}

/// From a min-heap successive extractions never decrease, and from a max-heap
/// they never increase, on a type whose comparisons obey the laws of a total
/// order.
pub proof fn min_heap_ascends<T: Default + Ord>(
    h0: Heap<T, Least>,
    h1: Heap<T, Least>,
    h2: Heap<T, Least>,
    a: T,
    b: T,
)
    requires
        h0.wf(),
        vstd::laws_cmp::obeys_cmp::<T>(),
        extracts(h0, h1, Some(a)),
        extracts(h1, h2, Some(b)),
    ensures
        a.is_le(&b),
{
    successive_extractions_in_order(h0, h1, h2, a, b);
    total_order::<T>(b, a, b);
}

/// The counterpart of `min_heap_ascends` for a max-heap.
pub proof fn max_heap_descends<T: Default + Ord>(
    h0: Heap<T, Greatest>,
    h1: Heap<T, Greatest>,
    h2: Heap<T, Greatest>,
    a: T,
    b: T,
)
    requires
        h0.wf(),
        vstd::laws_cmp::obeys_cmp::<T>(),
        extracts(h0, h1, Some(a)),
        extracts(h1, h2, Some(b)),
    ensures
        a.is_ge(&b),
{
    successive_extractions_in_order(h0, h1, h2, a, b);
    total_order::<T>(b, a, b);
}

/// A run of extractions takes out of the heap exactly what it yields: the
/// elements yielded and the elements left are together the elements at the
/// start.
pub proof fn extractions_split_elements<T: Default, P: Priority<T>>(
    hs: Seq<Heap<T, P>>,
    out: Seq<T>,
)
    requires
        extraction_run(hs, out),
    ensures
        out.to_multiset().add(hs.last()@.to_multiset()) == hs[0]@.to_multiset(),
    decreases out.len(),
{
    broadcast use vstd::multiset::group_multiset_axioms;

    if out.len() == 0 {
        assert(out.to_multiset() =~= Multiset::<T>::empty()) by {
            out.to_multiset_ensures();
        }
        assert(out.to_multiset().add(hs.last()@.to_multiset()) =~= hs[0]@.to_multiset());
    } else {
        let n: int = out.len() as int;
        let hs0 = hs.drop_last();
        let out0 = out.drop_last();
        assert forall|k: int| 0 <= k < out0.len() implies #[trigger] extracts(
            hs0[k],
            hs0[k + 1],
            Some(out0[k]),
        ) by {
            assert(extracts(hs[k], hs[k + 1], Some(out[k])));
        }
        extractions_split_elements(hs0, out0);
        let m: int = n - 1;
        assert(extracts(hs[m], hs[m + 1], Some(out[m])));
        yielded_was_held(hs, out, m, m);
        vstd::seq_lib::to_multiset_contains(hs[m]@, out[m]);
        assert(out =~= out0.push(out[m]));
        vstd::seq_lib::to_multiset_build(out0, out[m]);
        assert(out.to_multiset().add(hs.last()@.to_multiset()) =~= hs[0]@.to_multiset());
    }
}

/// A run of insertions puts into the heap exactly what it is given.
pub proof fn insertions_join_elements<T: Default, P: Priority<T>>(
    hs: Seq<Heap<T, P>>,
    vals: Seq<T>,
)
    requires
        insertion_run(hs, vals),
        hs[0].wf(),
    ensures
        hs.last().wf(),
        hs.last().rule() == hs[0].rule(),
        hs.last()@.to_multiset() == hs[0]@.to_multiset().add(vals.to_multiset()),
    decreases vals.len(),
{
    broadcast use vstd::multiset::group_multiset_axioms;

    if vals.len() == 0 {
        assert(vals.to_multiset() =~= Multiset::<T>::empty()) by {
            vals.to_multiset_ensures();
        }
        assert(hs.last()@.to_multiset() =~= hs[0]@.to_multiset().add(vals.to_multiset()));
    } else {
        let n: int = vals.len() as int;
        let hs0 = hs.drop_last();
        let vals0 = vals.drop_last();
        assert forall|k: int| 0 <= k < vals0.len() implies #[trigger] inserts(
            hs0[k],
            hs0[k + 1],
            vals0[k],
        ) by {
            assert(inserts(hs[k], hs[k + 1], vals[k]));
        }
        insertions_join_elements(hs0, vals0);
        let m: int = n - 1;
        assert(inserts(hs[m], hs[m + 1], vals[m]));
        assert(vals =~= vals0.push(vals[m]));
        vstd::seq_lib::to_multiset_build(vals0, vals[m]);
        assert(hs.last()@.to_multiset() =~= hs[0]@.to_multiset().add(vals.to_multiset()));
    }
}

/// Round trip: when `vals` are inserted into an empty heap and as many
/// elements are extracted again, what comes out is `vals` rearranged into
/// priority order, and the heap is empty.
pub proof fn round_trip_sorts<T: Default, P: Priority<T>>(
    filling: Seq<Heap<T, P>>,
    vals: Seq<T>,
    emptying: Seq<Heap<T, P>>,
    out: Seq<T>,
)
    requires
        insertion_run(filling, vals),
        extraction_run(emptying, out),
        filling[0].wf(),
        filling[0]@.len() == 0,
        emptying[0] == filling.last(),
        out.len() == vals.len(),
    ensures
        out.to_multiset() == vals.to_multiset(),
        in_order(filling[0].rule(), out),
        emptying.last()@.len() == 0,
{
    broadcast use vstd::multiset::group_multiset_axioms;

    insertions_join_elements(filling, vals);
    extractions_split_elements(emptying, out);
    extractions_in_order(emptying, out);
    assert(filling[0]@.to_multiset() =~= Multiset::<T>::empty()) by {
        filling[0]@.to_multiset_ensures();
        vstd::seq_lib::to_multiset_len(filling[0]@);
    }
    vstd::seq_lib::to_multiset_len(out);
    vstd::seq_lib::to_multiset_len(vals);
    vstd::seq_lib::to_multiset_len(emptying.last()@);
    vstd::seq_lib::to_multiset_len(emptying[0]@);
    let rest = emptying.last()@.to_multiset();
    assert(out.to_multiset().add(rest).len() == out.to_multiset().len() + rest.len());
    assert(rest.len() == 0);
    assert(rest =~= Multiset::<T>::empty());
    assert(out.to_multiset().add(rest) =~= out.to_multiset());
    assert(filling[0]@.to_multiset().add(vals.to_multiset()) =~= vals.to_multiset());
    assert(out.to_multiset() =~= vals.to_multiset());
}

} // verus!
