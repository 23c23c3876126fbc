//! What holds of every run of pushes and pops on a stack.

use crate::stack::{myStack, pops, pushes};
use vstd::prelude::*;

verus! {

/// `ss` are the states of a stack and `vals` what was pushed: each state but
/// the last took the element of `vals` at its place and turned into the next.
pub open spec fn push_run<T>(ss: Seq<myStack<T>>, vals: Seq<T>) -> bool {
    &&& ss.len() == vals.len() + 1
    &&& forall|k: int| 0 <= k < vals.len() ==> #[trigger] pushes(ss[k], ss[k + 1], vals[k])
}

/// `ss` are the states of a stack and `out` what the pops returned: each state
/// but the last gave the result of `out` at its place and turned into the
/// next.
pub open spec fn pop_run<T>(ss: Seq<myStack<T>>, out: Seq<Result<T, &'static str>>) -> bool {
    &&& ss.len() == out.len() + 1
    &&& forall|k: int| 0 <= k < out.len() ==> #[trigger] pops(ss[k], ss[k + 1], out[k])
}

/// After a run of pushes the content is the content at the start with the
/// pushed elements on top, the last one topmost.
pub proof fn pushes_pile_up<T>(ss: Seq<myStack<T>>, vals: Seq<T>)
    requires
        push_run(ss, vals),
    ensures
        ss.last()@ == ss[0]@ + vals,
    decreases vals.len(),
{
    if vals.len() == 0 {
        assert(ss.last()@ =~= ss[0]@ + vals);
    } else {
        let m: int = vals.len() - 1;
        let ss0 = ss.drop_last();
        let vals0 = vals.drop_last();
        assert forall|k: int| 0 <= k < vals0.len() implies #[trigger] pushes(
            ss0[k],
            ss0[k + 1],
            vals0[k],
        ) by {
            assert(pushes(ss[k], ss[k + 1], vals[k]));
        }
        pushes_pile_up(ss0, vals0);
        assert(pushes(ss[m], ss[m + 1], vals[m]));
        assert(ss.last()@ =~= ss[0]@ + vals);
    }
}

/// As long as elements are left, the pop at place `k` of a run returns the
/// element `k` places below the top of the content at the start, and leaves
/// what lay below it.
pub proof fn pops_come_from_the_top<T>(
    ss: Seq<myStack<T>>,
    out: Seq<Result<T, &'static str>>,
    k: int,
)
    requires
        pop_run(ss, out),
        0 <= k < out.len(),
        k < ss[0]@.len(),
    ensures
        out[k] == Ok::<T, &'static str>(ss[0]@[ss[0]@.len() - 1 - k]),
        ss[k + 1]@ == ss[0]@.take(ss[0]@.len() - 1 - k),
    decreases k,
{
    assert(pops(ss[k], ss[k + 1], out[k]));
    if k == 0 {
        assert(ss[1]@ =~= ss[0]@.take(ss[0]@.len() - 1));
    } else {
        let m: int = k - 1;
        pops_come_from_the_top(ss, out, m);
        assert(ss[m + 1]@ == ss[0]@.take(ss[0]@.len() - 1 - m));
        assert(ss[k + 1]@ =~= ss[0]@.take(ss[0]@.len() - 1 - k));
    }
}

/// Last in, first out: when `vals` are pushed and as many pops follow, the
/// pops return `vals` in reverse order, none of them fails, and the content
/// is what it was before the pushes.
pub proof fn last_in_first_out<T>(
    filling: Seq<myStack<T>>,
    vals: Seq<T>,
    emptying: Seq<myStack<T>>,
    out: Seq<Result<T, &'static str>>,
)
    requires
        push_run(filling, vals),
        pop_run(emptying, out),
        emptying[0] == filling.last(),
        out.len() == vals.len(),
    ensures
        forall|k: int|
            0 <= k < out.len() ==> #[trigger] out[k] == Ok::<T, &'static str>(
                vals[vals.len() - 1 - k],
            ),
        emptying.last()@ == filling[0]@,
{
    pushes_pile_up(filling, vals);
    let full = emptying[0]@;
    assert forall|k: int| 0 <= k < out.len() implies #[trigger] out[k] == Ok::<T, &'static str>(
        vals[vals.len() - 1 - k],
    ) by {
        pops_come_from_the_top(emptying, out, k);
    }
    if out.len() == 0 {
        assert(emptying.last()@ =~= filling[0]@);
    } else {
        let m: int = out.len() - 1;
        pops_come_from_the_top(emptying, out, m);
        assert(emptying[m + 1]@ =~= filling[0]@);
    }
}

/// A stack that was empty before `vals` were pushed is empty again after as
/// many pops, and not after fewer.
pub proof fn empty_after_all_pops<T>(
    filling: Seq<myStack<T>>,
    vals: Seq<T>,
    emptying: Seq<myStack<T>>,
    out: Seq<Result<T, &'static str>>,
)
    requires
        push_run(filling, vals),
        pop_run(emptying, out),
        filling[0]@.len() == 0,
        emptying[0] == filling.last(),
        out.len() <= vals.len(),
    ensures
        emptying.last()@.len() == vals.len() - out.len(),
        emptying.last()@.len() == 0 <==> out.len() == vals.len(),
{
    pushes_pile_up(filling, vals);
    if out.len() > 0 {
        let m: int = out.len() - 1;
        pops_come_from_the_top(emptying, out, m);
    }
}

} // verus!
