//! A last-in-first-out stack that keeps its elements in two FIFO queues.

use crate::queue::Queue;
use vstd::prelude::*;

verus! {

/// A stack over two queues. One of them, the active one, holds every element
/// from bottom to top; the other is a spare that `pop` uses to reach the top.
/// The view is the content from bottom to top.
#[allow(non_camel_case_types)]
pub struct myStack<T> {
    now: usize,
    q1: Queue<T>,
    q2: Queue<T>,
}

impl<T> View for myStack<T> {
    type V = Seq<T>;

    closed spec fn view(&self) -> Seq<T> {
        if self.now == 1 {
            self.q1@
        } else {
            self.q2@
        }
    }
}

/// Empties `q`.
fn drain<T>(q: &mut Queue<T>)
    ensures
        final(q)@.len() == 0,
{
    while !q.is_empty()
        decreases q@.len(),
    {
        let _ = q.dequeue();
    }
}

/// Moves every element of `from` but the last to the tail of `to`, in order.
fn shift<T>(from: &mut Queue<T>, to: &mut Queue<T>)
    ensures
        old(from)@.len() <= 1 ==> final(from)@ == old(from)@ && final(to)@ == old(to)@,
        old(from)@.len() > 1 ==> final(from)@ == seq![old(from)@.last()] && final(to)@ == old(to)@
            + old(from)@.drop_last(),
{
    let ghost start = from@;
    let ghost base = to@;
    while from.size() > 1
        invariant
            from@.len() <= start.len(),
            start.len() > 0 ==> from@.len() > 0,
            from@ == start.subrange(start.len() - from@.len(), start.len() as int),
            to@ == base + start.subrange(0, start.len() - from@.len()),
        decreases from@.len(),
    {
        let ghost k: int = start.len() - from@.len();
        let moved = from.dequeue();
        match moved {
            Ok(elem) => {
                to.enqueue(elem);
            },
            Err(_) => {},
        }
        assert(from@ =~= start.subrange(k + 1, start.len() as int));
        assert(to@ =~= base + start.subrange(0, k + 1));
    }
    proof {
        if start.len() > 1 {
            assert(from@ =~= seq![start.last()]);
            assert(to@ =~= base + start.drop_last());
        } else {
            assert(from@ =~= start);
            assert(to@ =~= base);
        }
    }
}

/// What one push does: `elem` comes on top of the content.
pub open spec fn pushes<T>(pre: myStack<T>, post: myStack<T>, elem: T) -> bool {
    &&& post@ == pre@.push(elem)
    &&& pre.wf() ==> post.wf()
}

/// What one pop does: from an empty stack it yields the error text and leaves
/// the content empty; otherwise it yields the top element and leaves the
/// content below it. Either way the spare queue is empty afterwards.
pub open spec fn pops<T>(pre: myStack<T>, post: myStack<T>, got: Result<T, &'static str>) -> bool {
    &&& post.wf()
    &&& if pre@.len() == 0 {
        got == Err::<T, &'static str>("Stack is empty") && post@ == pre@
    } else {
        got == Ok::<T, &'static str>(pre@.last()) && post@ == pre@.drop_last()
    }
}

impl<T> myStack<T> {
    /// Whether the spare queue is empty, as it is between operations.
    pub closed spec fn wf(&self) -> bool {
        if self.now == 1 {
            self.q2@.len() == 0
        } else {
            self.q1@.len() == 0
        }
    }

    /// An empty stack.
    pub fn new() -> (s: Self)
        ensures
            s@ == Seq::<T>::empty(),
            s.wf(),
    {
        Self { now: 1, q1: Queue::<T>::new(), q2: Queue::<T>::new() }
    }

    /// Puts `elem` on top.
    pub fn push(&mut self, elem: T)
        ensures
            pushes(*old(self), *final(self), elem),
    {
        if self.now == 1 {
            self.q1.enqueue(elem);
        } else {
            self.q2.enqueue(elem);
        }
    }

    /// Takes the top element off and returns it. On an empty stack the
    /// content stays empty and the error text is returned. Whatever the spare
    /// queue held before, it is empty afterwards.
    pub fn pop(&mut self) -> (r: Result<T, &'static str>)
        ensures
            pops(*old(self), *final(self), r),
    {
        let taken;
        if self.now == 1 {
            drain(&mut self.q2);
            shift(&mut self.q1, &mut self.q2);
            self.now = 2;
            taken = self.q1.dequeue();
        } else {
            drain(&mut self.q1);
            shift(&mut self.q2, &mut self.q1);
            self.now = 1;
            taken = self.q2.dequeue();
        }
        proof {
            if old(self)@.len() == 0 {
                assert(self@ =~= old(self)@);
            } else {
                assert(self@ =~= old(self)@.drop_last());
            }
        }
        match taken {
            Ok(top) => Ok(top),
            Err(_) => Err("Stack is empty"),
        }
    }

    /// Whether the stack holds no element.
    pub fn is_empty(&self) -> (b: bool)
        ensures
            b == (self@.len() == 0),
    {
        if self.now == 1 {
            self.q1.is_empty()
        } else {
            self.q2.is_empty()
        }
    }
}

} // verus!
