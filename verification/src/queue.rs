//! A first-in-first-out queue.

use vstd::prelude::*;

verus! {

/// A FIFO queue. Its view is the sequence of waiting elements, head first.
#[derive(Debug)]
pub struct Queue<T> {
    elements: Vec<T>,
}

impl<T> View for Queue<T> {
    type V = Seq<T>;

    closed spec fn view(&self) -> Seq<T> {
        self.elements@
    }
}

impl<T> Queue<T> {
    /// An empty queue.
    pub fn new() -> (q: Queue<T>)
        ensures
            q@ == Seq::<T>::empty(),
    {
        Queue { elements: Vec::new() }
    }

    /// Appends `value` at the tail.
    pub fn enqueue(&mut self, value: T)
        ensures
            final(self)@ == old(self)@.push(value),
    {
        self.elements.push(value)
    }

    /// Removes the head, the earliest element still waiting, and returns it.
    /// On an empty queue nothing changes and the error text is returned.
    pub fn dequeue(&mut self) -> (r: Result<T, &'static str>)
        ensures
            old(self)@.len() == 0 ==> r == Err::<T, &'static str>("Queue is empty") && final(self)@
                == old(self)@,
            old(self)@.len() > 0 ==> r == Ok::<T, &'static str>(old(self)@[0]) && final(self)@
                == old(self)@.subrange(1, old(self)@.len() as int),
    {
        if !self.elements.is_empty() {
            let head = self.elements.remove(0usize);
            assert(self.elements@ =~= old(self).elements@.subrange(
                1,
                old(self).elements@.len() as int,
            ));
            Ok(head)
        } else {
            Err("Queue is empty")
        }
    }

    /// A reference to the head, which stays in the queue.
    pub fn peek(&self) -> (r: Result<&T, &'static str>)
        ensures
            self@.len() == 0 ==> r == Err::<&T, &'static str>("Queue is empty"),
            self@.len() > 0 ==> r == Ok::<&T, &'static str>(&self@[0]),
    {
        if self.elements.len() > 0 {
            Ok(&self.elements[0])
        } else {
            Err("Queue is empty")
        }
    }

    /// The number of waiting elements.
    pub fn size(&self) -> (n: usize)
        ensures
            n == self@.len(),
    {
        self.elements.len()
    }

    /// Whether no element is waiting.
    pub fn is_empty(&self) -> (b: bool)
        ensures
            b == (self@.len() == 0),
    {
        self.elements.is_empty()
    }
}

impl<T> Default for Queue<T> {
    fn default() -> (q: Queue<T>)
        ensures
            q@ == Seq::<T>::empty(),
    {
        Queue { elements: Vec::new() }
    }
}

} // verus!
