use vstd::prelude::*;

verus! {

/// An unbounded first-in first-out buffer.
///
/// Every component of the library keeps its pending inputs and finished
/// outputs in one of these; strict FIFO order is what makes `try_pop`
/// return outputs in the order they were produced.
pub struct Queue<T> {
    items: Vec<T>,
}

impl<T> View for Queue<T> {
    type V = Seq<T>;

    closed spec fn view(&self) -> Seq<T> {
        self.items@
    }
}

impl<T> Queue<T> {
    /// An empty queue.
    pub fn new() -> (queue: Self)
        ensures
            queue@ == Seq::<T>::empty(),
    {
        Queue { items: Vec::new() }
    }

    /// How many items are waiting.
    pub fn len(&self) -> (n: usize)
        ensures
            n == self@.len(),
    {
        self.items.len()
    }

    /// Whether nothing is waiting.
    pub fn is_empty(&self) -> (empty: bool)
        ensures
            empty == (self@.len() == 0),
    {
        self.items.len() == 0
    }

    /// Append one item at the back.
    pub fn push(&mut self, item: T)
        ensures
            final(self)@ == old(self)@.push(item),
    {
        self.items.push(item);
    }

    /// Append one item, but only when the queue is empty; a non-empty
    /// queue discards the item unchanged.
    pub fn push_if_empty(&mut self, item: T)
        ensures
            old(self)@.len() == 0 ==> final(self)@ == seq![item],
            old(self)@.len() != 0 ==> final(self)@ == old(self)@,
    {
        if self.items.len() == 0 {
            self.items.push(item);
        }
    }

    /// Remove and return the oldest item, or `None` when the queue is
    /// empty; never blocks.
    pub fn try_pop(&mut self) -> (popped: Option<T>)
        ensures
            old(self)@.len() == 0 ==> popped is None && *final(self) == *old(self),
            old(self)@.len() != 0 ==> popped == Some(old(self)@[0]) && final(self)@ == old(self)@.drop_first(),
    {
        if self.items.len() == 0 {
            None
        } else {
            Some(self.items.remove(0))
        }
    }
}

impl<T> Default for Queue<T> {
    /// An empty queue.
    fn default() -> (queue: Self)
        ensures
            queue@ == Seq::<T>::empty(),
    {
        Queue { items: Vec::new() }
    }
}

} // verus!
