//! A bounded first-in first-out queue that refuses what does not fit.

use std::collections::VecDeque;
use vstd::prelude::*;

verus! {

/// Queue of at most `capacity` items. A full queue hands a new item back at
/// once; it neither grows nor waits.
#[derive(Debug)]
pub struct BoundedQueue<T> {
    items: VecDeque<T>,
    capacity: usize,
}

impl<T> View for BoundedQueue<T> {
    type V = Seq<T>;

    closed spec fn view(&self) -> Seq<T> {
        self.items@
    }
}

impl<T> BoundedQueue<T> {
    #[verifier::type_invariant]
    spec fn inv(self) -> bool {
        self.items@.len() <= self.capacity
    }

    /// Largest number of items that the queue holds.
    pub closed spec fn spec_capacity(&self) -> usize {
        self.capacity
    }

    /// Moves the items out, to be worked on and put back. The queue is
    /// empty in between, so that its bound holds at every step.
    fn take_items(&mut self) -> (items: VecDeque<T>)
        ensures
            items@ == old(self).items@,
            final(self).items@.len() == 0,
            final(self).capacity == old(self).capacity,
    {
        let mut items: VecDeque<T> = VecDeque::new();
        std::mem::swap(&mut self.items, &mut items);
        items
    }

    /// An empty queue for at most `capacity` items.
    pub fn new(capacity: usize) -> (queue: Self)
        ensures
            queue@ == Seq::<T>::empty(),
            queue.spec_capacity() == capacity,
    {
        BoundedQueue { items: VecDeque::new(), capacity }
    }

    /// Largest number of items that the queue holds.
    #[verifier::when_used_as_spec(spec_capacity)]
    pub fn capacity(&self) -> (capacity: usize)
        ensures
            capacity == self.spec_capacity(),
    {
        self.capacity
    }

    /// Number of items waiting.
    pub fn len(&self) -> (n: usize)
        ensures
            n == self@.len(),
            n <= self.spec_capacity(),
    {
        proof {
            use_type_invariant(self);
        }
        self.items.len()
    }

    /// Whether nothing waits.
    pub fn is_empty(&self) -> (empty: bool)
        ensures
            empty == (self@.len() == 0),
    {
        self.items.len() == 0
    }

    /// Whether the next `try_push` would be refused.
    pub fn is_full(&self) -> (full: bool)
        ensures
            full == (self@.len() >= self.spec_capacity()),
    {
        self.items.len() >= self.capacity
    }

    /// Puts `item` behind the items that wait, or hands it back if the queue
    /// is full.
    pub fn try_push(&mut self, item: T) -> (r: Result<(), T>)
        ensures
            final(self).spec_capacity() == old(self).spec_capacity(),
            old(self)@.len() < old(self).spec_capacity() ==> {
                &&& r is Ok
                &&& final(self)@ == old(self)@.push(item)
            },
            old(self)@.len() >= old(self).spec_capacity() ==> {
                &&& r == Err::<(), T>(item)
                &&& final(self)@ == old(self)@
            },
    {
        if self.items.len() >= self.capacity {
            return Err(item);
        }
        let mut items = self.take_items();
        items.push_back(item);
        self.items = items;
        Ok(())
    }

    /// Takes the item that has waited longest.
    pub fn pop(&mut self) -> (r: Option<T>)
        ensures
            final(self).spec_capacity() == old(self).spec_capacity(),
            old(self)@.len() > 0 ==> {
                &&& r == Some(old(self)@[0])
                &&& final(self)@ == old(self)@.subrange(1, old(self)@.len() as int)
            },
            old(self)@.len() == 0 ==> {
                &&& r is None
                &&& final(self)@ == old(self)@
            },
    {
        proof {
            use_type_invariant(&*self);
        }
        let mut items = self.take_items();
        let r = items.pop_front();
        self.items = items;
        r
    }
}

} // verus!
