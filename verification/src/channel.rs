//! The queue between two workers that is bounded by the weight of what
//! waits in it, not by the number of items.

use vstd::prelude::*;
use std::collections::VecDeque;

verus! {

/// The weights of the items added up.
pub open spec fn total_weight<T>(items: Seq<(T, usize)>) -> nat
    decreases items.len(),
{
    if items.len() == 0 {
        0
    } else {
        total_weight(items.drop_last()) + items.last().1 as nat
    }
}

/// Taking the first item away takes its weight off the total.
pub proof fn lemma_total_weight_drop_first<T>(items: Seq<(T, usize)>)
    requires
        items.len() > 0,
    ensures
        total_weight(items.drop_first()) == total_weight(items) - items[0].1,
    decreases items.len(),
{
    if items.len() == 1 {
        assert(items.drop_last() =~= Seq::<(T, usize)>::empty());
        assert(items.drop_first() =~= Seq::<(T, usize)>::empty());
    } else {
        lemma_total_weight_drop_first(items.drop_last());
        assert(items.drop_first().drop_last() =~= items.drop_last().drop_first());
    }
}

/// A queue of items that each have a weight. It holds what was sent and not
/// yet received, in the order of sending, and the weights of what it holds
/// never add up to more than its capacity.
pub struct ConstrainedQueue<T> {
    items: VecDeque<(T, usize)>,
    queued: usize,
    capacity: usize,
}

impl<T> View for ConstrainedQueue<T> {
    type V = Seq<(T, usize)>;

    /// The items that wait, each with its weight, oldest first.
    closed spec fn view(&self) -> Seq<(T, usize)> {
        self.items@
    }
}

impl<T> ConstrainedQueue<T> {
    #[verifier::type_invariant]
    spec fn within_capacity(&self) -> bool {
        &&& self.queued == total_weight(self.items@)
        &&& self.queued <= self.capacity
    }

    /// The weight that the queue holds at most.
    pub closed spec fn spec_capacity(&self) -> usize {
        self.capacity
    }

    /// Whether an item of the given weight has room in the queue.
    pub open spec fn has_room(&self, weight: usize) -> bool {
        total_weight(self@) + weight <= self.spec_capacity()
    }

    /// An empty queue that holds a weight of `capacity` at most.
    pub fn new(capacity: usize) -> (queue: ConstrainedQueue<T>)
        ensures
            queue@ == Seq::<(T, usize)>::empty(),
            queue.spec_capacity() == capacity,
    {
        ConstrainedQueue { items: VecDeque::new(), queued: 0, capacity }
    }

    /// The weight that the queue holds at most.
    #[verifier::when_used_as_spec(spec_capacity)]
    pub fn capacity(&self) -> (capacity: usize)
        ensures
            capacity == self.spec_capacity(),
    {
        self.capacity
    }

    /// The weight of what waits in the queue.
    pub fn queued_weight(&self) -> (weight: usize)
        ensures
            weight == total_weight(self@),
            weight <= self.spec_capacity(),
    {
        proof {
            use_type_invariant(self);
        }
        self.queued
    }

    /// How many items wait in the queue.
    pub fn len(&self) -> (n: usize)
        ensures
            n == self@.len(),
    {
        self.items.len()
    }

    /// Puts `item` behind what waits, where its weight has room. Where it
    /// has none, the queue stays as it is and the item is handed back: the
    /// sender is to wait and send it again.
    pub fn try_send(&mut self, item: T, weight: usize) -> (r: Result<(), T>)
        ensures
            final(self).spec_capacity() == old(self).spec_capacity(),
            old(self).has_room(weight) ==> r is Ok
                && final(self)@ == old(self)@.push((item, weight)),
            !old(self).has_room(weight) ==> r == Err::<(), T>(item) && final(self)@ == old(self)@,
    {
        proof {
            use_type_invariant(&*self);
        }
        if weight > self.capacity - self.queued {
            return Err(item);
        }
        // The queue is taken out whole and put back whole: its fields keep
        // count of each other and are not changed one by one.
        let mut taken = ConstrainedQueue::new(self.capacity);
        core::mem::swap(self, &mut taken);
        let ConstrainedQueue { items, queued, capacity } = taken;
        let mut items = items;
        proof {
            assert(items@.push((item, weight)).drop_last() =~= items@);
        }
        items.push_back((item, weight));
        *self = ConstrainedQueue { items, queued: queued + weight, capacity };
        Ok(())
    }

    /// Takes the item that has waited longest, if any waits.
    pub fn recv(&mut self) -> (r: Option<T>)
        ensures
            final(self).spec_capacity() == old(self).spec_capacity(),
            old(self)@.len() == 0 ==> r is None && final(self)@ == old(self)@,
            old(self)@.len() > 0 ==> r == Some(old(self)@[0].0)
                && final(self)@ == old(self)@.drop_first(),
    {
        proof {
            use_type_invariant(&*self);
            if self.items@.len() > 0 {
                lemma_total_weight_drop_first(self.items@);
            }
        }
        let mut taken = ConstrainedQueue::new(self.capacity);
        core::mem::swap(self, &mut taken);
        let ConstrainedQueue { items, queued, capacity } = taken;
        let mut items = items;
        match items.pop_front() {
            Some((item, weight)) => {
                assert(items@ =~= old(self)@.drop_first());
                *self = ConstrainedQueue { items, queued: queued - weight, capacity };
                Some(item)
            },
            None => {
                *self = ConstrainedQueue { items, queued, capacity };
                None
            },
        }
    }
}

} // verus!
