//! A bounded queue of samples.

use crossbeam_queue::ArrayQueue;
use vstd::prelude::*;

verus! {

/// The queue of `crossbeam_queue`, whose fields stay hidden.
#[verifier::external_type_specification]
#[verifier::external_body]
#[verifier::reject_recursive_types(T)]
pub struct ExArrayQueue<T>(ArrayQueue<T>);

/// What a queue holds, the oldest item first.
pub uninterp spec fn queue_items(queue: ArrayQueue<i64>) -> Seq<i64>;

/// How many items a queue was made to hold.
pub uninterp spec fn queue_capacity(queue: ArrayQueue<i64>) -> nat;

/// `ArrayQueue::new`, which panics for a capacity of 0 and for one whose slots, of 16 bytes each,
/// are more than can be allocated: an empty queue of that capacity.
#[verifier::external_body]
fn queue_new(capacity: usize) -> (r: ArrayQueue<i64>)
    requires
        0 < capacity <= isize::MAX / 16,
    ensures
        queue_items(r) == Seq::<i64>::empty(),
        queue_capacity(r) == capacity,
{
    ArrayQueue::new(capacity)
}

/// `ArrayQueue::push`, by the only user of the queue: the item goes to the end, or comes back
/// where the queue is full.
#[verifier::external_body]
fn queue_push(queue: &mut ArrayQueue<i64>, item: i64) -> (r: Result<(), i64>)
    ensures
        queue_capacity(*final(queue)) == queue_capacity(*old(queue)),
        if queue_items(*old(queue)).len() < queue_capacity(*old(queue)) {
            r == Ok::<(), i64>(()) && queue_items(*final(queue)) == queue_items(*old(queue)).push(
                item,
            )
        } else {
            r == Err::<(), i64>(item) && queue_items(*final(queue)) == queue_items(*old(queue))
        },
{
    queue.push(item)
}

/// `ArrayQueue::pop`, by the only user of the queue: the oldest item, where there is one.
#[verifier::external_body]
fn queue_pop(queue: &mut ArrayQueue<i64>) -> (r: Option<i64>)
    ensures
        queue_capacity(*final(queue)) == queue_capacity(*old(queue)),
        if queue_items(*old(queue)).len() > 0 {
            r == Some(queue_items(*old(queue))[0]) && queue_items(*final(queue)) == queue_items(
                *old(queue),
            ).skip(1)
        } else {
            r is None && queue_items(*final(queue)) == queue_items(*old(queue))
        },
{
    queue.pop()
}

/// `ArrayQueue::len`, while nobody pushes or pops: the number of items.
#[verifier::external_body]
fn queue_len(queue: &ArrayQueue<i64>) -> (r: usize)
    ensures
        r == queue_items(*queue).len(),
{
    queue.len()
}

/// A queue of samples with a fixed capacity, first in, first out.
pub struct SampleQueue {
    queue: ArrayQueue<i64>,
}

impl View for SampleQueue {
    type V = Seq<i64>;

    closed spec fn view(&self) -> Seq<i64> {
        queue_items(self.queue)
    }
}

impl SampleQueue {
    /// How many samples fit.
    pub closed spec fn capacity(&self) -> nat {
        queue_capacity(self.queue)
    }

    /// An empty queue.
    pub fn new(capacity: usize) -> (r: Self)
        requires
            0 < capacity <= isize::MAX / 16,
        ensures
            r@ == Seq::<i64>::empty(),
            r.capacity() == capacity,
    {
        SampleQueue { queue: queue_new(capacity) }
    }

    /// Appends a sample where there is room; says whether there was.
    pub fn push(&mut self, sample: i64) -> (r: bool)
        ensures
            final(self).capacity() == old(self).capacity(),
            r == (old(self)@.len() < old(self).capacity()),
            final(self)@ == if r {
                old(self)@.push(sample)
            } else {
                old(self)@
            },
    {
        match queue_push(&mut self.queue, sample) {
            Ok(_) => true,
            Err(_) => false,
        }
    }

    /// Takes the oldest sample.
    pub fn pop(&mut self) -> (r: Option<i64>)
        ensures
            final(self).capacity() == old(self).capacity(),
            match r {
                Some(sample) => old(self)@.len() > 0 && sample == old(self)@[0] && final(self)@
                    == old(self)@.skip(1),
                None => old(self)@.len() == 0 && final(self)@ == old(self)@,
            },
    {
        queue_pop(&mut self.queue)
    }

    /// How many samples are queued.
    pub fn len(&self) -> (r: usize)
        ensures
            r == self@.len(),
    {
        queue_len(&self.queue)
    }

    /// Drops all samples.
    pub fn clear(&mut self)
        ensures
            final(self)@ == Seq::<i64>::empty(),
            final(self).capacity() == old(self).capacity(),
    {
        let ghost before = self.capacity();
        while self.len() > 0
            invariant
                self.capacity() == before,
            decreases self@.len(),
        {
            let _ = self.pop();
        }
        proof {
            assert(self@ =~= Seq::<i64>::empty());
        }
    }
}

} // verus!
