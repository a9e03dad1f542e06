//! The bounded queue of ready task ids, kept in a `crossbeam_queue::ArrayQueue`.
//!
//! Nothing here is proved: each contract restates what the queue's source
//! shows of one of its methods, for a queue that its caller holds alone.

use crossbeam_queue::ArrayQueue;
use vstd::prelude::*;

verus! {

#[verifier::external_type_specification]
#[verifier::external_body]
#[verifier::reject_recursive_types(T)]
pub struct ExArrayQueue<T>(ArrayQueue<T>);

/// The ids that a queue holds, oldest first.
pub uninterp spec fn queue_contents(queue: ArrayQueue<u64>) -> Seq<u64>;

/// The number of ids that a queue was made to hold at most.
pub uninterp spec fn queue_capacity(queue: ArrayQueue<u64>) -> nat;

/// `ArrayQueue::new`: a queue that holds nothing and has room for
/// `capacity` ids. It panics on a capacity of zero, and on one so large that
/// the next power of two above it does not fit its index type.
#[verifier::external_body]
pub(crate) fn queue_new(capacity: usize) -> (queue: ArrayQueue<u64>)
    requires
        0 < capacity < 0x8000_0000,
    ensures
        queue_contents(queue) == Seq::<u64>::empty(),
        queue_capacity(queue) == capacity,
{
    ArrayQueue::new(capacity)
}

/// `ArrayQueue::push`: a queue with room takes `task_id` as its newest id;
/// a full queue is left as it was and hands `task_id` back. It never panics.
#[verifier::external_body]
pub(crate) fn queue_push(queue: &mut ArrayQueue<u64>, task_id: u64) -> (pushed: Result<(), u64>)
    ensures
        queue_capacity(*final(queue)) == queue_capacity(*old(queue)),
        pushed is Ok <==> queue_contents(*old(queue)).len() < queue_capacity(*old(queue)),
        pushed is Ok ==> queue_contents(*final(queue)) == queue_contents(*old(queue)).push(
            task_id,
        ),
        pushed matches Err(rejected) ==> rejected == task_id && queue_contents(*final(queue))
            == queue_contents(*old(queue)),
    no_unwind
{
    queue.push(task_id)
}

/// `ArrayQueue::pop`: the oldest id leaves the queue and is returned; an
/// empty queue returns nothing. It never panics.
#[verifier::external_body]
pub(crate) fn queue_pop(queue: &mut ArrayQueue<u64>) -> (popped: Option<u64>)
    ensures
        queue_capacity(*final(queue)) == queue_capacity(*old(queue)),
        popped is Some <==> queue_contents(*old(queue)).len() > 0,
        popped matches Some(task_id) ==> task_id == queue_contents(*old(queue)).first()
            && queue_contents(*final(queue)) == queue_contents(*old(queue)).drop_first(),
        popped is None ==> queue_contents(*final(queue)) == queue_contents(*old(queue)),
    no_unwind
{
    queue.pop()
}

/// `ArrayQueue::len`: the number of ids in the queue, which is never above
/// its capacity.
#[verifier::external_body]
pub(crate) fn queue_len(queue: &ArrayQueue<u64>) -> (len: usize)
    ensures
        len == queue_contents(*queue).len(),
        len <= queue_capacity(*queue),
{
    queue.len()
}

/// `ArrayQueue::is_empty`: whether the queue holds no id.
#[verifier::external_body]
pub(crate) fn queue_is_empty(queue: &ArrayQueue<u64>) -> (empty: bool)
    ensures
        empty == (queue_contents(*queue).len() == 0),
{
    queue.is_empty()
}

} // verus!
