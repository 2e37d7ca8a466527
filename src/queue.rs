//! The bounded queue that holds the event a writer has not yet written.
use vstd::prelude::*;
use crossbeam_queue::ArrayQueue;
use crate::event::SlimEvent;

verus! {

#[verifier::external_type_specification]
#[verifier::external_body]
#[verifier::reject_recursive_types(T)]
pub struct ExArrayQueue<T>(ArrayQueue<T>);

/// The events that `q` holds, oldest first.
pub uninterp spec fn queued(q: ArrayQueue<SlimEvent>) -> Seq<SlimEvent>;

/// The capacity that `q` was made with.
pub uninterp spec fn queue_capacity(q: ArrayQueue<SlimEvent>) -> nat;

/// Relies on `ArrayQueue::new`: an empty queue of capacity `cap` (it panics
/// on a zero capacity and on one too large to index).
#[verifier::external_body]
pub(crate) fn new_queue(cap: usize) -> (q: ArrayQueue<SlimEvent>)
    requires
        0 < cap <= 65535,
    ensures
        queued(q) == Seq::<SlimEvent>::empty(),
        queue_capacity(q) == cap,
{
    ArrayQueue::new(cap)
}

/// Relies on `ArrayQueue::force_push`: a queue that is not full takes the
/// value at its back and returns `None`; a full one drops its oldest value,
/// takes the new one at its back, and returns the value it dropped.
#[verifier::external_body]
pub(crate) fn force_push(q: &mut ArrayQueue<SlimEvent>, v: SlimEvent) -> (r: Option<SlimEvent>)
    ensures
        queue_capacity(*final(q)) == queue_capacity(*old(q)),
        queued(*old(q)).len() < queue_capacity(*old(q)) ==> r == None::<SlimEvent> && queued(
            *final(q),
        ) == queued(*old(q)).push(v),
        queued(*old(q)).len() >= queue_capacity(*old(q)) ==> r == Some(queued(*old(q))[0])
            && queued(*final(q)) == queued(*old(q)).drop_first().push(v),
{
    q.force_push(v)
}

/// Relies on `ArrayQueue::pop`: `None` from an empty queue, else the oldest
/// value, which leaves the queue.
#[verifier::external_body]
pub(crate) fn pop(q: &mut ArrayQueue<SlimEvent>) -> (r: Option<SlimEvent>)
    ensures
        queue_capacity(*final(q)) == queue_capacity(*old(q)),
        queued(*old(q)).len() == 0 ==> r == None::<SlimEvent> && queued(*final(q)) == queued(
            *old(q),
        ),
        queued(*old(q)).len() > 0 ==> r == Some(queued(*old(q))[0]) && queued(*final(q))
            == queued(*old(q)).drop_first(),
{
    q.pop()
}

} // verus!
