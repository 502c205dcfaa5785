//! The queue of pending operations as a sequence of pushes and drains.
//!
//! The validator pushes one operation at a time; the batcher drains the
//! whole queue at once. Whatever the interleaving, every operation that was
//! pushed leaves the queue exactly once and in the order of arrival.

use crate::operation::OperationView;
use vstd::prelude::*;

verus! {

/// One step in the life of the queue.
pub enum QueueEvent {
    /// An operation was accepted and appended.
    Push { operation: OperationView },
    /// The whole queue was taken and an empty queue left behind.
    Drain,
}

/// What waits in the queue after `events`.
pub open spec fn waiting(events: Seq<QueueEvent>) -> Seq<OperationView>
    decreases events.len(),
{
    if events.len() == 0 {
        Seq::empty()
    } else {
        match events.last() {
            QueueEvent::Push { operation } => waiting(events.drop_last()).push(operation),
            QueueEvent::Drain => Seq::empty(),
        }
    }
}

/// All batches that were drained during `events`, one after another.
pub open spec fn drained(events: Seq<QueueEvent>) -> Seq<OperationView>
    decreases events.len(),
{
    if events.len() == 0 {
        Seq::empty()
    } else {
        match events.last() {
            QueueEvent::Push { .. } => drained(events.drop_last()),
            QueueEvent::Drain => drained(events.drop_last()) + waiting(events.drop_last()),
        }
    }
}

/// All operations that were pushed during `events`, in order.
pub open spec fn pushed(events: Seq<QueueEvent>) -> Seq<OperationView>
    decreases events.len(),
{
    if events.len() == 0 {
        Seq::empty()
    } else {
        match events.last() {
            QueueEvent::Push { operation } => pushed(events.drop_last()).push(operation),
            QueueEvent::Drain => pushed(events.drop_last()),
        }
    }
}

/// Nothing is lost, duplicated or reordered: the drained batches followed
/// by what still waits are the pushed operations.
pub proof fn lemma_queue_conserves(events: Seq<QueueEvent>)
    ensures
        drained(events) + waiting(events) == pushed(events),
        drained(events).len() + waiting(events).len() == pushed(events).len(),
    decreases events.len(),
{
    if events.len() > 0 {
        lemma_queue_conserves(events.drop_last());
        assert(drained(events) + waiting(events) =~= pushed(events));
    } else {
        assert(drained(events) + waiting(events) =~= pushed(events));
    }
}

/// Once the queue is empty, the drained batches together are exactly the
/// pushed operations.
pub proof fn lemma_drained_is_pushed(events: Seq<QueueEvent>)
    requires
        waiting(events).len() == 0,
    ensures
        drained(events) == pushed(events),
{
    lemma_queue_conserves(events);
    assert(drained(events) + waiting(events) =~= drained(events));
}

} // verus!
