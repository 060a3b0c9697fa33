//! The bounded first-in, first-out queue of replies waiting to be sent.

use crate::datagram::{Datagram, DatagramView};
use std::collections::VecDeque;
use vstd::prelude::*;

verus! {

/// What became of a datagram offered to the queue.
#[derive(Clone, Copy, Debug, PartialEq, Eq, Structural)]
pub enum Admission {
    /// The datagram was appended at the back.
    Admitted,
    /// The queue was full and the datagram was discarded.
    Dropped,
}

/// True when a queue of this content and capacity takes one more datagram.
pub open spec fn has_room(queue: Seq<DatagramView>, capacity: nat) -> bool {
    queue.len() < capacity
}

/// The content of a queue after `datagram` was offered to it: the newcomer
/// is appended while there is room and refused otherwise.
pub open spec fn enqueued(
    queue: Seq<DatagramView>,
    capacity: nat,
    datagram: DatagramView,
) -> Seq<DatagramView> {
    if has_room(queue, capacity) {
        queue.push(datagram)
    } else {
        queue
    }
}

/// The content of a queue after its oldest datagram was taken out.
pub open spec fn dequeued(queue: Seq<DatagramView>) -> Seq<DatagramView> {
    if queue.len() > 0 {
        queue.drop_first()
    } else {
        queue
    }
}

/// The content of a queue after `datagram` was put back at its front.
pub open spec fn requeued(queue: Seq<DatagramView>, datagram: DatagramView) -> Seq<DatagramView> {
    seq![datagram] + queue
}

/// Replies waiting for transmission, oldest first, never more than the
/// capacity the queue was made with.
#[derive(Debug)]
pub struct OutgoingQueue {
    items: VecDeque<Datagram>,
    capacity: usize,
}

impl View for OutgoingQueue {
    type V = Seq<DatagramView>;

    closed spec fn view(&self) -> Seq<DatagramView> {
        self.items@.map_values(|d: Datagram| d@)
    }
}

impl OutgoingQueue {
    /// The queue holds no more than its capacity.
    pub closed spec fn wf(&self) -> bool {
        self.items@.len() <= self.capacity
    }

    /// The largest number of datagrams the queue holds.
    pub closed spec fn spec_capacity(&self) -> nat {
        self.capacity as nat
    }

    /// An empty queue that holds at most `capacity` datagrams.
    pub fn new(capacity: usize) -> (queue: OutgoingQueue)
        ensures
            queue.wf(),
            queue@ == Seq::<DatagramView>::empty(),
            queue.spec_capacity() == capacity,
    {
        let queue = OutgoingQueue { items: VecDeque::new(), capacity };
        assert(queue@ =~= Seq::<DatagramView>::empty());
        queue
    }

    /// The capacity the queue was made with.
    pub fn capacity(&self) -> (capacity: usize)
        ensures
            capacity == self.spec_capacity(),
    {
        self.capacity
    }

    /// The number of datagrams waiting.
    pub fn len(&self) -> (n: usize)
        ensures
            n == self@.len(),
            self.wf() ==> n <= self.spec_capacity(),
    {
        self.items.len()
    }

    /// True when nothing is waiting.
    pub fn is_empty(&self) -> (empty: bool)
        ensures
            empty == (self@.len() == 0),
    {
        self.items.len() == 0
    }

    /// True when the next datagram offered would be dropped.
    pub fn is_full(&self) -> (full: bool)
        ensures
            full == !has_room(self@, self.spec_capacity()),
    {
        self.items.len() >= self.capacity
    }

    /// Offers `datagram` to the queue. It is admitted, at the back, when
    /// the queue with it holds no more than `capacity` datagrams; otherwise
    /// the newcomer is discarded and the queue stays as it was.
    pub fn enqueue(&mut self, datagram: Datagram) -> (outcome: Admission)
        requires
            old(self).wf(),
        ensures
            final(self).wf(),
            final(self).spec_capacity() == old(self).spec_capacity(),
            final(self)@ == enqueued(old(self)@, old(self).spec_capacity(), datagram@),
            outcome == if has_room(old(self)@, old(self).spec_capacity()) {
                Admission::Admitted
            } else {
                Admission::Dropped
            },
            final(self)@.len() <= final(self).spec_capacity(),
    {
        if self.items.len() < self.capacity {
            self.items.push_back(datagram);
            assert(self@ =~= old(self)@.push(datagram@));
            Admission::Admitted
        } else {
            Admission::Dropped
        }
    }

    /// Takes out the oldest datagram, if there is one.
    pub fn dequeue_front(&mut self) -> (oldest: Option<Datagram>)
        requires
            old(self).wf(),
        ensures
            final(self).wf(),
            final(self).spec_capacity() == old(self).spec_capacity(),
            final(self)@ == dequeued(old(self)@),
            old(self)@.len() == 0 ==> oldest is None,
            old(self)@.len() > 0 ==> oldest is Some && oldest->0@ == old(self)@[0],
    {
        let oldest = self.items.pop_front();
        assert(self@ =~= dequeued(old(self)@));
        oldest
    }

    /// Puts a datagram that was taken out by [`OutgoingQueue::dequeue_front`]
    /// back at the front, ahead of everything that waits. The datagram was
    /// admitted before, so it is not offered again: the slot it left must
    /// still be free.
    pub fn requeue_front(&mut self, datagram: Datagram)
        requires
            old(self).wf(),
            has_room(old(self)@, old(self).spec_capacity()),
        ensures
            final(self).wf(),
            final(self).spec_capacity() == old(self).spec_capacity(),
            final(self)@ == requeued(old(self)@, datagram@),
            final(self)@.len() <= final(self).spec_capacity(),
    {
        self.items.push_front(datagram);
        assert(self@ =~= requeued(old(self)@, datagram@));
    }
}

/// Putting a datagram back right after taking it out restores the queue:
/// the datagram is at the front again and every other datagram keeps its
/// place behind it.
pub proof fn lemma_requeue_restores(queue: Seq<DatagramView>)
    requires
        queue.len() > 0,
    ensures
        requeued(dequeued(queue), queue[0]) == queue,
{
    assert(requeued(dequeued(queue), queue[0]) =~= queue);
}

/// A datagram put back at the front is the next to leave, and the datagrams
/// that were waiting follow it in the order they had.
pub proof fn lemma_requeue_keeps_order(queue: Seq<DatagramView>, datagram: DatagramView)
    ensures
        requeued(queue, datagram).len() == queue.len() + 1,
        requeued(queue, datagram)[0] == datagram,
        forall|i: int| 0 <= i < queue.len() ==> requeued(queue, datagram)[i + 1] == queue[i],
        dequeued(requeued(queue, datagram)) == queue,
{
    assert(dequeued(requeued(queue, datagram)) =~= queue);
}

/// The queue never grows past its capacity by an offer, and an offer to a
/// full queue changes nothing.
pub proof fn lemma_enqueue_bounded(queue: Seq<DatagramView>, capacity: nat, datagram: DatagramView)
    requires
        queue.len() <= capacity,
    ensures
        enqueued(queue, capacity, datagram).len() <= capacity,
        !has_room(queue, capacity) ==> enqueued(queue, capacity, datagram) == queue,
        has_room(queue, capacity) ==> enqueued(queue, capacity, datagram) == queue.push(datagram),
{
}

} // verus!
