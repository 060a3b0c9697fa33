//! What an engine does over a whole sequence of events.
//!
//! The functions here replay events on the mathematical state of an engine
//! and collect the datagrams that were admitted and the datagrams that were
//! sent. The lemmas relate the two: nothing that was admitted is lost,
//! altered or overtaken.

use crate::datagram::{DatagramView, PeerAddr};
use crate::engine::{Action, EngineState, EventView, Phase};
use crate::interest::{Interest, Readiness, TriggerMode};
use crate::queue::has_room;
use vstd::prelude::*;

verus! {

/// The datagram that `event` adds to the backlog of an engine in `state`:
/// the received one, where the event is taken and the queue has room.
pub open spec fn admitted(state: EngineState, event: EventView) -> Seq<DatagramView> {
    match event {
        EventView::Received(datagram) => if state.accepts(event) && has_room(
            state.outgoing,
            state.capacity,
        ) {
            seq![datagram]
        } else {
            Seq::empty()
        },
        _ => Seq::empty(),
    }
}

/// The datagram that `event` reports as sent by an engine in `state`: the
/// one in flight, where the event is a transmission that is taken.
pub open spec fn echoed(state: EngineState, event: EventView) -> Seq<DatagramView> {
    if state.accepts(event) && event is Transmitted {
        state.in_flight()
    } else {
        Seq::empty()
    }
}

/// The state after all of `events`, taken one after the other.
pub open spec fn run(state: EngineState, events: Seq<EventView>) -> EngineState
    decreases events.len(),
{
    if events.len() == 0 {
        state
    } else {
        run(state.step(events[0]), events.drop_first())
    }
}

/// The datagrams admitted while `events` are taken, in order.
pub open spec fn admitted_during(state: EngineState, events: Seq<EventView>) -> Seq<DatagramView>
    decreases events.len(),
{
    if events.len() == 0 {
        Seq::empty()
    } else {
        admitted(state, events[0]) + admitted_during(state.step(events[0]), events.drop_first())
    }
}

/// The datagrams sent while `events` are taken, in order.
pub open spec fn echoed_during(state: EngineState, events: Seq<EventView>) -> Seq<DatagramView>
    decreases events.len(),
{
    if events.len() == 0 {
        Seq::empty()
    } else {
        echoed(state, events[0]) + echoed_during(state.step(events[0]), events.drop_first())
    }
}

/// The datagrams of `datagrams` that came from `peer`, in order.
pub open spec fn from_peer(datagrams: Seq<DatagramView>, peer: PeerAddr) -> Seq<DatagramView> {
    datagrams.filter(|d: DatagramView| d.peer == peer)
}

/// An event leaves a well-formed state well formed and never changes the
/// mode, the capacity or the message size. In particular the queue stays
/// within its capacity whatever is reported.
pub proof fn lemma_step_keeps_wf(state: EngineState, event: EventView)
    requires
        state.wf(),
    ensures
        state.step(event).wf(),
        state.step(event).outgoing.len() <= state.capacity,
        state.step(event).mode == state.mode,
        state.step(event).capacity == state.capacity,
        state.step(event).max_message_size == state.max_message_size,
        state.halted ==> state.step(event) == state,
{
}

/// A sequence of events leaves a well-formed state well formed: at no point
/// does the queue hold more than its capacity.
pub proof fn lemma_run_keeps_wf(state: EngineState, events: Seq<EventView>)
    requires
        state.wf(),
    ensures
        run(state, events).wf(),
        run(state, events).outgoing.len() <= state.capacity,
        run(state, events).mode == state.mode,
        run(state, events).capacity == state.capacity,
        run(state, events).max_message_size == state.max_message_size,
    decreases events.len(),
{
    if events.len() > 0 {
        lemma_step_keeps_wf(state, events[0]);
        lemma_run_keeps_wf(state.step(events[0]), events.drop_first());
    }
}

/// One event conserves the datagrams: what was sent by it, followed by what
/// is waiting after it, is what was waiting before it followed by what it
/// admitted.
pub proof fn lemma_step_conserves(state: EngineState, event: EventView)
    requires
        state.wf(),
    ensures
        echoed(state, event) + state.step(event).backlog() == state.backlog() + admitted(
            state,
            event,
        ),
{
    let next = state.step(event);
    assert(echoed(state, event) + next.backlog() =~= state.backlog() + admitted(state, event));
}

/// Echo fidelity over any sequence of events: the datagrams sent, followed
/// by the datagrams still waiting, are exactly the datagrams that were
/// waiting at the start followed by the datagrams admitted since, each with
/// the payload and the peer it arrived with and in the order of arrival.
/// No datagram is lost, repeated or changed once it was admitted.
pub proof fn lemma_run_conserves(state: EngineState, events: Seq<EventView>)
    requires
        state.wf(),
    ensures
        echoed_during(state, events) + run(state, events).backlog() == state.backlog()
            + admitted_during(state, events),
    decreases events.len(),
{
    if events.len() == 0 {
        assert(echoed_during(state, events) + run(state, events).backlog() =~= state.backlog()
            + admitted_during(state, events));
    } else {
        let next = state.step(events[0]);
        let rest = events.drop_first();
        lemma_step_keeps_wf(state, events[0]);
        lemma_step_conserves(state, events[0]);
        lemma_run_conserves(next, rest);
        let e0 = echoed(state, events[0]);
        let a0 = admitted(state, events[0]);
        assert(echoed_during(state, events) + run(state, events).backlog() =~= e0 + (
        echoed_during(next, rest) + run(next, rest).backlog()));
        assert(e0 + (next.backlog() + admitted_during(next, rest)) =~= (e0 + next.backlog())
            + admitted_during(next, rest));
        assert((state.backlog() + a0) + admitted_during(next, rest) =~= state.backlog()
            + admitted_during(state, events));
    }
}

/// Datagrams leave in the order in which they arrived: what was sent during
/// `events` is a prefix of what was waiting at the start followed by what
/// was admitted since.
pub proof fn lemma_echo_order(state: EngineState, events: Seq<EventView>)
    requires
        state.wf(),
    ensures
        echoed_during(state, events).is_prefix_of(
            state.backlog() + admitted_during(state, events),
        ),
{
    lemma_run_conserves(state, events);
    let sent = echoed_during(state, events);
    let all = state.backlog() + admitted_during(state, events);
    assert(all =~= sent + run(state, events).backlog());
    assert(sent =~= all.subrange(0, sent.len() as int));
}

/// First in, first out for every peer: the datagrams sent to `peer` during
/// `events` are a prefix of the datagrams from `peer` that were waiting at
/// the start or admitted since. Of two datagrams from one peer the earlier
/// one is never sent after the later one.
pub proof fn lemma_echo_order_per_peer(state: EngineState, events: Seq<EventView>, peer: PeerAddr)
    requires
        state.wf(),
    ensures
        from_peer(echoed_during(state, events), peer).is_prefix_of(
            from_peer(state.backlog() + admitted_during(state, events), peer),
        ),
{
    lemma_run_conserves(state, events);
    let sent = echoed_during(state, events);
    let left = run(state, events).backlog();
    let all = state.backlog() + admitted_during(state, events);
    let pred = |d: DatagramView| d.peer == peer;
    Seq::filter_distributes_over_add(sent, left, pred);
    assert(all == sent + left);
    assert(from_peer(all, peer) == from_peer(sent, peer) + from_peer(left, peer));
    assert(from_peer(sent, peer) =~= from_peer(all, peer).subrange(
        0,
        from_peer(sent, peer).len() as int,
    ));
}

/// Taking `first` and then `second` is taking the two in one sequence.
pub proof fn lemma_run_split(state: EngineState, first: Seq<EventView>, second: Seq<EventView>)
    ensures
        run(state, first + second) == run(run(state, first), second),
        echoed_during(state, first + second) == echoed_during(state, first) + echoed_during(
            run(state, first),
            second,
        ),
        admitted_during(state, first + second) == admitted_during(state, first) + admitted_during(
            run(state, first),
            second,
        ),
    decreases first.len(),
{
    if first.len() == 0 {
        assert(first + second =~= second);
        assert(echoed_during(state, first + second) =~= echoed_during(state, first)
            + echoed_during(run(state, first), second));
        assert(admitted_during(state, first + second) =~= admitted_during(state, first)
            + admitted_during(run(state, first), second));
    } else {
        let next = state.step(first[0]);
        assert((first + second)[0] == first[0]);
        assert((first + second).drop_first() =~= first.drop_first() + second);
        lemma_run_split(next, first.drop_first(), second);
        assert(echoed_during(state, first + second) =~= echoed_during(state, first)
            + echoed_during(run(state, first), second));
        assert(admitted_during(state, first + second) =~= admitted_during(state, first)
            + admitted_during(run(state, first), second));
    }
}

/// The mask an engine hands out with a wait always asks for read, and asks
/// for write exactly when its queue is not empty.
pub proof fn lemma_wait_mask(state: EngineState, event: EventView)
    ensures
        state.step(event).pending() matches Action::Wait(mask) ==> mask.read && (mask.write <==> 
            state.step(event).outgoing.len() > 0),
{
    let next = state.step(event);
    if next.pending() is Wait {
        assert(next.backlog() =~= next.outgoing);
    }
}

/// An engine goes back to waiting only when it can do nothing: after an
/// event that it took, it asks for a wait exactly when the source is not
/// held to be readable and either not held to be writable or without a
/// datagram to send. Otherwise it asks to be driven on at once.
pub proof fn lemma_waits_only_when_idle(state: EngineState, event: EventView)
    requires
        state.accepts(event),
        !(event is Failed),
    ensures
        state.step(event).pending() is Wait <==> !state.step(event).readable && (
        !state.step(event).writable || state.step(event).backlog().len() == 0),
        state.step(event).pending() is Receive <==> state.step(event).readable,
{
    let next = state.step(event);
    if next.phase is Waiting {
        assert(next.backlog() =~= next.outgoing);
    }
}

/// The events that report the arrival of `datagrams`, one after the other.
pub open spec fn receipts(datagrams: Seq<DatagramView>) -> Seq<EventView> {
    Seq::new(datagrams.len(), |i: int| EventView::Received(datagrams[i]))
}

/// The events of `count` transmissions that all succeed.
pub open spec fn sends(count: nat) -> Seq<EventView> {
    Seq::new(count, |i: int| EventView::Transmitted)
}

/// The events of `count` wake-ups for writing, each followed by a
/// transmission that succeeds.
pub open spec fn write_turns(count: nat) -> Seq<EventView>
    decreases count,
{
    if count == 0 {
        Seq::empty()
    } else {
        seq![
            EventView::Ready(Readiness { readable: false, writable: true }),
            EventView::Transmitted,
        ] + write_turns((count - 1) as nat)
    }
}

/// The number of datagrams of a burst of `offered` that a queue with
/// `waiting` of `capacity` places taken admits.
pub open spec fn admitted_count(capacity: nat, waiting: nat, offered: nat) -> nat {
    if waiting + offered <= capacity {
        offered
    } else if waiting <= capacity {
        (capacity - waiting) as nat
    } else {
        0
    }
}

/// Under edge triggering one notification is enough for any burst: an
/// engine that asks for a receive keeps asking for the next one after every
/// datagram it is given, however many arrive, until a receive would block.
/// Of the burst it admits the first datagrams, as many as the queue has
/// room for, in order, and drops the rest.
pub proof fn lemma_edge_reads_all(state: EngineState, datagrams: Seq<DatagramView>)
    requires
        state.wf(),
        state.mode is Edge,
        !state.halted,
        state.phase is Receiving,
        forall|i: int|
            0 <= i < datagrams.len() ==> (#[trigger] datagrams[i]).payload.len()
                <= state.max_message_size,
    ensures
        run(state, receipts(datagrams)).pending() == Action::Receive,
        admitted_during(state, receipts(datagrams)) == datagrams.take(
            admitted_count(state.capacity, state.outgoing.len(), datagrams.len()) as int,
        ),
        run(state, receipts(datagrams)).outgoing == state.outgoing + datagrams.take(
            admitted_count(state.capacity, state.outgoing.len(), datagrams.len()) as int,
        ),
    decreases datagrams.len(),
{
    let events = receipts(datagrams);
    let count = admitted_count(state.capacity, state.outgoing.len(), datagrams.len());
    if datagrams.len() == 0 {
        assert(admitted_during(state, events) =~= datagrams.take(count as int));
        assert(run(state, events).outgoing =~= state.outgoing + datagrams.take(count as int));
    } else {
        let next = state.step(events[0]);
        let rest = datagrams.drop_first();
        assert(events[0] == EventView::Received(datagrams[0]));
        assert(events.drop_first() =~= receipts(rest));
        assert(state.accepts(events[0]));
        lemma_step_keeps_wf(state, events[0]);
        assert forall|i: int| 0 <= i < rest.len() implies (#[trigger] rest[i]).payload.len()
            <= next.max_message_size by {
            assert(rest[i] == datagrams[i + 1]);
        }
        lemma_edge_reads_all(next, rest);
        let rest_count = admitted_count(next.capacity, next.outgoing.len(), rest.len());
        assert(admitted_during(state, events) =~= datagrams.take(count as int));
        assert(run(state, events).outgoing =~= state.outgoing + datagrams.take(count as int));
    }
}

/// Under edge triggering an engine that is sending, on a source that takes
/// every datagram, sends its whole backlog in order without a wait in
/// between, and then waits for read alone.
pub proof fn lemma_edge_drains(state: EngineState)
    requires
        state.wf(),
        state.mode is Edge,
        !state.halted,
        state.phase is Transmitting,
        state.writable,
        !state.readable,
    ensures
        echoed_during(state, sends(state.backlog().len())) == state.backlog(),
        run(state, sends(state.backlog().len())).backlog() == Seq::<DatagramView>::empty(),
        run(state, sends(state.backlog().len())).pending() == Action::Wait(
            Interest { read: true, write: false },
        ),
    decreases state.outgoing.len(),
{
    let count = state.backlog().len();
    let events = sends(count);
    let next = state.step(events[0]);
    assert(count == state.outgoing.len() + 1);
    assert(events.drop_first() =~= sends(state.outgoing.len()));
    assert(state.accepts(events[0]));
    lemma_step_keeps_wf(state, events[0]);
    assert(echoed(state, events[0]) == state.in_flight());
    assert(echoed_during(state, events) == echoed(state, events[0]) + echoed_during(
        next,
        events.drop_first(),
    ));
    if state.outgoing.len() == 0 {
        assert(next.backlog() =~= Seq::<DatagramView>::empty());
        assert(run(next, events.drop_first()) == next);
        assert(echoed_during(next, events.drop_first()) =~= Seq::<DatagramView>::empty());
        assert(echoed_during(state, events) =~= state.backlog());
    } else {
        assert(next.backlog() =~= state.outgoing);
        assert(next.backlog().len() == state.outgoing.len());
        lemma_edge_drains(next);
        assert(echoed_during(state, events) =~= state.backlog());
    }
}

/// Under level triggering an engine sends one datagram for every wake-up
/// that reports the source writable: after as many such turns as datagrams
/// are waiting, all of them were sent, in order, and the engine waits for
/// read alone.
pub proof fn lemma_level_drains(state: EngineState)
    requires
        state.wf(),
        state.mode is Level,
        !state.halted,
        state.phase is Waiting,
    ensures
        echoed_during(state, write_turns(state.outgoing.len())) == state.outgoing,
        run(state, write_turns(state.outgoing.len())).backlog() == Seq::<DatagramView>::empty(),
        run(state, write_turns(state.outgoing.len())).pending() == Action::Wait(
            Interest { read: true, write: false },
        ),
    decreases state.outgoing.len(),
{
    let count = state.outgoing.len();
    let events = write_turns(count);
    if count == 0 {
        assert(state.backlog() =~= Seq::<DatagramView>::empty());
        assert(echoed_during(state, events) =~= state.outgoing);
    } else {
        let wake = EventView::Ready(Readiness { readable: false, writable: true });
        let turn = seq![wake, EventView::Transmitted];
        let woken = state.step(wake);
        let next = woken.step(EventView::Transmitted);
        assert(events == turn + write_turns((count - 1) as nat));
        assert(turn.drop_first() =~= seq![EventView::Transmitted]);
        assert(turn.drop_first().drop_first() =~= Seq::<EventView>::empty());
        assert(state.accepts(wake));
        assert(woken.accepts(EventView::Transmitted));
        lemma_step_keeps_wf(state, wake);
        lemma_step_keeps_wf(woken, EventView::Transmitted);
        assert(run(state, turn) == next) by {
            assert(run(state, turn) == run(woken, turn.drop_first()));
            assert(run(woken, turn.drop_first()) == run(next, turn.drop_first().drop_first()));
        }
        assert(echoed_during(state, turn) =~= seq![state.outgoing[0]]) by {
            assert(echoed_during(state, turn) == echoed(state, wake) + echoed_during(
                woken,
                turn.drop_first(),
            ));
            assert(echoed_during(woken, turn.drop_first()) == echoed(
                woken,
                EventView::Transmitted,
            ) + echoed_during(next, turn.drop_first().drop_first()));
        }
        assert(next.outgoing =~= state.outgoing.drop_first());
        lemma_run_split(state, turn, write_turns((count - 1) as nat));
        lemma_level_drains(next);
        assert(echoed_during(state, events) =~= state.outgoing);
    }
}

/// A transmit that would block is undone: the datagram in flight is at the
/// front of the queue again, everything that waited follows it in the order
/// it had, and the engine, which no longer holds the source to be writable,
/// asks for write interest with its next wait.
pub proof fn lemma_would_block_requeues(state: EngineState)
    requires
        state.wf(),
        !state.halted,
        state.phase is Transmitting,
    ensures
        state.step(EventView::TransmitWouldBlock).outgoing == state.backlog(),
        state.step(EventView::TransmitWouldBlock).outgoing[0] == state.phase->Transmitting_0,
        forall|i: int|
            0 <= i < state.outgoing.len() ==> state.step(EventView::TransmitWouldBlock).outgoing[i
                + 1] == state.outgoing[i],
        state.step(EventView::TransmitWouldBlock).backlog() == state.backlog(),
        !state.step(EventView::TransmitWouldBlock).writable,
        !state.readable ==> state.step(EventView::TransmitWouldBlock).pending() == Action::Wait(
            Interest { read: true, write: true },
        ),
{
    let next = state.step(EventView::TransmitWouldBlock);
    assert(next.outgoing =~= state.backlog());
    assert(next.backlog() =~= state.backlog());
}

/// Echo fidelity under edge triggering. A datagram that fits the message
/// size and arrives at a waiting engine whose queue has room is sent back
/// with the payload and the peer it came with, after the datagrams that
/// waited before it, once the source takes what is sent: the wake-up, the
/// datagram, the end of reading and one successful transmission for every
/// datagram that waits leave the engine with all of them sent in order,
/// nothing queued, and waiting for read alone.
pub proof fn lemma_echo_fidelity_edge(state: EngineState, datagram: DatagramView)
    requires
        state.wf(),
        state.mode is Edge,
        !state.halted,
        state.phase is Waiting,
        datagram.payload.len() <= state.max_message_size,
        has_room(state.outgoing, state.capacity),
    ensures
        ({
            let events = seq![
                EventView::Ready(Readiness { readable: true, writable: false }),
                EventView::Received(datagram),
                EventView::ReceiveWouldBlock,
            ] + sends(state.outgoing.len() + 1);
            &&& echoed_during(state, events) == state.outgoing.push(datagram)
            &&& run(state, events).backlog() == Seq::<DatagramView>::empty()
            &&& run(state, events).pending() == Action::Wait(Interest { read: true, write: false })
        }),
{
    let wake = EventView::Ready(Readiness { readable: true, writable: false });
    let arrival = EventView::Received(datagram);
    let dry = EventView::ReceiveWouldBlock;
    let head = seq![wake, arrival, dry];
    let tail = sends(state.outgoing.len() + 1);
    let woken = state.step(wake);
    let fed = woken.step(arrival);
    let sending = fed.step(dry);
    assert(state.accepts(wake));
    lemma_step_keeps_wf(state, wake);
    assert(woken.accepts(arrival));
    lemma_step_keeps_wf(woken, arrival);
    assert(fed.accepts(dry));
    lemma_step_keeps_wf(fed, dry);
    assert(fed.outgoing == state.outgoing.push(datagram));
    assert(sending.backlog() =~= state.outgoing.push(datagram));
    let one = head.drop_first();
    let two = one.drop_first();
    assert(one =~= seq![arrival, dry]);
    assert(two =~= seq![dry]);
    assert(two.drop_first() =~= Seq::<EventView>::empty());
    assert(run(state, head) == sending) by {
        assert(run(state, head) == run(woken, one));
        assert(run(woken, one) == run(fed, two));
        assert(run(fed, two) == run(sending, two.drop_first()));
    }
    assert(echoed_during(state, head) =~= Seq::<DatagramView>::empty()) by {
        assert(echoed_during(state, head) == echoed(state, wake) + echoed_during(woken, one));
        assert(echoed_during(woken, one) == echoed(woken, arrival) + echoed_during(fed, two));
        assert(echoed_during(fed, two) == echoed(fed, dry) + echoed_during(
            sending,
            two.drop_first(),
        ));
    }
    lemma_run_split(state, head, tail);
    lemma_edge_drains(sending);
    assert(echoed_during(state, head + tail) =~= state.outgoing.push(datagram));
}

/// Echo fidelity under level triggering. A datagram that fits the message
/// size and arrives at a waiting engine whose queue has room is sent back
/// with the payload and the peer it came with, after the datagrams that
/// waited before it: the wake-up for reading, the datagram, and one
/// wake-up for writing with a successful transmission for every datagram
/// that waits leave the engine with all of them sent in order, nothing
/// queued, and waiting for read alone.
pub proof fn lemma_echo_fidelity_level(state: EngineState, datagram: DatagramView)
    requires
        state.wf(),
        state.mode is Level,
        !state.halted,
        state.phase is Waiting,
        datagram.payload.len() <= state.max_message_size,
        has_room(state.outgoing, state.capacity),
    ensures
        ({
            let events = seq![
                EventView::Ready(Readiness { readable: true, writable: false }),
                EventView::Received(datagram),
            ] + write_turns(state.outgoing.len() + 1);
            &&& echoed_during(state, events) == state.outgoing.push(datagram)
            &&& run(state, events).backlog() == Seq::<DatagramView>::empty()
            &&& run(state, events).pending() == Action::Wait(Interest { read: true, write: false })
        }),
{
    let wake = EventView::Ready(Readiness { readable: true, writable: false });
    let arrival = EventView::Received(datagram);
    let head = seq![wake, arrival];
    let tail = write_turns(state.outgoing.len() + 1);
    let woken = state.step(wake);
    let fed = woken.step(arrival);
    assert(state.accepts(wake));
    lemma_step_keeps_wf(state, wake);
    assert(woken.accepts(arrival));
    lemma_step_keeps_wf(woken, arrival);
    assert(fed.outgoing == state.outgoing.push(datagram));
    let one = head.drop_first();
    assert(one =~= seq![arrival]);
    assert(one.drop_first() =~= Seq::<EventView>::empty());
    assert(run(state, head) == fed) by {
        assert(run(state, head) == run(woken, one));
        assert(run(woken, one) == run(fed, one.drop_first()));
    }
    assert(echoed_during(state, head) =~= Seq::<DatagramView>::empty()) by {
        assert(echoed_during(state, head) == echoed(state, wake) + echoed_during(woken, one));
        assert(echoed_during(woken, one) == echoed(woken, arrival) + echoed_during(
            fed,
            one.drop_first(),
        ));
    }
    lemma_run_split(state, head, tail);
    lemma_level_drains(fed);
    assert(echoed_during(state, head + tail) =~= state.outgoing.push(datagram));
}

} // verus!
