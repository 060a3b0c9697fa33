//! The echo engine of one source.
//!
//! An engine never touches a socket. It is told what happened (an
//! [`Event`]) and answers with what to do next (an [`Action`]); the caller
//! performs the action and reports its outcome as the next event. The
//! engine owns the queue of outgoing datagrams and the readable and
//! writable flags of its source, and decides by itself whether it has to
//! be driven on or may return to the poller.
//!
//! Events and actions are the vocabulary of every kind of source; the two
//! that speak of a signal belong to signal sources, and an engine refuses
//! the one and never asks for the other.

use crate::config::Config;
use crate::datagram::{Datagram, DatagramView};
use crate::interest::{Interest, Readiness, TriggerMode};
use crate::queue::{dequeued, enqueued, has_room, Admission, OutgoingQueue};
use vstd::prelude::*;

verus! {

/// What the caller reports to the engine.
#[derive(Debug)]
pub enum Event {
    /// The wait returned with these flags for the source.
    Ready(Readiness),
    /// The receive delivered a datagram.
    Received(Datagram),
    /// The receive found nothing to read.
    ReceiveWouldBlock,
    /// The datagram in flight was sent.
    Transmitted,
    /// The socket took no data; the datagram in flight was not sent.
    TransmitWouldBlock,
    /// The readiness of the signal was cleared.
    SignalCleared,
    /// The operation that was asked for failed for good.
    Failed,
}

/// The mathematical value of an [`Event`].
pub enum EventView {
    Ready(Readiness),
    Received(DatagramView),
    ReceiveWouldBlock,
    Transmitted,
    TransmitWouldBlock,
    SignalCleared,
    Failed,
}

impl View for Event {
    type V = EventView;

    open spec fn view(&self) -> EventView {
        match *self {
            Event::Ready(readiness) => EventView::Ready(readiness),
            Event::Received(datagram) => EventView::Received(datagram@),
            Event::ReceiveWouldBlock => EventView::ReceiveWouldBlock,
            Event::Transmitted => EventView::Transmitted,
            Event::TransmitWouldBlock => EventView::TransmitWouldBlock,
            Event::SignalCleared => EventView::SignalCleared,
            Event::Failed => EventView::Failed,
        }
    }
}

/// What the engine asks of its caller.
#[derive(Clone, Copy, Debug, PartialEq, Eq, Structural)]
pub enum Action {
    /// Attempt one receive and report how it went.
    Receive,
    /// Attempt to send the datagram in flight to its peer and report how it
    /// went.
    Transmit,
    /// Take note of the signal, clear its readiness and report that this
    /// was done.
    ClearSignal,
    /// Nothing can be done now: register this mask and report the flags of
    /// the next wait.
    Wait(Interest),
    /// An operation failed for good; the source does no further work.
    Halt,
}

/// Why a source refused an event. A refused event changes nothing.
#[derive(Clone, Copy, Debug, PartialEq, Eq, Structural)]
pub enum Refusal {
    /// The source has halted, or has completed, and takes no more events.
    Halted,
    /// The event does not answer the action the source asked for.
    UnexpectedEvent,
    /// The datagram is longer than the configured message size.
    PayloadTooLarge,
}

/// Where an engine stands between two events.
pub enum Phase {
    /// It asked for a wait.
    Waiting,
    /// It asked for a receive.
    Receiving,
    /// It asked for the transmission of this datagram, which it took from
    /// the front of its queue.
    Transmitting(DatagramView),
}

/// The mathematical state of an engine.
pub struct EngineState {
    pub mode: TriggerMode,
    pub max_message_size: nat,
    pub capacity: nat,
    /// The source may have something to read.
    pub readable: bool,
    /// The source may take something to write.
    pub writable: bool,
    /// The datagrams waiting for transmission, oldest first.
    pub outgoing: Seq<DatagramView>,
    pub phase: Phase,
    pub halted: bool,
}

impl EngineState {
    /// The queue is within its capacity, while a datagram is in flight the
    /// slot it left is kept free, and a receive is only asked for on a
    /// source that is held to be readable.
    pub open spec fn wf(self) -> bool {
        &&& self.outgoing.len() <= self.capacity
        &&& self.phase is Transmitting ==> self.outgoing.len() < self.capacity
        &&& self.phase is Receiving ==> self.readable
    }

    /// The state of a new engine: no flag set, nothing queued, waiting for
    /// the first wake-up.
    pub open spec fn initial(mode: TriggerMode, max_message_size: nat, capacity: nat) -> EngineState {
        EngineState {
            mode,
            max_message_size,
            capacity,
            readable: false,
            writable: false,
            outgoing: Seq::empty(),
            phase: Phase::Waiting,
            halted: false,
        }
    }

    /// The datagram in flight, if any, as a sequence.
    pub open spec fn in_flight(self) -> Seq<DatagramView> {
        match self.phase {
            Phase::Transmitting(datagram) => seq![datagram],
            _ => Seq::empty(),
        }
    }

    /// Every datagram that was admitted and not sent yet, in the order in
    /// which they will leave: the one in flight, then the queue.
    pub open spec fn backlog(self) -> Seq<DatagramView> {
        self.in_flight() + self.outgoing
    }

    /// The mask the source needs: always read, and write exactly while a
    /// reply is waiting.
    pub open spec fn interest(self) -> Interest {
        Interest::for_backlog(self.backlog().len())
    }

    /// The action the engine is waiting to hear about.
    pub open spec fn pending(self) -> Action {
        if self.halted {
            Action::Halt
        } else {
            match self.phase {
                Phase::Waiting => Action::Wait(self.interest()),
                Phase::Receiving => Action::Receive,
                Phase::Transmitting(_) => Action::Transmit,
            }
        }
    }

    /// Why `event` is refused in this state, or `None` where it is taken.
    /// A halted engine takes nothing; otherwise the event must answer the
    /// pending action, and a received datagram must fit the message size.
    /// A failure answers every action: the wait can fail as a receive or a
    /// transmit can.
    pub open spec fn refusal(self, event: EventView) -> Option<Refusal> {
        if self.halted {
            Some(Refusal::Halted)
        } else {
            match event {
                EventView::Ready(_) => if self.phase is Waiting {
                    None
                } else {
                    Some(Refusal::UnexpectedEvent)
                },
                EventView::Received(datagram) => if !(self.phase is Receiving) {
                    Some(Refusal::UnexpectedEvent)
                } else if datagram.payload.len() > self.max_message_size {
                    Some(Refusal::PayloadTooLarge)
                } else {
                    None
                },
                EventView::ReceiveWouldBlock => if self.phase is Receiving {
                    None
                } else {
                    Some(Refusal::UnexpectedEvent)
                },
                EventView::Transmitted | EventView::TransmitWouldBlock => if self.phase
                    is Transmitting {
                    None
                } else {
                    Some(Refusal::UnexpectedEvent)
                },
                EventView::SignalCleared => Some(Refusal::UnexpectedEvent),
                EventView::Failed => None,
            }
        }
    }

    /// True when `event` is taken in this state.
    pub open spec fn accepts(self, event: EventView) -> bool {
        self.refusal(event) is None
    }

    /// The state once the outcome that `event` reports is taken in, before
    /// the next action is chosen.
    ///
    /// A wake-up replaces both flags by the reported ones. A received
    /// datagram is offered to the queue; under edge triggering an admitted
    /// datagram also makes the engine try to write. An attempt that would
    /// block clears its flag, and a datagram that could not be sent goes back
    /// to the front of the queue. Under level triggering one attempt uses up
    /// the notification, so the flag is cleared after a success too.
    pub open spec fn absorb(self, event: EventView) -> EngineState {
        match event {
            EventView::Ready(readiness) => EngineState {
                readable: readiness.readable,
                writable: readiness.writable,
                phase: Phase::Waiting,
                ..self
            },
            EventView::Received(datagram) => EngineState {
                outgoing: enqueued(self.outgoing, self.capacity, datagram),
                readable: self.readable && self.mode is Edge,
                writable: self.writable || (self.mode is Edge && has_room(
                    self.outgoing,
                    self.capacity,
                )),
                phase: Phase::Waiting,
                ..self
            },
            EventView::ReceiveWouldBlock => EngineState {
                readable: false,
                phase: Phase::Waiting,
                ..self
            },
            EventView::Transmitted => EngineState {
                writable: self.writable && self.mode is Edge,
                phase: Phase::Waiting,
                ..self
            },
            EventView::TransmitWouldBlock => EngineState {
                outgoing: self.in_flight() + self.outgoing,
                writable: false,
                phase: Phase::Waiting,
                ..self
            },
            EventView::SignalCleared => self,
            EventView::Failed => EngineState { halted: true, ..self },
        }
    }

    /// The state once the next action is chosen: receive while the source is
    /// readable; else, while it is writable and a datagram waits, take the
    /// oldest one out and transmit it; else wait.
    pub open spec fn decide(self) -> EngineState {
        if self.readable {
            EngineState { phase: Phase::Receiving, ..self }
        } else if self.writable && self.outgoing.len() > 0 {
            EngineState {
                phase: Phase::Transmitting(self.outgoing[0]),
                outgoing: dequeued(self.outgoing),
                ..self
            }
        } else {
            EngineState { phase: Phase::Waiting, ..self }
        }
    }

    /// The state after `event`. A refused event changes nothing, a failure
    /// halts the engine where it stands, and every other event is taken in
    /// and followed by the choice of the next action.
    pub open spec fn step(self, event: EventView) -> EngineState {
        if !self.accepts(event) {
            self
        } else if event is Failed {
            self.absorb(event)
        } else {
            self.absorb(event).decide()
        }
    }
}

/// The engine's place between two events, with the datagram in flight.
#[derive(Debug)]
enum Stage {
    Waiting,
    Receiving,
    Transmitting(Datagram),
}

/// The echo engine of one source.
#[derive(Debug)]
pub struct Engine {
    mode: TriggerMode,
    max_message_size: usize,
    readable: bool,
    writable: bool,
    outgoing: OutgoingQueue,
    stage: Stage,
    halted: bool,
}

impl View for Engine {
    type V = EngineState;

    closed spec fn view(&self) -> EngineState {
        EngineState {
            mode: self.mode,
            max_message_size: self.max_message_size as nat,
            capacity: self.outgoing.spec_capacity(),
            readable: self.readable,
            writable: self.writable,
            outgoing: self.outgoing@,
            phase: match self.stage {
                Stage::Waiting => Phase::Waiting,
                Stage::Receiving => Phase::Receiving,
                Stage::Transmitting(datagram) => Phase::Transmitting(datagram@),
            },
            halted: self.halted,
        }
    }
}

impl Engine {
    /// The engine's state is well formed.
    pub closed spec fn wf(&self) -> bool {
        &&& self.outgoing.wf()
        &&& self@.wf()
    }

    /// The state of a well-formed engine is well formed.
    pub proof fn lemma_wf(&self)
        requires
            self.wf(),
        ensures
            self@.wf(),
    {
    }

    /// A new engine for a source polled in the given mode, with the queue
    /// capacity and the message size of `config`.
    pub fn new(mode: TriggerMode, config: &Config) -> (engine: Engine)
        ensures
            engine.wf(),
            engine@.wf(),
            engine@ == EngineState::initial(
                mode,
                config.max_message_size as nat,
                config.max_outgoing_messages as nat,
            ),
    {
        Engine {
            mode,
            max_message_size: config.max_message_size,
            readable: false,
            writable: false,
            outgoing: OutgoingQueue::new(config.max_outgoing_messages),
            stage: Stage::Waiting,
            halted: false,
        }
    }

    /// Says whether `event` would be refused now, and why, without taking
    /// it.
    pub fn refusal_of(&self, event: &Event) -> (refusal: Option<Refusal>)
        ensures
            refusal == self@.refusal(event@),
    {
        if self.halted {
            return Some(Refusal::Halted);
        }
        let fits = match event {
            Event::Ready(_) => self.is_waiting(),
            Event::Received(datagram) => {
                if self.is_receiving() && datagram.len() > self.max_message_size {
                    return Some(Refusal::PayloadTooLarge);
                }
                self.is_receiving()
            },
            Event::ReceiveWouldBlock => self.is_receiving(),
            Event::Transmitted => self.is_transmitting(),
            Event::TransmitWouldBlock => self.is_transmitting(),
            Event::SignalCleared => false,
            Event::Failed => true,
        };
        if fits {
            None
        } else {
            Some(Refusal::UnexpectedEvent)
        }
    }

    /// Takes in `event` and answers with the next action.
    ///
    /// The event is refused, and nothing changes, when the engine has
    /// halted, when the event does not answer the pending action, or when a
    /// received datagram exceeds the message size. Otherwise the engine
    /// moves to `old(self)@.step(event@)` and returns the action it now
    /// waits for.
    pub fn step(&mut self, event: Event) -> (outcome: Result<Action, Refusal>)
        requires
            old(self).wf(),
        ensures
            final(self).wf(),
            final(self)@.wf(),
            final(self)@ == old(self)@.step(event@),
            match outcome {
                Ok(action) => old(self)@.accepts(event@) && action == final(self)@.pending(),
                Err(refusal) => old(self)@.refusal(event@) == Some(refusal),
            },
    {
        if self.halted {
            return Err(Refusal::Halted);
        }
        match event {
            Event::Ready(readiness) => {
                if !self.is_waiting() {
                    return Err(Refusal::UnexpectedEvent);
                }
                self.readable = readiness.readable;
                self.writable = readiness.writable;
            },
            Event::Received(datagram) => {
                if !self.is_receiving() {
                    return Err(Refusal::UnexpectedEvent);
                }
                if datagram.len() > self.max_message_size {
                    return Err(Refusal::PayloadTooLarge);
                }
                let admission = self.outgoing.enqueue(datagram);
                match self.mode {
                    TriggerMode::Edge => {
                        if admission == Admission::Admitted {
                            self.writable = true;
                        }
                    },
                    TriggerMode::Level => {
                        self.readable = false;
                    },
                }
                self.stage = Stage::Waiting;
            },
            Event::ReceiveWouldBlock => {
                if !self.is_receiving() {
                    return Err(Refusal::UnexpectedEvent);
                }
                self.readable = false;
                self.stage = Stage::Waiting;
            },
            Event::Transmitted => {
                if !self.is_transmitting() {
                    return Err(Refusal::UnexpectedEvent);
                }
                match self.mode {
                    TriggerMode::Edge => {},
                    TriggerMode::Level => {
                        self.writable = false;
                    },
                }
                self.stage = Stage::Waiting;
            },
            Event::TransmitWouldBlock => {
                let mut stage = Stage::Waiting;
                core::mem::swap(&mut self.stage, &mut stage);
                match stage {
                    Stage::Transmitting(datagram) => {
                        self.outgoing.requeue_front(datagram);
                        self.writable = false;
                    },
                    other => {
                        self.stage = other;
                        return Err(Refusal::UnexpectedEvent);
                    },
                }
            },
            Event::SignalCleared => {
                return Err(Refusal::UnexpectedEvent);
            },
            Event::Failed => {
                self.halted = true;
                return Ok(Action::Halt);
            },
        }
        Ok(self.decide())
    }

    /// Chooses the next action of an engine that has just taken in an event.
    fn decide(&mut self) -> (action: Action)
        requires
            old(self).wf(),
            old(self)@.phase is Waiting,
            !old(self)@.halted,
        ensures
            final(self).wf(),
            final(self)@ == old(self)@.decide(),
            action == final(self)@.pending(),
    {
        if self.readable {
            self.stage = Stage::Receiving;
            Action::Receive
        } else if self.writable {
            match self.outgoing.dequeue_front() {
                Some(datagram) => {
                    self.stage = Stage::Transmitting(datagram);
                    Action::Transmit
                },
                None => Action::Wait(Interest::read_only()),
            }
        } else {
            Action::Wait(Interest::desired(self.outgoing.len()))
        }
    }

    fn is_waiting(&self) -> (yes: bool)
        ensures
            yes == (self@.phase is Waiting),
    {
        match &self.stage {
            Stage::Waiting => true,
            _ => false,
        }
    }

    fn is_receiving(&self) -> (yes: bool)
        ensures
            yes == (self@.phase is Receiving),
    {
        match &self.stage {
            Stage::Receiving => true,
            _ => false,
        }
    }

    fn is_transmitting(&self) -> (yes: bool)
        ensures
            yes == (self@.phase is Transmitting),
    {
        match &self.stage {
            Stage::Transmitting(_) => true,
            _ => false,
        }
    }

    /// The action the engine is waiting to hear about.
    pub fn pending(&self) -> (action: Action)
        ensures
            action == self@.pending(),
    {
        if self.halted {
            Action::Halt
        } else {
            match &self.stage {
                Stage::Waiting => Action::Wait(Interest::desired(self.outgoing.len())),
                Stage::Receiving => Action::Receive,
                Stage::Transmitting(_) => Action::Transmit,
            }
        }
    }

    /// The mask to register for the source before the next wait.
    pub fn interest(&self) -> (mask: Interest)
        ensures
            mask == self@.interest(),
            mask.read,
            mask.write == (self@.backlog().len() > 0),
    {
        match &self.stage {
            Stage::Transmitting(_) => Interest::read_write(),
            _ => Interest::desired(self.outgoing.len()),
        }
    }

    /// The datagram to send while the engine asks for a transmit.
    pub fn in_flight(&self) -> (datagram: Option<&Datagram>)
        ensures
            match datagram {
                Some(d) => self@.phase == Phase::Transmitting(d@),
                None => !(self@.phase is Transmitting),
            },
    {
        match &self.stage {
            Stage::Transmitting(datagram) => Some(datagram),
            _ => None,
        }
    }

    /// True when a datagram received now would be admitted to the queue
    /// rather than dropped.
    pub fn has_room(&self) -> (room: bool)
        ensures
            room == has_room(self@.outgoing, self@.capacity),
    {
        !self.outgoing.is_full()
    }

    /// The number of datagrams in the queue, not counting one in flight.
    pub fn queued(&self) -> (n: usize)
        ensures
            n == self@.outgoing.len(),
            self.wf() ==> n <= self@.capacity,
    {
        self.outgoing.len()
    }

    /// The triggering mode the engine was made for.
    pub fn mode(&self) -> (mode: TriggerMode)
        ensures
            mode == self@.mode,
    {
        self.mode
    }

    /// True once an operation has failed for good.
    pub fn is_halted(&self) -> (halted: bool)
        ensures
            halted == self@.halted,
    {
        self.halted
    }
}

} // verus!
