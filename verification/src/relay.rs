//! A reader and a writer that pass datagrams through a bounded channel.
//!
//! The two halves are polled in turn by a cooperative scheduler. The reader
//! takes datagrams from the socket and offers them to the channel; the
//! writer takes them from the channel and sends them back. Neither half
//! touches the socket or the channel: each is told what happened and
//! answers with what to do next, or with how the poll ends. A full channel
//! does not cost a datagram here: the reader holds on to what was refused
//! and receives nothing more until the channel has taken it.

use crate::config::Config;
use crate::datagram::{Datagram, DatagramView};
use crate::engine::Refusal;
use vstd::prelude::*;

verus! {

/// What the caller reports to a [`Reader`].
#[derive(Debug)]
pub enum ReaderEvent {
    /// The scheduler polls the reader.
    Polled,
    /// The channel has flushed what was sent into it.
    Flushed,
    /// The channel has not finished flushing.
    FlushPending,
    /// The channel took the datagram that was offered.
    Accepted,
    /// The channel is full and hands the offered datagram back.
    Refused(Datagram),
    /// The receive delivered a datagram.
    Received(Datagram),
    /// The receive found nothing to read.
    ReceiveWouldBlock,
    /// The socket or the channel failed for good.
    Failed,
}

/// The mathematical value of a [`ReaderEvent`].
pub enum ReaderEventView {
    Polled,
    Flushed,
    FlushPending,
    Accepted,
    Refused(DatagramView),
    Received(DatagramView),
    ReceiveWouldBlock,
    Failed,
}

impl View for ReaderEvent {
    type V = ReaderEventView;

    open spec fn view(&self) -> ReaderEventView {
        match *self {
            ReaderEvent::Polled => ReaderEventView::Polled,
            ReaderEvent::Flushed => ReaderEventView::Flushed,
            ReaderEvent::FlushPending => ReaderEventView::FlushPending,
            ReaderEvent::Accepted => ReaderEventView::Accepted,
            ReaderEvent::Refused(datagram) => ReaderEventView::Refused(datagram@),
            ReaderEvent::Received(datagram) => ReaderEventView::Received(datagram@),
            ReaderEvent::ReceiveWouldBlock => ReaderEventView::ReceiveWouldBlock,
            ReaderEvent::Failed => ReaderEventView::Failed,
        }
    }
}

/// What a [`Reader`] asks of its caller.
#[derive(Debug, PartialEq, Eq)]
pub enum ReaderAction {
    /// Ask the channel to flush and report how far it got.
    Flush,
    /// Offer this datagram to the channel and report whether it was taken.
    Offer(Datagram),
    /// Attempt one receive and report how it went.
    Receive,
    /// End the poll unfinished. With `notify` the reader wants to be polled
    /// again at once; without it, when the socket or the channel wakes it.
    Yield { notify: bool },
    /// End the poll with the failure.
    Fail,
}

/// The mathematical value of a [`ReaderAction`].
pub enum ReaderActionView {
    Flush,
    Offer(DatagramView),
    Receive,
    Yield { notify: bool },
    Fail,
}

impl View for ReaderAction {
    type V = ReaderActionView;

    open spec fn view(&self) -> ReaderActionView {
        match *self {
            ReaderAction::Flush => ReaderActionView::Flush,
            ReaderAction::Offer(datagram) => ReaderActionView::Offer(datagram@),
            ReaderAction::Receive => ReaderActionView::Receive,
            ReaderAction::Yield { notify } => ReaderActionView::Yield { notify },
            ReaderAction::Fail => ReaderActionView::Fail,
        }
    }
}

/// Where a reader stands between two events.
pub enum ReaderPhase {
    /// Between two polls.
    Idle,
    /// It asked for a flush.
    Flushing,
    /// It offered this datagram to the channel.
    Offering(DatagramView),
    /// It asked for a receive.
    Receiving,
}

/// The mathematical state of a [`Reader`].
pub struct ReaderState {
    pub max_message_size: nat,
    /// The datagram that was received and not offered yet, or was refused.
    pub held: Option<DatagramView>,
    /// The channel took a datagram and has not been flushed since.
    pub unflushed: bool,
    pub phase: ReaderPhase,
    pub halted: bool,
}

impl ReaderState {
    /// The state of a new reader.
    pub open spec fn initial(max_message_size: nat) -> ReaderState {
        ReaderState {
            max_message_size,
            held: None,
            unflushed: false,
            phase: ReaderPhase::Idle,
            halted: false,
        }
    }

    /// Why `event` is refused in this state, or `None` where it is taken.
    pub open spec fn refusal(self, event: ReaderEventView) -> Option<Refusal> {
        if self.halted {
            Some(Refusal::Halted)
        } else {
            let fits = match event {
                ReaderEventView::Polled => self.phase is Idle,
                ReaderEventView::Flushed | ReaderEventView::FlushPending => self.phase is Flushing,
                ReaderEventView::Accepted | ReaderEventView::Refused(_) => self.phase is Offering,
                ReaderEventView::Received(_) | ReaderEventView::ReceiveWouldBlock => self.phase
                    is Receiving,
                ReaderEventView::Failed => !(self.phase is Idle),
            };
            if !fits {
                Some(Refusal::UnexpectedEvent)
            } else if event matches ReaderEventView::Received(datagram) && datagram.payload.len()
                > self.max_message_size {
                Some(Refusal::PayloadTooLarge)
            } else {
                None
            }
        }
    }

    /// True when `event` is taken in this state.
    pub open spec fn accepts(self, event: ReaderEventView) -> bool {
        self.refusal(event) is None
    }

    /// What a reader does once nothing is left to flush: it offers the
    /// datagram it holds, or, holding none, receives.
    pub open spec fn proceed(self) -> (ReaderState, ReaderActionView) {
        match self.held {
            Some(datagram) => (
                ReaderState { held: None, phase: ReaderPhase::Offering(datagram), ..self },
                ReaderActionView::Offer(datagram),
            ),
            None => (ReaderState { phase: ReaderPhase::Receiving, ..self }, ReaderActionView::Receive),
        }
    }

    /// The state after an event that is taken, and the action that answers
    /// it.
    ///
    /// A poll starts with the flush that is still owed, if any. An accepted
    /// datagram leaves a flush owed and ends the poll; so does a received
    /// one, which is held for the next poll. Both ask to be polled again at
    /// once. A refused datagram is held again, and whatever would block ends
    /// the poll to wait for a wake-up.
    pub open spec fn step(self, event: ReaderEventView) -> (ReaderState, ReaderActionView) {
        let idle = ReaderState { phase: ReaderPhase::Idle, ..self };
        match event {
            ReaderEventView::Polled => if self.unflushed {
                (ReaderState { phase: ReaderPhase::Flushing, ..self }, ReaderActionView::Flush)
            } else {
                self.proceed()
            },
            ReaderEventView::Flushed => (ReaderState { unflushed: false, ..self }).proceed(),
            ReaderEventView::FlushPending => (idle, ReaderActionView::Yield { notify: false }),
            ReaderEventView::Accepted => (
                ReaderState { unflushed: true, ..idle },
                ReaderActionView::Yield { notify: true },
            ),
            ReaderEventView::Refused(datagram) => (
                ReaderState { held: Some(datagram), ..idle },
                ReaderActionView::Yield { notify: false },
            ),
            ReaderEventView::Received(datagram) => (
                ReaderState { held: Some(datagram), ..idle },
                ReaderActionView::Yield { notify: true },
            ),
            ReaderEventView::ReceiveWouldBlock => (idle, ReaderActionView::Yield { notify: false }),
            ReaderEventView::Failed => (ReaderState { halted: true, ..self }, ReaderActionView::Fail),
        }
    }

    /// The datagram the reader is answerable for, as a sequence: the one it
    /// holds or the one it has offered.
    pub open spec fn in_hand(self) -> Seq<DatagramView> {
        match self.phase {
            ReaderPhase::Offering(datagram) => seq![datagram],
            _ => match self.held {
                Some(datagram) => seq![datagram],
                None => Seq::empty(),
            },
        }
    }
}

/// The reader's place between two events.
enum ReaderStage {
    Idle,
    Flushing,
    Offering(Ghost<DatagramView>),
    Receiving,
}

/// The half that reads from the socket and feeds the channel.
pub struct Reader {
    max_message_size: usize,
    held: Option<Datagram>,
    unflushed: bool,
    stage: ReaderStage,
    halted: bool,
}

impl View for Reader {
    type V = ReaderState;

    closed spec fn view(&self) -> ReaderState {
        ReaderState {
            max_message_size: self.max_message_size as nat,
            held: match self.held {
                Some(datagram) => Some(datagram@),
                None => None,
            },
            unflushed: self.unflushed,
            phase: match self.stage {
                ReaderStage::Idle => ReaderPhase::Idle,
                ReaderStage::Flushing => ReaderPhase::Flushing,
                ReaderStage::Offering(datagram) => ReaderPhase::Offering(datagram@),
                ReaderStage::Receiving => ReaderPhase::Receiving,
            },
            halted: self.halted,
        }
    }
}

impl Reader {
    /// A new reader for datagrams of at most `config.max_message_size`
    /// bytes.
    pub fn new(config: &Config) -> (reader: Reader)
        ensures
            reader@ == ReaderState::initial(config.max_message_size as nat),
    {
        Reader {
            max_message_size: config.max_message_size,
            held: None,
            unflushed: false,
            stage: ReaderStage::Idle,
            halted: false,
        }
    }

    /// Takes in `event` and answers with the next action.
    ///
    /// The event is refused, and nothing changes, when the reader has
    /// halted, when the event does not answer the pending action, or when a
    /// received datagram exceeds the message size.
    pub fn step(&mut self, event: ReaderEvent) -> (outcome: Result<ReaderAction, Refusal>)
        ensures
            match outcome {
                Ok(action) => old(self)@.accepts(event@) && (final(self)@, action@) == old(
                    self,
                )@.step(event@),
                Err(refusal) => old(self)@.refusal(event@) == Some(refusal) && final(self)@
                    == old(self)@,
            },
    {
        if self.halted {
            return Err(Refusal::Halted);
        }
        match event {
            ReaderEvent::Polled => {
                match &self.stage {
                    ReaderStage::Idle => {},
                    _ => {
                        return Err(Refusal::UnexpectedEvent);
                    },
                }
                if self.unflushed {
                    self.stage = ReaderStage::Flushing;
                    Ok(ReaderAction::Flush)
                } else {
                    Ok(self.proceed())
                }
            },
            ReaderEvent::Flushed => {
                match &self.stage {
                    ReaderStage::Flushing => {},
                    _ => {
                        return Err(Refusal::UnexpectedEvent);
                    },
                }
                self.unflushed = false;
                Ok(self.proceed())
            },
            ReaderEvent::FlushPending => {
                match &self.stage {
                    ReaderStage::Flushing => {},
                    _ => {
                        return Err(Refusal::UnexpectedEvent);
                    },
                }
                self.stage = ReaderStage::Idle;
                Ok(ReaderAction::Yield { notify: false })
            },
            ReaderEvent::Accepted => {
                match &self.stage {
                    ReaderStage::Offering(_) => {},
                    _ => {
                        return Err(Refusal::UnexpectedEvent);
                    },
                }
                self.unflushed = true;
                self.stage = ReaderStage::Idle;
                Ok(ReaderAction::Yield { notify: true })
            },
            ReaderEvent::Refused(datagram) => {
                match &self.stage {
                    ReaderStage::Offering(_) => {},
                    _ => {
                        return Err(Refusal::UnexpectedEvent);
                    },
                }
                self.held = Some(datagram);
                self.stage = ReaderStage::Idle;
                Ok(ReaderAction::Yield { notify: false })
            },
            ReaderEvent::Received(datagram) => {
                match &self.stage {
                    ReaderStage::Receiving => {},
                    _ => {
                        return Err(Refusal::UnexpectedEvent);
                    },
                }
                if datagram.len() > self.max_message_size {
                    return Err(Refusal::PayloadTooLarge);
                }
                self.held = Some(datagram);
                self.stage = ReaderStage::Idle;
                Ok(ReaderAction::Yield { notify: true })
            },
            ReaderEvent::ReceiveWouldBlock => {
                match &self.stage {
                    ReaderStage::Receiving => {},
                    _ => {
                        return Err(Refusal::UnexpectedEvent);
                    },
                }
                self.stage = ReaderStage::Idle;
                Ok(ReaderAction::Yield { notify: false })
            },
            ReaderEvent::Failed => {
                match &self.stage {
                    ReaderStage::Idle => {
                        return Err(Refusal::UnexpectedEvent);
                    },
                    _ => {},
                }
                self.halted = true;
                Ok(ReaderAction::Fail)
            },
        }
    }

    /// Offers the datagram that is held, or receives when none is.
    fn proceed(&mut self) -> (action: ReaderAction)
        ensures
            (final(self)@, action@) == old(self)@.proceed(),
    {
        match self.held.take() {
            Some(datagram) => {
                self.stage = ReaderStage::Offering(Ghost(datagram@));
                ReaderAction::Offer(datagram)
            },
            None => {
                self.stage = ReaderStage::Receiving;
                ReaderAction::Receive
            },
        }
    }

    /// True when the reader holds a datagram that the channel has not taken.
    pub fn is_holding(&self) -> (holding: bool)
        ensures
            holding == (self@.held is Some),
    {
        self.held.is_some()
    }

    /// True once the socket or the channel has failed for good.
    pub fn is_halted(&self) -> (halted: bool)
        ensures
            halted == self@.halted,
    {
        self.halted
    }
}

/// What the caller reports to a [`Writer`].
#[derive(Debug)]
pub enum WriterEvent {
    /// The scheduler polls the writer.
    Polled,
    /// The datagram that is held was sent.
    Transmitted,
    /// The socket took no data; the datagram that is held was not sent.
    TransmitWouldBlock,
    /// The channel delivered a datagram.
    Took(Datagram),
    /// The channel holds nothing now.
    ChannelEmpty,
    /// The channel is closed and drained.
    ChannelClosed,
    /// The socket or the channel failed for good.
    Failed,
}

/// The mathematical value of a [`WriterEvent`].
pub enum WriterEventView {
    Polled,
    Transmitted,
    TransmitWouldBlock,
    Took(DatagramView),
    ChannelEmpty,
    ChannelClosed,
    Failed,
}

impl View for WriterEvent {
    type V = WriterEventView;

    open spec fn view(&self) -> WriterEventView {
        match *self {
            WriterEvent::Polled => WriterEventView::Polled,
            WriterEvent::Transmitted => WriterEventView::Transmitted,
            WriterEvent::TransmitWouldBlock => WriterEventView::TransmitWouldBlock,
            WriterEvent::Took(datagram) => WriterEventView::Took(datagram@),
            WriterEvent::ChannelEmpty => WriterEventView::ChannelEmpty,
            WriterEvent::ChannelClosed => WriterEventView::ChannelClosed,
            WriterEvent::Failed => WriterEventView::Failed,
        }
    }
}

/// What a [`Writer`] asks of its caller.
#[derive(Clone, Copy, Debug, PartialEq, Eq, Structural)]
pub enum WriterAction {
    /// Attempt to send the datagram that is held to its peer and report how
    /// it went.
    Transmit,
    /// Ask the channel for the next datagram and report what it gave.
    Take,
    /// End the poll unfinished. With `notify` the writer wants to be polled
    /// again at once; without it, when the socket or the channel wakes it.
    Yield { notify: bool },
    /// End the poll finished: the channel is closed and everything was sent.
    Complete,
    /// End the poll with the failure.
    Fail,
}

/// Where a writer stands between two events.
#[derive(Clone, Copy, Debug, PartialEq, Eq, Structural)]
pub enum WriterPhase {
    /// Between two polls.
    Idle,
    /// It asked for a transmit.
    Transmitting,
    /// It asked the channel for a datagram.
    Taking,
}

/// The mathematical state of a [`Writer`].
pub struct WriterState {
    /// The datagram that was taken from the channel and not sent yet.
    pub held: Option<DatagramView>,
    pub phase: WriterPhase,
    /// The channel was closed; the writer has completed.
    pub done: bool,
    pub halted: bool,
}

impl WriterState {
    /// The state of a new writer.
    pub open spec fn initial() -> WriterState {
        WriterState { held: None, phase: WriterPhase::Idle, done: false, halted: false }
    }

    /// A transmit is only asked for while a datagram is held.
    pub open spec fn wf(self) -> bool {
        self.phase is Transmitting ==> self.held is Some
    }

    /// Why `event` is refused in this state, or `None` where it is taken. A
    /// writer that has completed or failed takes nothing.
    pub open spec fn refusal(self, event: WriterEventView) -> Option<Refusal> {
        if self.halted || self.done {
            Some(Refusal::Halted)
        } else {
            let fits = match event {
                WriterEventView::Polled => self.phase is Idle,
                WriterEventView::Transmitted | WriterEventView::TransmitWouldBlock => self.phase
                    is Transmitting,
                WriterEventView::Took(_)
                | WriterEventView::ChannelEmpty
                | WriterEventView::ChannelClosed => self.phase is Taking,
                WriterEventView::Failed => !(self.phase is Idle),
            };
            if fits {
                None
            } else {
                Some(Refusal::UnexpectedEvent)
            }
        }
    }

    /// True when `event` is taken in this state.
    pub open spec fn accepts(self, event: WriterEventView) -> bool {
        self.refusal(event) is None
    }

    /// The state after an event that is taken, and the action that answers
    /// it.
    ///
    /// A poll first sends the datagram that is held, if any, and only then
    /// asks the channel for the next one. A datagram taken from the channel
    /// is held for the next poll, which the writer asks for at once. A
    /// transmit that would block ends the poll with the datagram still
    /// held.
    pub open spec fn step(self, event: WriterEventView) -> (WriterState, WriterAction) {
        let idle = WriterState { phase: WriterPhase::Idle, ..self };
        let taking = WriterState { phase: WriterPhase::Taking, ..self };
        match event {
            WriterEventView::Polled => if self.held is Some {
                (WriterState { phase: WriterPhase::Transmitting, ..self }, WriterAction::Transmit)
            } else {
                (taking, WriterAction::Take)
            },
            WriterEventView::Transmitted => (
                WriterState { held: None, ..taking },
                WriterAction::Take,
            ),
            WriterEventView::TransmitWouldBlock => (idle, WriterAction::Yield { notify: false }),
            WriterEventView::Took(datagram) => (
                WriterState { held: Some(datagram), ..idle },
                WriterAction::Yield { notify: true },
            ),
            WriterEventView::ChannelEmpty => (idle, WriterAction::Yield { notify: false }),
            WriterEventView::ChannelClosed => (
                WriterState { done: true, ..idle },
                WriterAction::Complete,
            ),
            WriterEventView::Failed => (WriterState { halted: true, ..self }, WriterAction::Fail),
        }
    }
}

/// The half that drains the channel into the socket.
#[derive(Debug)]
pub struct Writer {
    held: Option<Datagram>,
    phase: WriterPhase,
    done: bool,
    halted: bool,
}

impl View for Writer {
    type V = WriterState;

    closed spec fn view(&self) -> WriterState {
        WriterState {
            held: match self.held {
                Some(datagram) => Some(datagram@),
                None => None,
            },
            phase: self.phase,
            done: self.done,
            halted: self.halted,
        }
    }
}

impl Writer {
    /// A new writer.
    pub fn new() -> (writer: Writer)
        ensures
            writer@ == WriterState::initial(),
    {
        Writer { held: None, phase: WriterPhase::Idle, done: false, halted: false }
    }

    /// Takes in `event` and answers with the next action.
    ///
    /// The event is refused, and nothing changes, when the writer has
    /// completed or failed, or when the event does not answer the pending
    /// action.
    pub fn step(&mut self, event: WriterEvent) -> (outcome: Result<WriterAction, Refusal>)
        ensures
            match outcome {
                Ok(action) => old(self)@.accepts(event@) && (final(self)@, action) == old(
                    self,
                )@.step(event@),
                Err(refusal) => old(self)@.refusal(event@) == Some(refusal) && final(self)@
                    == old(self)@,
            },
    {
        if self.halted || self.done {
            return Err(Refusal::Halted);
        }
        match event {
            WriterEvent::Polled => {
                if self.phase != WriterPhase::Idle {
                    return Err(Refusal::UnexpectedEvent);
                }
                if self.held.is_some() {
                    self.phase = WriterPhase::Transmitting;
                    Ok(WriterAction::Transmit)
                } else {
                    self.phase = WriterPhase::Taking;
                    Ok(WriterAction::Take)
                }
            },
            WriterEvent::Transmitted => {
                if self.phase != WriterPhase::Transmitting {
                    return Err(Refusal::UnexpectedEvent);
                }
                self.held = None;
                self.phase = WriterPhase::Taking;
                Ok(WriterAction::Take)
            },
            WriterEvent::TransmitWouldBlock => {
                if self.phase != WriterPhase::Transmitting {
                    return Err(Refusal::UnexpectedEvent);
                }
                self.phase = WriterPhase::Idle;
                Ok(WriterAction::Yield { notify: false })
            },
            WriterEvent::Took(datagram) => {
                if self.phase != WriterPhase::Taking {
                    return Err(Refusal::UnexpectedEvent);
                }
                self.held = Some(datagram);
                self.phase = WriterPhase::Idle;
                Ok(WriterAction::Yield { notify: true })
            },
            WriterEvent::ChannelEmpty => {
                if self.phase != WriterPhase::Taking {
                    return Err(Refusal::UnexpectedEvent);
                }
                self.phase = WriterPhase::Idle;
                Ok(WriterAction::Yield { notify: false })
            },
            WriterEvent::ChannelClosed => {
                if self.phase != WriterPhase::Taking {
                    return Err(Refusal::UnexpectedEvent);
                }
                self.done = true;
                self.phase = WriterPhase::Idle;
                Ok(WriterAction::Complete)
            },
            WriterEvent::Failed => {
                if self.phase == WriterPhase::Idle {
                    return Err(Refusal::UnexpectedEvent);
                }
                self.halted = true;
                Ok(WriterAction::Fail)
            },
        }
    }

    /// The datagram to send while the writer asks for a transmit.
    pub fn held(&self) -> (datagram: Option<&Datagram>)
        ensures
            match datagram {
                Some(d) => self@.held == Some(d@),
                None => self@.held is None,
            },
    {
        self.held.as_ref()
    }

    /// True once the channel was closed and the writer has completed.
    pub fn is_done(&self) -> (done: bool)
        ensures
            done == self@.done,
    {
        self.done
    }

    /// True once the socket or the channel has failed for good.
    pub fn is_halted(&self) -> (halted: bool)
        ensures
            halted == self@.halted,
    {
        self.halted
    }
}

/// The reader never loses a datagram: an event that the reader takes, and
/// that is neither a failure nor the channel handing back something other
/// than what it was offered, leaves in the reader's hand what was there
/// before, without what the channel accepted and with what was received.
pub proof fn lemma_reader_conserves(state: ReaderState, event: ReaderEventView)
    requires
        state.accepts(event),
        state.phase is Offering ==> state.held is None,
        event matches ReaderEventView::Refused(datagram) ==> state.phase == ReaderPhase::Offering(
            datagram,
        ),
    ensures
        state.step(event).0.phase is Offering ==> state.step(event).0.held is None,
        match event {
            ReaderEventView::Accepted => state.in_hand() == seq![state.phase->Offering_0]
                && state.step(event).0.in_hand() == Seq::<DatagramView>::empty(),
            ReaderEventView::Received(datagram) => state.in_hand() == Seq::<DatagramView>::empty()
                ==> state.step(event).0.in_hand() == seq![datagram],
            _ => state.step(event).0.in_hand() == state.in_hand(),
        },
{
}

/// The reader receives only with empty hands: while it holds a datagram, or
/// has one on offer, it never asks for a receive, so a datagram that the
/// channel refused is offered again before another one is read.
pub proof fn lemma_reader_receives_empty_handed(state: ReaderState, event: ReaderEventView)
    requires
        state.accepts(event),
        state.phase is Receiving ==> state.held is None,
    ensures
        state.step(event).1 is Receive ==> state.step(event).0.in_hand() == Seq::<
            DatagramView,
        >::empty(),
        state.step(event).0.phase is Receiving ==> state.step(event).0.held is None,
{
}

/// The writer sends what it took before it takes more: it asks the channel
/// for a datagram only when it holds none, so a datagram whose transmit
/// would block is tried again before anything else.
pub proof fn lemma_writer_sends_before_taking(state: WriterState, event: WriterEventView)
    requires
        state.accepts(event),
        state.wf(),
        state.phase is Taking ==> state.held is None,
    ensures
        state.step(event).0.wf(),
        state.step(event).0.phase is Taking ==> state.step(event).0.held is None,
        state.step(event).1 is Take ==> state.step(event).0.held is None,
        event is TransmitWouldBlock ==> state.step(event).0.held == state.held,
{
}

} // verus!
