//! The source behind a signal handle.
//!
//! A signal source has no socket. Its readiness is set through the signal
//! handle, from wherever the signal comes, and reaches the source as a
//! wake-up like any other. The source answers a wake-up by asking that the
//! signal be taken note of and its readiness cleared, and waits again once
//! that has been done: a readiness that is left standing would be reported
//! again by a level-triggered wait.

use crate::engine::{Action, Event, EventView, Refusal};
use crate::interest::Interest;
use vstd::prelude::*;

verus! {

/// The mathematical state of a [`SignalSource`].
pub struct SignalState {
    /// The source was woken and the signal has not been cleared yet.
    pub clearing: bool,
    pub halted: bool,
}

impl SignalState {
    /// The state of a new source: waiting for its first wake-up.
    pub open spec fn initial() -> SignalState {
        SignalState { clearing: false, halted: false }
    }

    /// The mask of a signal source: it only ever listens.
    pub open spec fn interest(self) -> Interest {
        Interest { read: true, write: false }
    }

    /// The action the source is waiting to hear about.
    pub open spec fn pending(self) -> Action {
        if self.halted {
            Action::Halt
        } else if self.clearing {
            Action::ClearSignal
        } else {
            Action::Wait(self.interest())
        }
    }

    /// Why `event` is refused in this state, or `None` where it is taken. A
    /// wake-up is taken while the source waits, the report that the signal
    /// was cleared while the source has asked for that, and a failure, of
    /// the wait or of the clearing, at any time.
    pub open spec fn refusal(self, event: EventView) -> Option<Refusal> {
        if self.halted {
            Some(Refusal::Halted)
        } else {
            let fits = match event {
                EventView::Ready(_) => !self.clearing,
                EventView::SignalCleared => self.clearing,
                EventView::Failed => true,
                _ => false,
            };
            if fits {
                None
            } else {
                Some(Refusal::UnexpectedEvent)
            }
        }
    }

    /// True when `event` is taken in this state.
    pub open spec fn accepts(self, event: EventView) -> bool {
        self.refusal(event) is None
    }

    /// The state after `event`. A refused event changes nothing. A wake-up
    /// that reports the signal readable makes the source ask for clearing;
    /// any other wake-up leaves it waiting. Once the signal is cleared the
    /// source waits again, and a failure halts it.
    pub open spec fn step(self, event: EventView) -> SignalState {
        if !self.accepts(event) {
            self
        } else {
            match event {
                EventView::Ready(readiness) => SignalState { clearing: readiness.readable, ..self },
                EventView::SignalCleared => SignalState { clearing: false, ..self },
                EventView::Failed => SignalState { halted: true, ..self },
                _ => self,
            }
        }
    }
}

/// The source behind a signal handle.
#[derive(Debug)]
pub struct SignalSource {
    clearing: bool,
    halted: bool,
}

impl View for SignalSource {
    type V = SignalState;

    closed spec fn view(&self) -> SignalState {
        SignalState { clearing: self.clearing, halted: self.halted }
    }
}

impl SignalSource {
    /// A new signal source.
    pub fn new() -> (source: SignalSource)
        ensures
            source@ == SignalState::initial(),
    {
        SignalSource { clearing: false, halted: false }
    }

    /// Says whether `event` would be refused now, and why, without taking
    /// it.
    pub fn refusal_of(&self, event: &Event) -> (refusal: Option<Refusal>)
        ensures
            refusal == self@.refusal(event@),
    {
        if self.halted {
            return Some(Refusal::Halted);
        }
        let fits = match event {
            Event::Ready(_) => !self.clearing,
            Event::SignalCleared => self.clearing,
            Event::Failed => true,
            _ => false,
        };
        if fits {
            None
        } else {
            Some(Refusal::UnexpectedEvent)
        }
    }

    /// Takes in `event` and answers with the next action. The event is
    /// refused, and nothing changes, when the source has halted or the
    /// event does not answer the pending action.
    pub fn step(&mut self, event: Event) -> (outcome: Result<Action, Refusal>)
        ensures
            final(self)@ == old(self)@.step(event@),
            match outcome {
                Ok(action) => old(self)@.accepts(event@) && action == final(self)@.pending(),
                Err(refusal) => old(self)@.refusal(event@) == Some(refusal),
            },
    {
        if self.halted {
            return Err(Refusal::Halted);
        }
        match event {
            Event::Ready(readiness) => {
                if self.clearing {
                    return Err(Refusal::UnexpectedEvent);
                }
                self.clearing = readiness.readable;
                if self.clearing {
                    Ok(Action::ClearSignal)
                } else {
                    Ok(Action::Wait(Interest::read_only()))
                }
            },
            Event::SignalCleared => {
                if !self.clearing {
                    return Err(Refusal::UnexpectedEvent);
                }
                self.clearing = false;
                Ok(Action::Wait(Interest::read_only()))
            },
            Event::Failed => {
                self.halted = true;
                Ok(Action::Halt)
            },
            _ => Err(Refusal::UnexpectedEvent),
        }
    }

    /// The action the source is waiting to hear about.
    pub fn pending(&self) -> (action: Action)
        ensures
            action == self@.pending(),
    {
        if self.halted {
            Action::Halt
        } else if self.clearing {
            Action::ClearSignal
        } else {
            Action::Wait(Interest::read_only())
        }
    }
}

/// A signal source never waits with its signal standing: between a wake-up
/// that reported the signal and the next wait lies the clearing of the
/// signal.
pub proof fn lemma_cleared_before_wait(state: SignalState, event: EventView)
    requires
        state.accepts(event),
    ensures
        event matches EventView::Ready(readiness) && readiness.readable ==> state.step(
            event,
        ).pending() == Action::ClearSignal,
        state.step(event).pending() is Wait ==> event is SignalCleared || (event matches EventView::Ready(
            readiness,
        ) && !readiness.readable),
{
}

} // verus!
