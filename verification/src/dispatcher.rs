//! The dispatcher of several sources behind one poller.
//!
//! The dispatcher maps tokens to sources. It takes the result of a wait,
//! wakes every source the result names, once and in the order of the
//! result, and hands back what each of them wants done first. Only then
//! are the sources driven on, one event at a time, so that a source with
//! much to do holds up no wake-up of another.

use crate::datagram::{Datagram, DatagramView};
use crate::engine::{Action, Engine, EngineState, Event, EventView, Phase, Refusal};
use crate::interest::{Interest, ReadyEntry, Token};
use crate::signal::{SignalSource, SignalState};
use vstd::prelude::*;

verus! {

/// A source of readiness: a socket with its echo engine, or a signal.
#[derive(Debug)]
pub enum Source {
    Echo(Engine),
    Signal(SignalSource),
}

/// The mathematical state of a [`Source`].
pub enum SourceState {
    Echo(EngineState),
    Signal(SignalState),
}

impl SourceState {
    /// The state of the source is well formed.
    pub open spec fn wf(self) -> bool {
        match self {
            SourceState::Echo(engine) => engine.wf(),
            SourceState::Signal(_) => true,
        }
    }

    /// The action the source is waiting to hear about.
    pub open spec fn pending(self) -> Action {
        match self {
            SourceState::Echo(engine) => engine.pending(),
            SourceState::Signal(signal) => signal.pending(),
        }
    }

    /// Why the source refuses `event`, or `None` where it takes it.
    pub open spec fn refusal(self, event: EventView) -> Option<Refusal> {
        match self {
            SourceState::Echo(engine) => engine.refusal(event),
            SourceState::Signal(signal) => signal.refusal(event),
        }
    }

    /// The datagram the source wants transmitted, if it asks for a
    /// transmit.
    pub open spec fn transmitting(self) -> Option<DatagramView> {
        match self {
            SourceState::Echo(engine) => match engine.phase {
                Phase::Transmitting(datagram) => Some(datagram),
                _ => None,
            },
            SourceState::Signal(_) => None,
        }
    }

    /// The state of the source after `event`.
    pub open spec fn step(self, event: EventView) -> SourceState {
        match self {
            SourceState::Echo(engine) => SourceState::Echo(engine.step(event)),
            SourceState::Signal(signal) => SourceState::Signal(signal.step(event)),
        }
    }
}

impl View for Source {
    type V = SourceState;

    open spec fn view(&self) -> SourceState {
        match *self {
            Source::Echo(engine) => SourceState::Echo(engine@),
            Source::Signal(signal) => SourceState::Signal(signal@),
        }
    }
}

impl Source {
    /// The source is well formed.
    pub open spec fn wf(&self) -> bool {
        match *self {
            Source::Echo(engine) => engine.wf(),
            Source::Signal(_) => true,
        }
    }

    /// Hands `event` to the source and answers with its next action. A
    /// refused event changes nothing.
    pub fn step(&mut self, event: Event) -> (outcome: Result<Action, Refusal>)
        requires
            old(self).wf(),
        ensures
            final(self).wf(),
            final(self)@ == old(self)@.step(event@),
            match outcome {
                Ok(action) => old(self)@.refusal(event@) is None
                    && action == final(self)@.pending(),
                Err(refusal) => old(self)@.refusal(event@) == Some(refusal),
            },
    {
        match self {
            Source::Echo(engine) => engine.step(event),
            Source::Signal(signal) => signal.step(event),
        }
    }

    /// The action the source is waiting to hear about.
    pub fn pending(&self) -> (action: Action)
        ensures
            action == self@.pending(),
    {
        match self {
            Source::Echo(engine) => engine.pending(),
            Source::Signal(signal) => signal.pending(),
        }
    }

    /// Says whether the source would refuse `event` now, and why, without
    /// handing it over.
    pub fn refusal_of(&self, event: &Event) -> (refusal: Option<Refusal>)
        ensures
            refusal == self@.refusal(event@),
    {
        match self {
            Source::Echo(engine) => engine.refusal_of(event),
            Source::Signal(signal) => signal.refusal_of(event),
        }
    }

    /// The datagram to send while the source asks for a transmit.
    pub fn in_flight(&self) -> (datagram: Option<&Datagram>)
        ensures
            match datagram {
                Some(d) => self@.transmitting() == Some(d@),
                None => self@.transmitting() is None,
            },
    {
        match self {
            Source::Echo(engine) => engine.in_flight(),
            Source::Signal(_) => None,
        }
    }
}

/// Why the dispatcher refused a call. A refused call changes nothing.
#[derive(Clone, Copy, Debug, PartialEq, Eq, Structural)]
pub enum DispatchError {
    /// No source has this token.
    UnknownToken(Token),
    /// The result of the wait names this token a second time.
    DuplicateToken(Token),
    /// The source with this token refused the event.
    Refused(Token, Refusal),
}

/// What a source that was woken wants done first.
#[derive(Clone, Copy, Debug, PartialEq, Eq, Structural)]
pub struct Activation {
    pub token: Token,
    pub action: Action,
}

/// The mathematical state of a [`Dispatcher`]: its sources, each at the
/// place its token names.
pub struct DispatcherState {
    pub sources: Seq<SourceState>,
}

impl DispatcherState {
    /// Every source is well formed.
    pub open spec fn wf(self) -> bool {
        forall|i: int| 0 <= i < self.sources.len() ==> (#[trigger] self.sources[i]).wf()
    }

    /// True when a source has this token.
    pub open spec fn registered(self, token: Token) -> bool {
        token.0 < self.sources.len()
    }

    /// The source with this token.
    pub open spec fn source(self, token: Token) -> SourceState {
        self.sources[token.0 as int]
    }

    /// Why `event` cannot be handed to the source with this token, or
    /// `None` where it can.
    pub open spec fn refusal(self, token: Token, event: EventView) -> Option<DispatchError> {
        if !self.registered(token) {
            Some(DispatchError::UnknownToken(token))
        } else {
            match self.source(token).refusal(event) {
                Some(refusal) => Some(DispatchError::Refused(token, refusal)),
                None => None,
            }
        }
    }

    /// The state after `event` was handed to the source with this token. An
    /// event that cannot be handed over changes nothing.
    pub open spec fn deliver(self, token: Token, event: EventView) -> DispatcherState {
        if self.refusal(token, event) is None {
            DispatcherState {
                sources: self.sources.update(token.0 as int, self.source(token).step(event)),
            }
        } else {
            self
        }
    }

    /// The state after every line of `ready` has woken its source, in
    /// order.
    pub open spec fn fan_out(self, ready: Seq<ReadyEntry>) -> DispatcherState
        decreases ready.len(),
    {
        if ready.len() == 0 {
            self
        } else {
            self.fan_out(ready.drop_last()).deliver(
                ready.last().token,
                EventView::Ready(ready.last().readiness),
            )
        }
    }

    /// Why line `k` of `ready` cannot be dispatched, or `None` where it can:
    /// its token must name a source, must not occur in an earlier line, and
    /// the source must take the wake-up.
    pub open spec fn line_refusal(self, ready: Seq<ReadyEntry>, k: int) -> Option<DispatchError> {
        let token = ready[k].token;
        if !self.registered(token) {
            Some(DispatchError::UnknownToken(token))
        } else if exists|j: int| 0 <= j < k && (#[trigger] ready[j]).token == token {
            Some(DispatchError::DuplicateToken(token))
        } else {
            self.refusal(token, EventView::Ready(ready[k].readiness))
        }
    }

    /// True when every line of `ready` can be dispatched.
    pub open spec fn dispatchable(self, ready: Seq<ReadyEntry>) -> bool {
        forall|k: int| 0 <= k < ready.len() ==> self.line_refusal(ready, k) is None
    }

    /// What the source named by `entry` wants done.
    pub open spec fn activation(self, entry: ReadyEntry) -> Activation {
        Activation { token: entry.token, action: self.source(entry.token).pending() }
    }

    /// True when no source has anything to do before the next wait: each
    /// of them waits or has halted.
    pub open spec fn quiet(self) -> bool {
        forall|i: int|
            0 <= i < self.sources.len() ==> (#[trigger] self.sources[i]).pending() is Wait
                || self.sources[i].pending() is Halt
    }
}

/// The sources of one poller, each under its token.
#[derive(Debug)]
pub struct Dispatcher {
    sources: Vec<Source>,
}

impl View for Dispatcher {
    type V = DispatcherState;

    closed spec fn view(&self) -> DispatcherState {
        DispatcherState { sources: self.sources@.map_values(|source: Source| source@) }
    }
}

impl Dispatcher {
    /// Every source is well formed.
    pub closed spec fn wf(&self) -> bool {
        forall|i: int| 0 <= i < self.sources@.len() ==> (#[trigger] self.sources@[i]).wf()
    }

    /// The sources of a well-formed dispatcher are well formed.
    pub proof fn lemma_wf(&self)
        requires
            self.wf(),
        ensures
            self@.wf(),
    {
        assert forall|i: int| 0 <= i < self@.sources.len() implies (#[trigger] self@.sources[i]).wf() by {
            assert(self.sources@[i].wf());
            match self.sources@[i] {
                Source::Echo(engine) => {
                    engine.lemma_wf();
                },
                Source::Signal(_) => {},
            }
        }
    }

    /// A dispatcher without sources.
    pub fn new() -> (dispatcher: Dispatcher)
        ensures
            dispatcher.wf(),
            dispatcher@.sources == Seq::<SourceState>::empty(),
    {
        let dispatcher = Dispatcher { sources: Vec::new() };
        assert(dispatcher@.sources =~= Seq::<SourceState>::empty());
        dispatcher
    }

    /// Adds a source and returns its token: the number of sources added
    /// before it.
    pub fn add(&mut self, source: Source) -> (token: Token)
        requires
            old(self).wf(),
            source.wf(),
        ensures
            final(self).wf(),
            token.0 == old(self)@.sources.len(),
            final(self)@.sources == old(self)@.sources.push(source@),
    {
        let token = Token(self.sources.len());
        self.sources.push(source);
        assert(self@.sources =~= old(self)@.sources.push(source@));
        token
    }

    /// The number of sources.
    pub fn len(&self) -> (n: usize)
        ensures
            n == self@.sources.len(),
    {
        self.sources.len()
    }

    /// The action the source with this token is waiting to hear about, if
    /// there is such a source.
    pub fn pending(&self, token: Token) -> (action: Option<Action>)
        ensures
            action == if self@.registered(token) {
                Some(self@.source(token).pending())
            } else {
                None
            },
    {
        if token.0 < self.sources.len() {
            Some(self.sources[token.0].pending())
        } else {
            None
        }
    }

    /// The datagram that the source with this token wants transmitted.
    pub fn in_flight(&self, token: Token) -> (datagram: Option<&Datagram>)
        ensures
            match datagram {
                Some(d) => self@.registered(token) && self@.source(token).transmitting() == Some(
                    d@,
                ),
                None => !self@.registered(token) || self@.source(token).transmitting() is None,
            },
    {
        if token.0 < self.sources.len() {
            self.sources[token.0].in_flight()
        } else {
            None
        }
    }

    /// Hands `event` to the source with this token and answers with the
    /// action the source asks for next. The call is refused, and nothing
    /// changes, when no source has the token or the source refuses the
    /// event.
    pub fn report(&mut self, token: Token, event: Event) -> (outcome: Result<Action, DispatchError>)
        requires
            old(self).wf(),
        ensures
            final(self).wf(),
            final(self)@ == old(self)@.deliver(token, event@),
            match outcome {
                Ok(action) => old(self)@.refusal(token, event@) is None
                    && action == final(self)@.source(token).pending(),
                Err(error) => old(self)@.refusal(token, event@) == Some(error),
            },
    {
        if token.0 >= self.sources.len() {
            return Err(DispatchError::UnknownToken(token));
        }
        let outcome = self.sources[token.0].step(event);
        assert(self@.sources =~= old(self)@.deliver(token, event@).sources);
        match outcome {
            Ok(action) => Ok(action),
            Err(refusal) => Err(DispatchError::Refused(token, refusal)),
        }
    }

    /// Wakes the sources that `ready`, the result of a wait, names: each of
    /// them once, in the order of the result, with the flags of its line.
    /// Returns, line by line, what each source wants done first.
    ///
    /// The whole result is refused, and no source is woken, when one of its
    /// lines cannot be dispatched; the error is that of the first such line.
    pub fn dispatch(&mut self, ready: &Vec<ReadyEntry>) -> (outcome: Result<
        Vec<Activation>,
        DispatchError,
    >)
        requires
            old(self).wf(),
        ensures
            final(self).wf(),
            match outcome {
                Ok(activations) => {
                    &&& old(self)@.dispatchable(ready@)
                    &&& final(self)@ == old(self)@.fan_out(ready@)
                    &&& activations@.len() == ready@.len()
                    &&& forall|k: int|
                        0 <= k < ready@.len() ==> #[trigger] activations@[k]
                            == final(self)@.activation(ready@[k])
                },
                Err(error) => {
                    &&& final(self)@ == old(self)@
                    &&& exists|k: int|
                        0 <= k < ready@.len() && #[trigger] old(self)@.line_refusal(ready@, k)
                            == Some(error) && forall|j: int|
                            0 <= j < k ==> (#[trigger] old(self)@.line_refusal(ready@, j)) is None
                },
            },
    {
        let n: usize = self.sources.len();
        let mut seen: Vec<bool> = Vec::new();
        let mut i: usize = 0;
        while i < n
            invariant
                i <= n,
                seen@.len() == i,
                forall|t: int| 0 <= t < i ==> !(#[trigger] seen@[t]),
            decreases n - i,
        {
            seen.push(false);
            i += 1;
        }
        let mut k: usize = 0;
        while k < ready.len()
            invariant
                k <= ready@.len(),
                n == self.sources@.len(),
                seen@.len() == n,
                self.wf(),
                self@ == old(self)@,
                forall|j: int| 0 <= j < k ==> (#[trigger] self@.line_refusal(ready@, j)) is None,
                forall|t: int|
                    0 <= t < n ==> (#[trigger] seen@[t] <==> exists|j: int|
                        0 <= j < k && (#[trigger] ready@[j]).token.0 == t),
            decreases ready@.len() - k,
        {
            let entry = ready[k];
            let token = entry.token;
            if token.0 >= n {
                assert(self@.line_refusal(ready@, k as int) == Some(
                    DispatchError::UnknownToken(token),
                ));
                return Err(DispatchError::UnknownToken(token));
            }
            if seen[token.0] {
                let ghost j = choose|j: int| 0 <= j < k && (#[trigger] ready@[j]).token.0 == token.0;
                assert(ready@[j].token == token);
                assert(self@.line_refusal(ready@, k as int) == Some(
                    DispatchError::DuplicateToken(token),
                ));
                return Err(DispatchError::DuplicateToken(token));
            }
            assert(!exists|j: int| 0 <= j < k && (#[trigger] ready@[j]).token == token);
            match self.sources[token.0].refusal_of(&Event::Ready(entry.readiness)) {
                Some(refusal) => {
                    assert(self@.line_refusal(ready@, k as int) == Some(
                        DispatchError::Refused(token, refusal),
                    ));
                    return Err(DispatchError::Refused(token, refusal));
                },
                None => {},
            }
            assert(self@.line_refusal(ready@, k as int) is None);
            seen[token.0] = true;
            k += 1;
            assert forall|t: int| 0 <= t < n implies (#[trigger] seen@[t] <==> exists|j: int|
                0 <= j < k && (#[trigger] ready@[j]).token.0 == t) by {
                if t == token.0 {
                    assert(ready@[k - 1].token.0 == t);
                } else if seen@[t] {
                    let j = choose|j: int| 0 <= j < k - 1 && (#[trigger] ready@[j]).token.0 == t;
                    assert(ready@[j].token.0 == t);
                } else {
                    if exists|j: int| 0 <= j < k && (#[trigger] ready@[j]).token.0 == t {
                        let j = choose|j: int| 0 <= j < k && (#[trigger] ready@[j]).token.0 == t;
                        assert(j < k - 1);
                    }
                }
            }
        }
        assert(old(self)@.dispatchable(ready@));
        let mut activations: Vec<Activation> = Vec::new();
        let mut k: usize = 0;
        assert(ready@.take(0) =~= Seq::<ReadyEntry>::empty());
        while k < ready.len()
            invariant
                k <= ready@.len(),
                n == self.sources@.len(),
                n == old(self)@.sources.len(),
                old(self)@.dispatchable(ready@),
                self.wf(),
                self@ == old(self)@.fan_out(ready@.take(k as int)),
                activations@.len() == k,
                forall|j: int|
                    0 <= j < k ==> #[trigger] activations@[j] == self@.activation(ready@[j]),
                forall|t: int|
                    0 <= t < n && (forall|j: int| 0 <= j < k ==> (#[trigger] ready@[j]).token.0 != t)
                        ==> (#[trigger] self@.sources[t]) == old(self)@.sources[t],
            decreases ready@.len() - k,
        {
            let entry = ready[k];
            let token = entry.token;
            let ghost before = self@;
            proof {
                assert(old(self)@.line_refusal(ready@, k as int) is None);
                assert forall|j: int| 0 <= j < k implies (#[trigger] ready@[j]).token.0
                    != token.0 by {
                    if ready@[j].token.0 == token.0 {
                        assert(ready@[j].token == token);
                    }
                }
                assert(before.sources[token.0 as int] == old(self)@.sources[token.0 as int]);
                assert(ready@.take(k + 1).drop_last() =~= ready@.take(k as int));
                assert(ready@.take(k + 1).last() == entry);
            }
            let outcome = self.sources[token.0].step(Event::Ready(entry.readiness));
            proof {
                assert(self@.sources =~= before.deliver(
                    token,
                    EventView::Ready(entry.readiness),
                ).sources);
            }
            match outcome {
                Ok(action) => {
                    activations.push(Activation { token, action });
                },
                Err(refusal) => {
                    assert(false);
                    return Err(DispatchError::Refused(token, refusal));
                },
            }
            k += 1;
            proof {
                assert forall|j: int| 0 <= j < k implies #[trigger] activations@[j]
                    == self@.activation(ready@[j]) by {
                    if j < k - 1 {
                        assert(old(self)@.line_refusal(ready@, j) is None);
                        assert(ready@[j].token.0 != token.0);
                    }
                }
            }
        }
        assert(ready@.take(k as int) =~= ready@);
        Ok(activations)
    }

    /// True when no source has anything to do before the next wait.
    pub fn is_quiet(&self) -> (quiet: bool)
        ensures
            quiet == self@.quiet(),
    {
        let mut i: usize = 0;
        while i < self.sources.len()
            invariant
                i <= self.sources@.len(),
                forall|j: int|
                    0 <= j < i ==> (#[trigger] self@.sources[j]).pending() is Wait
                        || self@.sources[j].pending() is Halt,
            decreases self.sources@.len() - i,
        {
            match self.sources[i].pending() {
                Action::Wait(_) => {},
                Action::Halt => {},
                _ => {
                    assert(!(self@.sources[i as int].pending() is Wait));
                    return false;
                },
            }
            i += 1;
        }
        true
    }
}

/// The fan-out wakes every source that the result names exactly once, with
/// the flags of its line, and touches no other source: it neither adds nor
/// removes a source, a source that line `k` names ends in the state that
/// one wake-up with the flags of line `k` leads to, and a source that no
/// line names stays as it was.
pub proof fn lemma_fan_out_once(state: DispatcherState, ready: Seq<ReadyEntry>, token: Token)
    requires
        state.dispatchable(ready),
        state.registered(token),
    ensures
        state.fan_out(ready).sources.len() == state.sources.len(),
        forall|k: int|
            0 <= k < ready.len() && (#[trigger] ready[k]).token == token ==> state.fan_out(
                ready,
            ).source(token) == state.source(token).step(EventView::Ready(ready[k].readiness)),
        (forall|k: int| 0 <= k < ready.len() ==> (#[trigger] ready[k]).token != token)
            ==> state.fan_out(ready).source(token) == state.source(token),
    decreases ready.len(),
{
    if ready.len() > 0 {
        let front = ready.drop_last();
        let last = ready.last();
        assert forall|k: int| 0 <= k < front.len() implies state.line_refusal(front, k) is None by {
            assert(state.line_refusal(ready, k) is None);
            assert(front[k] == ready[k]);
            if exists|j: int| 0 <= j < k && (#[trigger] front[j]).token == front[k].token {
                let j = choose|j: int| 0 <= j < k && (#[trigger] front[j]).token == front[k].token;
                assert(ready[j].token == ready[k].token);
            }
        }
        // The source of the last line was not woken by an earlier line.
        assert(state.line_refusal(ready, ready.len() - 1) is None);
        lemma_fan_out_once(state, front, token);
        lemma_fan_out_once(state, front, last.token);
        let middle = state.fan_out(front);
        assert forall|k: int| 0 <= k < front.len() implies (#[trigger] front[k]).token
            != last.token by {
            if front[k].token == last.token {
                assert(ready[k].token == last.token);
            }
        }
        assert(middle.source(last.token) == state.source(last.token));
        assert(middle.refusal(last.token, EventView::Ready(last.readiness)) is None);
        assert forall|k: int| 0 <= k < ready.len() && (#[trigger] ready[k]).token
            == token implies state.fan_out(ready).source(token) == state.source(token).step(
            EventView::Ready(ready[k].readiness),
        ) by {
            if k < front.len() {
                assert(front[k].token == token);
                assert(token != last.token) by {
                    if token == last.token {
                        assert(ready[k].token == last.token);
                    }
                }
            }
        }
        if forall|k: int| 0 <= k < ready.len() ==> (#[trigger] ready[k]).token != token {
            assert(last.token != token);
            assert forall|k: int| 0 <= k < front.len() implies (#[trigger] front[k]).token
                != token by {
                assert(ready[k].token != token);
            }
        }
    }
}

/// The fan-out keeps well-formed sources well formed.
pub proof fn lemma_fan_out_keeps_wf(state: DispatcherState, ready: Seq<ReadyEntry>)
    requires
        state.wf(),
    ensures
        state.fan_out(ready).wf(),
        state.fan_out(ready).sources.len() == state.sources.len(),
    decreases ready.len(),
{
    if ready.len() > 0 {
        lemma_fan_out_keeps_wf(state, ready.drop_last());
        let middle = state.fan_out(ready.drop_last());
        let last = ready.last();
        let event = EventView::Ready(last.readiness);
        if middle.refusal(last.token, event) is None {
            match middle.source(last.token) {
                SourceState::Echo(engine) => {
                    crate::history::lemma_step_keeps_wf(engine, event);
                },
                SourceState::Signal(_) => {},
            }
        }
    }
}

} // verus!
