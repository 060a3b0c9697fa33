//! The registration table and the readiness of its sources.
//!
//! A [`Poller`] knows every source by its token, the conditions the source
//! is interested in and its triggering mode. The readiness of a source is
//! set and cleared from outside, by whatever watches the socket or by the
//! holder of a signal handle. A wait hands out, in a bounded batch, the
//! sources that are due. It never blocks: an empty batch tells the caller
//! that it is time to sleep until something sets a readiness.

use crate::config::Config;
use crate::interest::{Interest, Readiness, ReadyEntry, Token, TriggerMode};
use vstd::prelude::*;

verus! {

/// Why a registration call was refused. A refused call changes nothing.
#[derive(Clone, Copy, Debug, PartialEq, Eq, Structural)]
pub enum RegistrationError {
    /// The token is in the table already.
    AlreadyRegistered,
    /// The token is not in the table.
    NotRegistered,
}

/// One line of the registration table.
#[derive(Clone, Copy, Debug, PartialEq, Eq, Structural)]
pub struct Registration {
    pub token: Token,
    /// The conditions to report.
    pub interest: Interest,
    /// How a condition that keeps holding is reported.
    pub mode: TriggerMode,
    /// The conditions that hold on the source.
    pub condition: Readiness,
    /// The conditions that began to hold and were not reported since.
    pub fresh: Readiness,
}

impl Registration {
    /// The line of a source that was just registered: nothing holds yet.
    pub open spec fn spec_new(token: Token, interest: Interest, mode: TriggerMode) -> Registration {
        Registration {
            token,
            interest,
            mode,
            condition: Readiness { readable: false, writable: false },
            fresh: Readiness { readable: false, writable: false },
        }
    }

    /// What the next wait reports of the source. A level-triggered source
    /// reports the conditions that hold, an edge-triggered one those that
    /// began to hold and were not reported yet; either way only those it is
    /// interested in.
    pub open spec fn due(self) -> Readiness {
        match self.mode {
            TriggerMode::Level => self.condition.spec_masked(self.interest),
            TriggerMode::Edge => self.fresh.spec_masked(self.interest),
        }
    }

    /// True when the next wait has something to report of the source.
    pub open spec fn is_due(self) -> bool {
        !self.due().spec_is_empty()
    }

    /// The line of a wait's result that reports the source.
    pub open spec fn entry(self) -> ReadyEntry {
        ReadyEntry { token: self.token, readiness: self.due() }
    }

    /// The source after a wait has reported it: the conditions that were
    /// reported are no longer fresh.
    pub open spec fn reported(self) -> Registration {
        Registration {
            fresh: Readiness {
                readable: self.fresh.readable && !self.interest.read,
                writable: self.fresh.writable && !self.interest.write,
            },
            ..self
        }
    }

    /// The source after its readiness was set to `readiness`. A condition
    /// that did not hold before is fresh; one that held already stays as
    /// fresh as it was; one that no longer holds is not fresh.
    pub open spec fn signalled(self, readiness: Readiness) -> Registration {
        Registration {
            condition: readiness,
            fresh: Readiness {
                readable: readiness.readable && (self.fresh.readable || !self.condition.readable),
                writable: readiness.writable && (self.fresh.writable || !self.condition.writable),
            },
            ..self
        }
    }

    /// The source with another interest.
    pub open spec fn interested(self, interest: Interest) -> Registration {
        Registration { interest, ..self }
    }

    fn compute_due(&self) -> (due: Readiness)
        ensures
            due == self.due(),
    {
        match self.mode {
            TriggerMode::Level => self.condition.masked(self.interest),
            TriggerMode::Edge => self.fresh.masked(self.interest),
        }
    }

    fn compute_reported(&self) -> (after: Registration)
        ensures
            after == self.reported(),
    {
        Registration {
            token: self.token,
            interest: self.interest,
            mode: self.mode,
            condition: self.condition,
            fresh: Readiness {
                readable: self.fresh.readable && !self.interest.read,
                writable: self.fresh.writable && !self.interest.write,
            },
        }
    }

    fn compute_signalled(&self, readiness: Readiness) -> (after: Registration)
        ensures
            after == self.signalled(readiness),
    {
        Registration {
            token: self.token,
            interest: self.interest,
            mode: self.mode,
            condition: readiness,
            fresh: Readiness {
                readable: readiness.readable && (self.fresh.readable || !self.condition.readable),
                writable: readiness.writable && (self.fresh.writable || !self.condition.writable),
            },
        }
    }
}

/// The test for a source that a wait has something to report of.
pub open spec fn is_due() -> spec_fn(Registration) -> bool {
    |registration: Registration| registration.is_due()
}

/// The test for a source that is not among `batch`.
pub open spec fn not_in(batch: Seq<Registration>) -> spec_fn(Registration) -> bool {
    |registration: Registration| !batch.contains(registration)
}

/// The mathematical state of a [`Poller`].
pub struct PollerState {
    /// The largest number of sources one wait reports.
    pub max_events: nat,
    /// The registered sources, in the order in which they are served.
    pub table: Seq<Registration>,
}

impl PollerState {
    /// No token is in the table twice.
    pub open spec fn wf(self) -> bool {
        forall|i: int, j: int|
            0 <= i < j < self.table.len() ==> (#[trigger] self.table[i]).token != (
            #[trigger] self.table[j]).token
    }

    /// True when `token` is in the table.
    pub open spec fn registered(self, token: Token) -> bool {
        exists|i: int| 0 <= i < self.table.len() && (#[trigger] self.table[i]).token == token
    }

    /// The place of `token` in the table.
    pub open spec fn slot(self, token: Token) -> int {
        choose|i: int| 0 <= i < self.table.len() && (#[trigger] self.table[i]).token == token
    }

    /// The line of `token`.
    pub open spec fn lookup(self, token: Token) -> Registration {
        self.table[self.slot(token)]
    }

    /// The table with a new source at its end.
    pub open spec fn register(self, token: Token, interest: Interest, mode: TriggerMode) -> PollerState {
        PollerState { table: self.table.push(Registration::spec_new(token, interest, mode)), ..self }
    }

    /// The table with the interest of `token` replaced.
    pub open spec fn reregister(self, token: Token, interest: Interest) -> PollerState {
        PollerState {
            table: self.table.update(self.slot(token), self.lookup(token).interested(interest)),
            ..self
        }
    }

    /// The table without `token`.
    pub open spec fn deregister(self, token: Token) -> PollerState {
        PollerState { table: self.table.remove(self.slot(token)), ..self }
    }

    /// The table with the readiness of `token` set to `readiness`.
    pub open spec fn set_readiness(self, token: Token, readiness: Readiness) -> PollerState {
        PollerState {
            table: self.table.update(self.slot(token), self.lookup(token).signalled(readiness)),
            ..self
        }
    }

    /// The sources that are due, in table order.
    pub open spec fn due(self) -> Seq<Registration> {
        self.table.filter(is_due())
    }

    /// The sources the next wait reports: the first `max_events` of those
    /// that are due.
    pub open spec fn batch(self) -> Seq<Registration> {
        if self.due().len() <= self.max_events {
            self.due()
        } else {
            self.due().take(self.max_events as int)
        }
    }

    /// The result of the next wait: one line for each source of the batch.
    pub open spec fn report(self) -> Seq<ReadyEntry> {
        self.batch().map_values(|registration: Registration| registration.entry())
    }

    /// The state after the next wait. The sources of the batch are marked
    /// as reported and go to the end of the table, behind every source that
    /// was not reported; the others keep their order.
    pub open spec fn wait(self) -> PollerState {
        PollerState {
            table: self.table.filter(not_in(self.batch())) + self.batch().map_values(
                |registration: Registration| registration.reported(),
            ),
            ..self
        }
    }
}

/// The registration table of a set of sources, with their readiness.
#[derive(Debug)]
pub struct Poller {
    max_events: usize,
    table: Vec<Registration>,
}

impl View for Poller {
    type V = PollerState;

    closed spec fn view(&self) -> PollerState {
        PollerState { max_events: self.max_events as nat, table: self.table@ }
    }
}

impl Poller {
    /// The table is well formed.
    pub closed spec fn wf(&self) -> bool {
        self@.wf()
    }

    /// The table of a well-formed poller is well formed.
    pub proof fn lemma_wf(&self)
        requires
            self.wf(),
        ensures
            self@.wf(),
    {
    }

    /// A poller without sources that reports at most `config.max_events`
    /// sources in one wait.
    pub fn new(config: &Config) -> (poller: Poller)
        ensures
            poller.wf(),
            poller@ == (PollerState { max_events: config.max_events as nat, table: Seq::empty() }),
    {
        Poller { max_events: config.max_events, table: Vec::new() }
    }

    /// The place of `token` in the table.
    fn find(&self, token: Token) -> (slot: Option<usize>)
        requires
            self.wf(),
        ensures
            match slot {
                Some(i) => self@.registered(token) && i == self@.slot(token) && i
                    < self@.table.len(),
                None => !self@.registered(token),
            },
    {
        let mut i: usize = 0;
        while i < self.table.len()
            invariant
                i <= self.table@.len(),
                self.wf(),
                forall|j: int| 0 <= j < i ==> (#[trigger] self.table@[j]).token != token,
            decreases self.table@.len() - i,
        {
            if self.table[i].token.0 == token.0 {
                assert(self@.table[i as int].token == token);
                return Some(i);
            }
            i += 1;
        }
        None
    }

    /// True when `token` is registered.
    pub fn is_registered(&self, token: Token) -> (registered: bool)
        requires
            self.wf(),
        ensures
            registered == self@.registered(token),
    {
        self.find(token).is_some()
    }

    /// The line of `token`, if it is registered.
    pub fn registration(&self, token: Token) -> (line: Option<Registration>)
        requires
            self.wf(),
        ensures
            line == if self@.registered(token) {
                Some(self@.lookup(token))
            } else {
                None
            },
    {
        match self.find(token) {
            Some(i) => Some(self.table[i]),
            None => None,
        }
    }

    /// The number of registered sources.
    pub fn len(&self) -> (n: usize)
        ensures
            n == self@.table.len(),
    {
        self.table.len()
    }

    /// Registers a source under `token`. Nothing holds on a new source.
    /// A token that is in the table already is refused.
    pub fn register(&mut self, token: Token, interest: Interest, mode: TriggerMode) -> (outcome:
        Result<(), RegistrationError>)
        requires
            old(self).wf(),
        ensures
            final(self).wf(),
            match outcome {
                Ok(()) => {
                    &&& !old(self)@.registered(token)
                    &&& final(self)@ == old(self)@.register(token, interest, mode)
                    &&& final(self)@.registered(token)
                    &&& final(self)@.lookup(token) == Registration::spec_new(token, interest, mode)
                },
                Err(error) => old(self)@.registered(token) && error
                    == RegistrationError::AlreadyRegistered && final(self)@ == old(self)@,
            },
    {
        match self.find(token) {
            Some(_) => Err(RegistrationError::AlreadyRegistered),
            None => {
                proof {
                    lemma_register_effect(self@, token, interest, mode, token);
                }
                self.table.push(
                    Registration {
                        token,
                        interest,
                        mode,
                        condition: Readiness::empty(),
                        fresh: Readiness::empty(),
                    },
                );
                Ok(())
            },
        }
    }

    /// Replaces the interest of the source registered under `token`; the
    /// next wait goes by the new mask. Returns whether the mask differs from
    /// the one that was registered: only then has a poller behind this
    /// table to be told. A token that is not in the table is refused.
    pub fn reregister(&mut self, token: Token, interest: Interest) -> (outcome: Result<
        bool,
        RegistrationError,
    >)
        requires
            old(self).wf(),
        ensures
            final(self).wf(),
            match outcome {
                Ok(changed) => {
                    &&& old(self)@.registered(token)
                    &&& final(self)@ == old(self)@.reregister(token, interest)
                    &&& final(self)@.registered(token)
                    &&& final(self)@.lookup(token) == old(self)@.lookup(token).interested(interest)
                    &&& changed == (old(self)@.lookup(token).interest != interest)
                },
                Err(error) => !old(self)@.registered(token) && error
                    == RegistrationError::NotRegistered && final(self)@ == old(self)@,
            },
    {
        match self.find(token) {
            Some(i) => {
                let line = self.table[i];
                let changed = line.interest.read != interest.read || line.interest.write
                    != interest.write;
                proof {
                    lemma_update_effect(self@, token, line.interested(interest), token);
                }
                self.table[i] = Registration {
                    token: line.token,
                    interest,
                    mode: line.mode,
                    condition: line.condition,
                    fresh: line.fresh,
                };
                Ok(changed)
            },
            None => Err(RegistrationError::NotRegistered),
        }
    }

    /// Takes the source registered under `token` out of the table. A token
    /// that is not in the table is refused.
    pub fn deregister(&mut self, token: Token) -> (outcome: Result<(), RegistrationError>)
        requires
            old(self).wf(),
        ensures
            final(self).wf(),
            match outcome {
                Ok(()) => {
                    &&& old(self)@.registered(token)
                    &&& final(self)@ == old(self)@.deregister(token)
                    &&& !final(self)@.registered(token)
                },
                Err(error) => !old(self)@.registered(token) && error
                    == RegistrationError::NotRegistered && final(self)@ == old(self)@,
            },
    {
        match self.find(token) {
            Some(i) => {
                proof {
                    lemma_deregister_effect(self@, token, token);
                }
                let _ = self.table.remove(i);
                Ok(())
            },
            None => Err(RegistrationError::NotRegistered),
        }
    }

    /// Sets the readiness of the source registered under `token`. Setting
    /// what is set already changes nothing: any number of sets before a
    /// wait make one report. A token that is not in the table is refused.
    pub fn set_readiness(&mut self, token: Token, readiness: Readiness) -> (outcome: Result<
        (),
        RegistrationError,
    >)
        requires
            old(self).wf(),
        ensures
            final(self).wf(),
            match outcome {
                Ok(()) => {
                    &&& old(self)@.registered(token)
                    &&& final(self)@ == old(self)@.set_readiness(token, readiness)
                    &&& final(self)@.registered(token)
                    &&& final(self)@.lookup(token) == old(self)@.lookup(token).signalled(readiness)
                },
                Err(error) => !old(self)@.registered(token) && error
                    == RegistrationError::NotRegistered && final(self)@ == old(self)@,
            },
    {
        match self.find(token) {
            Some(i) => {
                let line = self.table[i].compute_signalled(readiness);
                proof {
                    lemma_update_effect(self@, token, line, token);
                }
                self.table[i] = line;
                Ok(())
            },
            None => Err(RegistrationError::NotRegistered),
        }
    }

    /// Clears the readiness of the source registered under `token`: the
    /// same as setting it to nothing.
    pub fn clear_readiness(&mut self, token: Token) -> (outcome: Result<(), RegistrationError>)
        requires
            old(self).wf(),
        ensures
            final(self).wf(),
            match outcome {
                Ok(()) => {
                    &&& old(self)@.registered(token)
                    &&& final(self)@ == old(self)@.set_readiness(
                        token,
                        Readiness { readable: false, writable: false },
                    )
                    &&& final(self)@.registered(token)
                    &&& final(self)@.lookup(token) == old(self)@.lookup(token).signalled(
                        Readiness { readable: false, writable: false },
                    )
                },
                Err(error) => !old(self)@.registered(token) && error
                    == RegistrationError::NotRegistered && final(self)@ == old(self)@,
            },
    {
        self.set_readiness(token, Readiness::empty())
    }

    /// Hands out the sources that are due, at most `max_events` of them, in
    /// the order of the table. A source that was handed out is marked as
    /// reported and moves to the end of the table, so that sources which
    /// did not fit into a batch come first in the next one. The call never
    /// blocks; where nothing is due it returns an empty batch and changes
    /// nothing of the readiness of any source.
    pub fn wait(&mut self) -> (ready: Vec<ReadyEntry>)
        requires
            old(self).wf(),
        ensures
            final(self).wf(),
            final(self)@ == old(self)@.wait(),
            ready@ == old(self)@.report(),
            ready@.len() <= old(self)@.max_events,
    {
        let ghost before = self@;
        let ghost mut picked: Seq<Registration> = Seq::empty();
        let n: usize = self.table.len();
        let mut ready: Vec<ReadyEntry> = Vec::new();
        let mut kept: Vec<Registration> = Vec::new();
        let mut moved: Vec<Registration> = Vec::new();
        let mut i: usize = 0;
        proof {
            assert(before.table.take(0) =~= Seq::<Registration>::empty());
            assert(before.table.take(0).filter(is_due()).len() == 0) by {
                before.table.take(0).lemma_filter_len(is_due());
            }
            assert(before.table.take(0).filter(not_in(before.batch())).len() == 0) by {
                before.table.take(0).lemma_filter_len(not_in(before.batch()));
            }
            assert(ready@ =~= picked.map_values(|registration: Registration| registration.entry()));
            assert(moved@ =~= picked.map_values(
                |registration: Registration| registration.reported(),
            ));
            assert(kept@ =~= before.table.take(0).filter(not_in(before.batch())));
        }
        while i < n
            invariant
                i <= n,
                n == before.table.len(),
                self@ == before,
                before.wf(),
                picked.len() == scanned(before, i as int),
                picked == before.due().take(picked.len() as int),
                ready@ == picked.map_values(|registration: Registration| registration.entry()),
                moved@ == picked.map_values(|registration: Registration| registration.reported()),
                kept@ == before.table.take(i as int).filter(not_in(before.batch())),
            decreases n - i,
        {
            let line = self.table[i];
            let due = line.compute_due();
            proof {
                lemma_scan_step(before, i as int);
            }
            if ready.len() < self.max_events && !due.is_empty() {
                ready.push(ReadyEntry { token: line.token, readiness: due });
                moved.push(line.compute_reported());
                proof {
                    let taken = picked.len() as int;
                    picked = picked.push(line);
                    assert(before.due().take(taken + 1) =~= before.due().take(taken).push(
                        before.due()[taken],
                    ));
                    assert(picked =~= before.due().take(taken + 1));
                    assert(ready@ =~= picked.map_values(
                        |registration: Registration| registration.entry(),
                    ));
                    assert(moved@ =~= picked.map_values(
                        |registration: Registration| registration.reported(),
                    ));
                }
            } else {
                kept.push(line);
            }
            i += 1;
        }
        proof {
            assert(before.table.take(n as int) =~= before.table);
            assert(picked =~= before.batch());
        }
        kept.append(&mut moved);
        self.table = kept;
        proof {
            lemma_wait_keeps_wf(before);
        }
        ready
    }
}

/// The number of sources that a scan of the first `upto` lines of the table
/// hands out: the due ones among them, but no more than fit into a batch.
spec fn scanned(state: PollerState, upto: int) -> nat {
    let due = state.table.take(upto).filter(is_due()).len();
    if due <= state.max_events {
        due
    } else {
        state.max_events
    }
}

/// What the scan of line `i` adds to the scan of the lines before it.
proof fn lemma_scan_step(state: PollerState, i: int)
    requires
        state.wf(),
        0 <= i < state.table.len(),
    ensures
        scanned(state, i) <= state.due().len(),
        state.table[i].is_due() && scanned(state, i) < state.max_events ==> {
            &&& scanned(state, i + 1) == scanned(state, i) + 1
            &&& scanned(state, i) < state.due().len()
            &&& state.due()[scanned(state, i) as int] == state.table[i]
            &&& state.table.take(i + 1).filter(not_in(state.batch())) == state.table.take(
                i,
            ).filter(not_in(state.batch()))
        },
        !(state.table[i].is_due() && scanned(state, i) < state.max_events) ==> {
            &&& scanned(state, i + 1) == scanned(state, i)
            &&& state.table.take(i + 1).filter(not_in(state.batch())) == state.table.take(
                i,
            ).filter(not_in(state.batch())).push(state.table[i])
        },
{
    let table = state.table;
    let line = table[i];
    let head = table.take(i);
    let next = table.take(i + 1);
    let batch = state.batch();
    let due = state.due();
    assert(next =~= head.push(line));
    head.lemma_filter_push(line, is_due());
    head.lemma_filter_push(line, not_in(batch));
    // What is due among the first lines is the beginning of all that is due.
    assert(table =~= next + table.skip(i + 1));
    Seq::filter_distributes_over_add(next, table.skip(i + 1), is_due());
    assert(table =~= head + table.skip(i));
    Seq::filter_distributes_over_add(head, table.skip(i), is_due());
    let head_due = head.filter(is_due());
    let next_due = next.filter(is_due());
    assert(due == next_due + table.skip(i + 1).filter(is_due()));
    assert(due == head_due + table.skip(i).filter(is_due()));
    if line.is_due() && scanned(state, i) < state.max_events {
        assert(next_due == head_due.push(line));
        assert(due[head_due.len() as int] == next_due[head_due.len() as int]);
        assert(batch[head_due.len() as int] == line);
        assert(batch.contains(line));
    } else if !line.is_due() {
        if batch.contains(line) {
            let k = choose|k: int| 0 <= k < batch.len() && batch[k] == line;
            assert(batch[k] == due[k]);
            table.lemma_filter_pred(is_due(), k);
        }
    } else {
        // The batch was full before this line, and is made of earlier lines.
        assert(head_due.len() >= state.max_events);
        if batch.contains(line) {
            let k = choose|k: int| 0 <= k < batch.len() && batch[k] == line;
            assert(batch[k] == due[k]);
            assert(due[k] == head_due[k]);
            assert(head_due.contains(line));
            head.lemma_filter_contains_rev(is_due(), line);
            let j = choose|j: int| 0 <= j < head.len() && head[j] == line;
            assert(table[j].token == table[i].token);
        }
    }
}

/// A wait leaves no token in the table twice.
proof fn lemma_wait_keeps_wf(state: PollerState)
    requires
        state.wf(),
    ensures
        state.wait().wf(),
{
    let table = state.table;
    let batch = state.batch();
    let rest = table.filter(not_in(batch));
    let back = batch.map_values(|registration: Registration| registration.reported());
    let after = state.wait().table;
    assert(after == rest + back);
    lemma_filter_keeps_distinct(table, not_in(batch));
    lemma_filter_keeps_distinct(table, is_due());
    assert forall|i: int, j: int| 0 <= i < j < after.len() implies (#[trigger] after[i]).token != (
    #[trigger] after[j]).token by {
        if j < rest.len() {
            assert(after[i] == rest[i] && after[j] == rest[j]);
        } else if i >= rest.len() {
            let a = i - rest.len();
            let b = j - rest.len();
            assert(after[i] == batch[a].reported());
            assert(after[j] == batch[b].reported());
            assert(batch[a] == state.due()[a]);
            assert(batch[b] == state.due()[b]);
        } else {
            let b = j - rest.len();
            assert(after[i] == rest[i]);
            assert(after[j] == batch[b].reported());
            table.lemma_filter_pred(not_in(batch), i);
            assert(!batch.contains(rest[i]));
            // Both lines come from the table; with one token they would be
            // one line, which cannot be inside and outside the batch.
            assert(rest.contains(rest[i]));
            table.lemma_filter_contains_rev(not_in(batch), rest[i]);
            assert(batch[b] == state.due()[b]);
            assert(state.due().contains(batch[b]));
            table.lemma_filter_contains_rev(is_due(), batch[b]);
            let x = choose|x: int| 0 <= x < table.len() && table[x] == rest[i];
            let y = choose|y: int| 0 <= y < table.len() && table[y] == batch[b];
            assert(batch.contains(batch[b]));
            if rest[i].token == batch[b].token {
                assert(table[x].token == table[y].token);
                assert(x == y);
            }
        }
    }
}

/// Leaving lines out of a table in which no token occurs twice gives such a
/// table again.
proof fn lemma_filter_keeps_distinct(table: Seq<Registration>, keep: spec_fn(Registration) -> bool)
    requires
        forall|i: int, j: int|
            0 <= i < j < table.len() ==> (#[trigger] table[i]).token != (#[trigger] table[j]).token,
    ensures
        forall|i: int, j: int|
            0 <= i < j < table.filter(keep).len() ==> (#[trigger] table.filter(keep)[i]).token != (
            #[trigger] table.filter(keep)[j]).token,
    decreases table.len(),
{
    reveal(Seq::filter);
    if table.len() > 0 {
        let front = table.drop_last();
        lemma_filter_keeps_distinct(front, keep);
        let kept = table.filter(keep);
        if keep(table.last()) {
            assert(kept == front.filter(keep).push(table.last()));
            assert forall|i: int, j: int| 0 <= i < j < kept.len() implies (#[trigger] kept[i]).token
                != (#[trigger] kept[j]).token by {
                if j == kept.len() - 1 {
                    assert(front.filter(keep).contains(kept[i]));
                    front.lemma_filter_contains_rev(keep, kept[i]);
                    let x = choose|x: int| 0 <= x < front.len() && front[x] == kept[i];
                    assert(table[x] == kept[i]);
                    assert(table[table.len() - 1] == kept[j]);
                }
            }
        }
    }
}

/// What a registration does to the table: the new token is registered with
/// nothing holding on it, and every other token stays as it was.
pub proof fn lemma_register_effect(
    state: PollerState,
    token: Token,
    interest: Interest,
    mode: TriggerMode,
    other: Token,
)
    requires
        state.wf(),
        !state.registered(token),
    ensures
        state.register(token, interest, mode).wf(),
        state.register(token, interest, mode).registered(token),
        state.register(token, interest, mode).lookup(token) == Registration::spec_new(
            token,
            interest,
            mode,
        ),
        other != token ==> state.register(token, interest, mode).registered(other)
            == state.registered(other),
        other != token && state.registered(other) ==> state.register(
            token,
            interest,
            mode,
        ).lookup(other) == state.lookup(other),
{
    let after = state.register(token, interest, mode);
    let last = state.table.len() as int;
    assert(after.table[last].token == token);
    assert forall|i: int, j: int| 0 <= i < j < after.table.len() implies (
    #[trigger] after.table[i]).token != (#[trigger] after.table[j]).token by {
        if j == last {
            assert(state.table[i].token != token);
        }
    }
    lemma_slot_is_unique(after, token, last);
    if other != token {
        if state.registered(other) {
            let k = state.slot(other);
            assert(after.table[k].token == other);
            lemma_slot_is_unique(after, other, k);
        }
        if after.registered(other) {
            let k = after.slot(other);
            assert(state.table[k].token == other);
        }
    }
}

/// What replacing one line does to the table: the token stays registered
/// with its new line, and every other token stays as it was. This is the
/// effect of a new interest and of a set or cleared readiness alike.
pub proof fn lemma_update_effect(state: PollerState, token: Token, line: Registration, other: Token)
    requires
        state.wf(),
        state.registered(token),
        line.token == token,
    ensures
        ({
            let after = PollerState {
                table: state.table.update(state.slot(token), line),
                ..state
            };
            &&& after.wf()
            &&& after.registered(other) == state.registered(other)
            &&& after.lookup(token) == line
            &&& other != token && state.registered(other) ==> after.lookup(other) == state.lookup(
                other,
            )
        }),
{
    let at = state.slot(token);
    let after = PollerState { table: state.table.update(at, line), ..state };
    assert forall|i: int| 0 <= i < state.table.len() implies (#[trigger] after.table[i]).token
        == state.table[i].token by {}
    assert forall|i: int, j: int| 0 <= i < j < after.table.len() implies (
    #[trigger] after.table[i]).token != (#[trigger] after.table[j]).token by {
        assert(state.table[i].token != state.table[j].token);
    }
    assert(after.table[at].token == token);
    lemma_slot_is_unique(after, token, at);
    if state.registered(other) {
        let k = state.slot(other);
        assert(after.table[k].token == other);
        lemma_slot_is_unique(after, other, k);
    }
    if after.registered(other) {
        let k = after.slot(other);
        assert(state.table[k].token == other);
    }
}

/// What a deregistration does to the table: the token is gone, and every
/// other token stays as it was.
pub proof fn lemma_deregister_effect(state: PollerState, token: Token, other: Token)
    requires
        state.wf(),
        state.registered(token),
    ensures
        state.deregister(token).wf(),
        !state.deregister(token).registered(token),
        other != token ==> state.deregister(token).registered(other) == state.registered(other),
        other != token && state.registered(other) ==> state.deregister(token).lookup(other)
            == state.lookup(other),
{
    let at = state.slot(token);
    let after = state.deregister(token);
    assert forall|i: int| 0 <= i < after.table.len() implies #[trigger] after.table[i] == (if i
        < at {
        state.table[i]
    } else {
        state.table[i + 1]
    }) by {}
    assert forall|i: int, j: int| 0 <= i < j < after.table.len() implies (
    #[trigger] after.table[i]).token != (#[trigger] after.table[j]).token by {
        let a = if i < at { i } else { i + 1 };
        let b = if j < at { j } else { j + 1 };
        assert(state.table[a].token != state.table[b].token);
    }
    if after.registered(token) {
        let k = after.slot(token);
        let a = if k < at { k } else { k + 1 };
        assert(state.table[a].token == token);
        if a < at {
            assert(state.table[a].token != state.table[at].token);
        } else {
            assert(state.table[at].token != state.table[a].token);
        }
    }
    if other != token {
        if state.registered(other) {
            let k = state.slot(other);
            let a = if k < at { k } else { k - 1 };
            assert(after.table[a].token == other);
            lemma_slot_is_unique(after, other, a);
        }
        if after.registered(other) {
            let k = after.slot(other);
            let a = if k < at { k } else { k + 1 };
            assert(state.table[a].token == other);
        }
    }
}

/// In a table without doubles a token stands at one place only.
proof fn lemma_slot_is_unique(state: PollerState, token: Token, at: int)
    requires
        state.wf(),
        0 <= at < state.table.len(),
        state.table[at].token == token,
    ensures
        state.registered(token),
        state.slot(token) == at,
{
    let found = state.slot(token);
    if found < at {
        assert(state.table[found].token != state.table[at].token);
    }
    if at < found {
        assert(state.table[at].token != state.table[found].token);
    }
}

/// Sets coalesce: setting a readiness that is set already changes nothing,
/// so any number of equal sets before a wait make one report, not a count.
pub proof fn lemma_set_coalesces(line: Registration, readiness: Readiness)
    ensures
        line.signalled(readiness).signalled(readiness) == line.signalled(readiness),
{
}

/// Sets coalesce in the table too: for a registered source two equal sets
/// leave the table as one of them does, and so the next wait reports the
/// source once.
pub proof fn lemma_sets_coalesce(state: PollerState, token: Token, readiness: Readiness)
    requires
        state.wf(),
        state.registered(token),
    ensures
        state.set_readiness(token, readiness).set_readiness(token, readiness)
            == state.set_readiness(token, readiness),
        state.set_readiness(token, readiness).set_readiness(token, readiness).report()
            == state.set_readiness(token, readiness).report(),
{
    let line = state.lookup(token).signalled(readiness);
    lemma_update_effect(state, token, line, token);
    let once = state.set_readiness(token, readiness);
    lemma_slot_is_unique(once, token, state.slot(token));
    lemma_set_coalesces(state.lookup(token), readiness);
    assert(once.set_readiness(token, readiness).table =~= once.table);
}

/// A source whose readiness was just set reports, of what it is interested
/// in, at least what began to hold; under level triggering all that holds.
pub proof fn lemma_set_is_reported(line: Registration, readiness: Readiness)
    ensures
        line.mode is Level ==> line.signalled(readiness).due() == readiness.spec_masked(
            line.interest,
        ),
        line.mode is Edge && line.condition.spec_is_empty() ==> line.signalled(readiness).due()
            == readiness.spec_masked(line.interest),
{
}

/// Level triggering: a source that was reported is due again at once, with
/// the same conditions, for as long as its readiness is not cleared. Once
/// it is cleared the source is no longer due.
pub proof fn lemma_level_repeats(line: Registration)
    requires
        line.mode is Level,
    ensures
        line.reported().due() == line.due(),
        !line.signalled(Readiness { readable: false, writable: false }).is_due(),
{
}

/// Edge triggering: a source that was reported is not due again, neither at
/// once nor after its readiness is set to what holds already. It is due
/// again when a condition it is interested in ceases and begins anew.
pub proof fn lemma_edge_reports_once(line: Registration, readiness: Readiness)
    requires
        line.mode is Edge,
    ensures
        !line.reported().is_due(),
        !line.reported().signalled(line.condition).is_due(),
        line.reported().signalled(Readiness { readable: false, writable: false }).signalled(
            readiness,
        ).due() == readiness.spec_masked(line.interest),
{
}

/// A table in which every line passes the test is left whole by it.
proof fn lemma_filter_all(table: Seq<Registration>, keep: spec_fn(Registration) -> bool)
    requires
        forall|i: int| 0 <= i < table.len() ==> keep(#[trigger] table[i]),
    ensures
        table.filter(keep) == table,
    decreases table.len(),
{
    reveal(Seq::filter);
    if table.len() > 0 {
        lemma_filter_all(table.drop_last(), keep);
        assert(table.drop_last().push(table.last()) =~= table);
    }
}

/// The result of a wait is bounded and names no source twice: it has at
/// most `max_events` lines, each for a registered source that is due, with
/// exactly the conditions that are due.
pub proof fn lemma_report_bounded(state: PollerState)
    requires
        state.wf(),
    ensures
        state.report().len() <= state.max_events,
        state.report().len() <= state.table.len(),
        forall|k: int|
            0 <= k < state.report().len() ==> {
                &&& state.registered((#[trigger] state.report()[k]).token)
                &&& state.report()[k] == state.lookup(state.report()[k].token).entry()
                &&& !state.report()[k].readiness.spec_is_empty()
            },
        forall|j: int, k: int|
            0 <= j < k < state.report().len() ==> (#[trigger] state.report()[j]).token != (
            #[trigger] state.report()[k]).token,
{
    let table = state.table;
    let due = state.due();
    let batch = state.batch();
    table.lemma_filter_len(is_due());
    lemma_filter_keeps_distinct(table, is_due());
    assert forall|k: int| 0 <= k < state.report().len() implies {
        &&& state.registered((#[trigger] state.report()[k]).token)
        &&& state.report()[k] == state.lookup(state.report()[k].token).entry()
        &&& !state.report()[k].readiness.spec_is_empty()
    } by {
        assert(batch[k] == due[k]);
        table.lemma_filter_pred(is_due(), k);
        assert(due.contains(due[k]));
        table.lemma_filter_contains_rev(is_due(), due[k]);
        let x = choose|x: int| 0 <= x < table.len() && table[x] == due[k];
        assert(table[x].token == batch[k].token);
        let slot = state.slot(batch[k].token);
        if slot < x {
            assert(table[slot].token != table[x].token);
        }
        if x < slot {
            assert(table[x].token != table[slot].token);
        }
    }
    assert forall|j: int, k: int| 0 <= j < k < state.report().len() implies (
    #[trigger] state.report()[j]).token != (#[trigger] state.report()[k]).token by {
        assert(batch[j] == due[j]);
        assert(batch[k] == due[k]);
    }
}

/// A wait reports nothing exactly when no source is due or the batch has no
/// room at all, and a wait that reports nothing changes nothing.
pub proof fn lemma_empty_report(state: PollerState)
    ensures
        state.report().len() == 0 <==> state.max_events == 0 || forall|i: int|
            0 <= i < state.table.len() ==> !(#[trigger] state.table[i]).is_due(),
        state.report().len() == 0 ==> state.wait() == state,
{
    let table = state.table;
    let due = state.due();
    let batch = state.batch();
    if due.len() > 0 {
        table.lemma_filter_pred(is_due(), 0);
        assert(due.contains(due[0]));
        table.lemma_filter_contains_rev(is_due(), due[0]);
        let x = choose|x: int| 0 <= x < table.len() && table[x] == due[0];
        assert(table[x].is_due());
    } else {
        assert forall|i: int| 0 <= i < table.len() implies !(#[trigger] table[i]).is_due() by {
            if table[i].is_due() {
                table.lemma_filter_contains(is_due(), i);
            }
        }
    }
    if state.report().len() == 0 {
        assert(batch.len() == 0);
        assert forall|i: int| 0 <= i < table.len() implies (not_in(batch))(
            #[trigger] table[i],
        ) by {}
        lemma_filter_all(table, not_in(batch));
        assert(state.wait().table =~= table);
    }
}

/// While no more sources are due than fit into a batch, a wait reports
/// every one of them.
pub proof fn lemma_report_complete(state: PollerState, i: int)
    requires
        0 <= i < state.table.len(),
        state.table[i].is_due(),
        state.due().len() <= state.max_events,
    ensures
        state.report().contains(state.table[i].entry()),
{
    state.table.lemma_filter_contains(is_due(), i);
    let k = choose|k: int| 0 <= k < state.due().len() && state.due()[k] == state.table[i];
    assert(state.report()[k] == state.table[i].entry());
}

/// The lines that a scan of the first `upto` lines leaves in place and the
/// lines it hands out are all of these lines.
proof fn lemma_scan_counts(state: PollerState, upto: int)
    requires
        state.wf(),
        0 <= upto <= state.table.len(),
    ensures
        state.table.take(upto).filter(not_in(state.batch())).len() + scanned(state, upto) == upto,
    decreases upto,
{
    if upto == 0 {
        assert(state.table.take(0) =~= Seq::<Registration>::empty());
        state.table.take(0).lemma_filter_len(not_in(state.batch()));
        state.table.take(0).lemma_filter_len(is_due());
    } else {
        lemma_scan_counts(state, upto - 1);
        lemma_scan_step(state, upto - 1);
    }
}

/// No source waits forever behind a full batch: a source that is due and
/// did not fit into the batch moves up in the table by the size of the
/// batch, and nothing that was behind it gets in front of it.
pub proof fn lemma_passed_over_moves_up(state: PollerState, i: int)
    requires
        state.wf(),
        0 <= i < state.table.len(),
        state.table[i].is_due(),
        !state.batch().contains(state.table[i]),
    ensures
        state.max_events <= i,
        state.wait().table[i - state.max_events] == state.table[i],
{
    let table = state.table;
    let batch = state.batch();
    let head = table.take(i);
    let tail = table.skip(i);
    lemma_scan_step(state, i);
    lemma_scan_counts(state, i);
    if scanned(state, i) < state.max_events {
        // The line would have been handed out.
        let due = state.due();
        let at = scanned(state, i) as int;
        assert(due[at] == table[i]);
        assert(batch[at] == table[i]);
        assert(false);
    }
    assert(scanned(state, i) == state.max_events);
    let kept_head = head.filter(not_in(batch));
    assert(kept_head.len() == i - state.max_events);
    assert(table =~= head + tail);
    Seq::filter_distributes_over_add(head, tail, not_in(batch));
    assert(tail =~= seq![table[i]] + table.skip(i + 1));
    Seq::filter_distributes_over_add(seq![table[i]], table.skip(i + 1), not_in(batch));
    assert(seq![table[i]].filter(not_in(batch)) =~= seq![table[i]]) by {
        reveal_with_fuel(Seq::filter, 2);
        assert(seq![table[i]].drop_last() =~= Seq::<Registration>::empty());
    }
    let kept = table.filter(not_in(batch));
    assert(kept == kept_head + tail.filter(not_in(batch)));
    assert(tail.filter(not_in(batch))[0] == table[i]);
    assert(kept[kept_head.len() as int] == table[i]);
    assert(state.wait().table[kept_head.len() as int] == kept[kept_head.len() as int]);
}

} // verus!
