//! Interest masks, readiness reports, triggering modes and source tokens.

use vstd::prelude::*;

verus! {

/// How a poller reports a condition that keeps holding.
#[derive(Clone, Copy, Debug, PartialEq, Eq, Structural)]
pub enum TriggerMode {
    /// The condition is reported by every wait for as long as it holds.
    Level,
    /// The condition is reported once, when it starts to hold.
    Edge,
}

/// The opaque number under which a source is known to the poller.
#[derive(Clone, Copy, Debug, PartialEq, Eq, Structural)]
pub struct Token(pub usize);

/// The conditions a source wants to be told about.
#[derive(Clone, Copy, Debug, PartialEq, Eq, Structural)]
pub struct Interest {
    pub read: bool,
    pub write: bool,
}

/// The conditions a poller found on a source in one wait.
#[derive(Clone, Copy, Debug, PartialEq, Eq, Structural)]
pub struct Readiness {
    pub readable: bool,
    pub writable: bool,
}

/// One line of a wait's result: a source and what it is ready for.
#[derive(Clone, Copy, Debug, PartialEq, Eq, Structural)]
pub struct ReadyEntry {
    pub token: Token,
    pub readiness: Readiness,
}

impl Interest {
    /// The mask an echo source needs when `backlog` replies are waiting:
    /// it always listens, and asks for writability exactly while there is
    /// something to send.
    pub open spec fn for_backlog(backlog: nat) -> Interest {
        Interest { read: true, write: backlog > 0 }
    }

    /// The mask of a source that only listens.
    pub fn read_only() -> (mask: Interest)
        ensures
            mask == (Interest { read: true, write: false }),
            mask == Interest::for_backlog(0),
    {
        Interest { read: true, write: false }
    }

    /// The mask of a source that listens and has replies to send.
    pub fn read_write() -> (mask: Interest)
        ensures
            mask == (Interest { read: true, write: true }),
    {
        Interest { read: true, write: true }
    }

    /// Computes [`Interest::for_backlog`] for a queue of `backlog` replies.
    pub fn desired(backlog: usize) -> (mask: Interest)
        ensures
            mask == Interest::for_backlog(backlog as nat),
    {
        Interest { read: true, write: backlog > 0 }
    }
}

impl Readiness {
    /// What is left of a report once the conditions nobody asked for are
    /// taken out.
    pub open spec fn spec_masked(self, interest: Interest) -> Readiness {
        Readiness {
            readable: self.readable && interest.read,
            writable: self.writable && interest.write,
        }
    }

    /// The conditions that hold in either report.
    pub open spec fn spec_merged(self, other: Readiness) -> Readiness {
        Readiness {
            readable: self.readable || other.readable,
            writable: self.writable || other.writable,
        }
    }

    /// True when no condition holds.
    pub open spec fn spec_is_empty(self) -> bool {
        !self.readable && !self.writable
    }

    /// A report in which nothing is ready.
    pub fn empty() -> (report: Readiness)
        ensures
            report == (Readiness { readable: false, writable: false }),
            report.spec_is_empty(),
    {
        Readiness { readable: false, writable: false }
    }

    /// A report of readability alone.
    pub fn readable() -> (report: Readiness)
        ensures
            report == (Readiness { readable: true, writable: false }),
    {
        Readiness { readable: true, writable: false }
    }

    /// A report of writability alone.
    pub fn writable() -> (report: Readiness)
        ensures
            report == (Readiness { readable: false, writable: true }),
    {
        Readiness { readable: false, writable: true }
    }

    /// Computes [`Readiness::spec_masked`].
    pub fn masked(self, interest: Interest) -> (report: Readiness)
        ensures
            report == self.spec_masked(interest),
    {
        Readiness {
            readable: self.readable && interest.read,
            writable: self.writable && interest.write,
        }
    }

    /// Computes [`Readiness::spec_merged`].
    pub fn merged(self, other: Readiness) -> (report: Readiness)
        ensures
            report == self.spec_merged(other),
    {
        Readiness {
            readable: self.readable || other.readable,
            writable: self.writable || other.writable,
        }
    }

    /// Computes [`Readiness::spec_is_empty`].
    pub fn is_empty(&self) -> (empty: bool)
        ensures
            empty == self.spec_is_empty(),
    {
        !self.readable && !self.writable
    }
}

/// The flags that the lines of `reports` hold for `token`: a condition is
/// set when at least one line that names the token reports it.
pub open spec fn spec_flags_for(reports: Seq<ReadyEntry>, token: Token) -> Readiness {
    Readiness {
        readable: exists|i: int|
            0 <= i < reports.len() && (#[trigger] reports[i]).token == token
                && reports[i].readiness.readable,
        writable: exists|i: int|
            0 <= i < reports.len() && (#[trigger] reports[i]).token == token
                && reports[i].readiness.writable,
    }
}

/// Computes [`spec_flags_for`]: gathers what one wait reported of one
/// source.
pub fn flags_for(reports: &Vec<ReadyEntry>, token: Token) -> (flags: Readiness)
    ensures
        flags == spec_flags_for(reports@, token),
{
    let mut flags = Readiness { readable: false, writable: false };
    let mut k: usize = 0;
    while k < reports.len()
        invariant
            k <= reports@.len(),
            flags == spec_flags_for(reports@.take(k as int), token),
        decreases reports@.len() - k,
    {
        let entry = reports[k];
        let ghost before = reports@.take(k as int);
        let ghost after = reports@.take(k + 1);
        proof {
            assert(after =~= before.push(entry));
            assert(forall|i: int| 0 <= i < before.len() ==> before[i] == after[i]);
            assert(after[k as int] == entry);
        }
        if entry.token.0 == token.0 {
            flags = flags.merged(entry.readiness);
        }
        k += 1;
        proof {
            let target = spec_flags_for(after, token);
            if flags.readable {
                if spec_flags_for(before, token).readable {
                    let i = choose|i: int|
                        0 <= i < before.len() && (#[trigger] before[i]).token == token
                            && before[i].readiness.readable;
                    assert(after[i].token == token && after[i].readiness.readable);
                } else {
                    assert(after[k - 1].token == token && after[k - 1].readiness.readable);
                }
            }
            if target.readable {
                let i = choose|i: int|
                    0 <= i < after.len() && (#[trigger] after[i]).token == token
                        && after[i].readiness.readable;
                if i < k - 1 {
                    assert(before[i].token == token && before[i].readiness.readable);
                }
            }
            if flags.writable {
                if spec_flags_for(before, token).writable {
                    let i = choose|i: int|
                        0 <= i < before.len() && (#[trigger] before[i]).token == token
                            && before[i].readiness.writable;
                    assert(after[i].token == token && after[i].readiness.writable);
                } else {
                    assert(after[k - 1].token == token && after[k - 1].readiness.writable);
                }
            }
            if target.writable {
                let i = choose|i: int|
                    0 <= i < after.len() && (#[trigger] after[i]).token == token
                        && after[i].readiness.writable;
                if i < k - 1 {
                    assert(before[i].token == token && before[i].readiness.writable);
                }
            }
        }
    }
    assert(reports@.take(k as int) =~= reports@);
    flags
}

} // verus!
