//! A future that is done after a fixed number of polls and, until then,
//! arranges for its own next poll.

use vstd::prelude::*;

verus! {

/// The number of the poll at which a [`MyFuture`] completes.
pub const POLLS_TO_COMPLETE: usize = 10;

/// The delay, in seconds, after which an unfinished [`MyFuture`] wants its
/// task to be notified.
pub const NOTIFY_DELAY_SECONDS: u64 = 1;

/// How a poll of a [`MyFuture`] ends.
#[derive(Clone, Copy, Debug, PartialEq, Eq, Structural)]
pub enum Progress {
    /// Not done: notify the task after this many seconds, so that the
    /// future is polled again.
    NotReady { notify_after_seconds: u64 },
    /// Done.
    Ready,
}

/// What the poll that brings the count to `count` answers: the polls
/// before the tenth ask to be notified after a second, the tenth and all
/// later ones report completion.
pub open spec fn progress_at(count: nat) -> Progress {
    if count < 10 {
        Progress::NotReady { notify_after_seconds: 1 }
    } else {
        Progress::Ready
    }
}

/// A future that counts how often it was polled.
#[derive(Debug)]
pub struct MyFuture {
    count: usize,
}

impl View for MyFuture {
    type V = nat;

    /// The number of polls so far.
    closed spec fn view(&self) -> nat {
        self.count as nat
    }
}

impl MyFuture {
    /// A future that was never polled.
    pub fn new() -> (future: MyFuture)
        ensures
            future@ == 0,
    {
        MyFuture { count: 0 }
    }

    /// Counts one poll and says how it ends.
    pub fn poll(&mut self) -> (progress: Progress)
        requires
            old(self)@ < usize::MAX,
        ensures
            final(self)@ == old(self)@ + 1,
            progress == progress_at(final(self)@),
    {
        self.count += 1;
        if self.count < POLLS_TO_COMPLETE {
            Progress::NotReady { notify_after_seconds: NOTIFY_DELAY_SECONDS }
        } else {
            Progress::Ready
        }
    }

    /// The number of polls so far.
    pub fn count(&self) -> (count: usize)
        ensures
            count == self@,
    {
        self.count
    }
}

/// A new future is not ready at any of its first nine polls and is ready at
/// the tenth.
pub proof fn lemma_ready_at_tenth_poll(count: nat)
    ensures
        progress_at(count) is Ready <==> count >= 10,
        1 <= count <= 9 ==> progress_at(count) == (Progress::NotReady { notify_after_seconds: 1 }),
        progress_at(10) == Progress::Ready,
{
}

} // verus!
