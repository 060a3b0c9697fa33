//! A server that starts one task for each of its sockets, once.

use vstd::prelude::*;

verus! {

/// A task to start: the socket it serves and the number it is known by.
#[derive(Debug, PartialEq, Eq)]
pub struct Spawn<T> {
    pub id: usize,
    pub socket: T,
}

/// The tasks for `sockets`, numbered from zero in the order of the sockets.
pub open spec fn spawns<T>(sockets: Seq<T>) -> Seq<Spawn<T>> {
    Seq::new(sockets.len(), |i: int| Spawn { id: i as usize, socket: sockets[i] })
}

/// Collects sockets and, at its first poll, hands each of them out to be
/// served by a task of its own. The server itself never completes.
#[derive(Debug)]
pub struct UdpMultiServer<T> {
    started: bool,
    sockets: Vec<T>,
}

impl<T> UdpMultiServer<T> {
    /// True once the first poll has handed the sockets out.
    pub closed spec fn started(&self) -> bool {
        self.started
    }

    /// The sockets added and not handed out.
    pub closed spec fn sockets(&self) -> Seq<T> {
        self.sockets@
    }

    /// A server without sockets that was not polled yet.
    pub fn new() -> (server: UdpMultiServer<T>)
        ensures
            !server.started(),
            server.sockets() == Seq::<T>::empty(),
    {
        UdpMultiServer { started: false, sockets: Vec::new() }
    }

    /// Adds a socket to those the server will hand out.
    pub fn add(&mut self, socket: T)
        ensures
            final(self).started() == old(self).started(),
            final(self).sockets() == old(self).sockets().push(socket),
    {
        self.sockets.push(socket);
    }

    /// Polls the server. The first poll returns a task for every socket
    /// added so far, numbered from zero in the order in which the sockets
    /// were added, and leaves the server without sockets. Every later poll
    /// returns nothing and changes nothing.
    pub fn poll(&mut self) -> (tasks: Vec<Spawn<T>>)
        ensures
            final(self).started(),
            !old(self).started() ==> tasks@ == spawns(old(self).sockets()) && final(self).sockets()
                == Seq::<T>::empty(),
            old(self).started() ==> tasks@ == Seq::<Spawn<T>>::empty() && final(self).sockets()
                == old(self).sockets(),
    {
        let mut tasks: Vec<Spawn<T>> = Vec::new();
        if !self.started {
            let total: usize = self.sockets.len();
            let mut id: usize = 0;
            while self.sockets.len() > 0
                invariant
                    !self.started,
                    total == old(self).sockets@.len(),
                    id + self.sockets@.len() == total,
                    self.sockets@ == old(self).sockets@.skip(id as int),
                    tasks@ == spawns(old(self).sockets@.take(id as int)),
                decreases self.sockets@.len(),
            {
                let socket = self.sockets.remove(0);
                tasks.push(Spawn { id, socket });
                id += 1;
                assert(self.sockets@ =~= old(self).sockets@.skip(id as int));
                assert(tasks@ =~= spawns(old(self).sockets@.take(id as int)));
            }
            assert(old(self).sockets@.take(id as int) =~= old(self).sockets@);
            self.started = true;
        }
        tasks
    }
}

} // verus!
