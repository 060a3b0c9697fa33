//! Datagrams and the addresses they came from.

use vstd::prelude::*;

verus! {

/// The IPv4 address and port of a peer.
///
/// `ip` holds the four octets of the address, the first octet in the most
/// significant byte.
#[derive(Clone, Copy, Debug, PartialEq, Eq, Hash, Structural)]
pub struct PeerAddr {
    pub ip: u32,
    pub port: u16,
}

/// One received datagram: its bytes and the peer that sent them, which is
/// also where the echo goes.
#[derive(Clone, Debug, PartialEq, Eq)]
pub struct Datagram {
    pub payload: Vec<u8>,
    pub peer: PeerAddr,
}

/// The mathematical value of a [`Datagram`].
pub struct DatagramView {
    pub payload: Seq<u8>,
    pub peer: PeerAddr,
}

impl View for Datagram {
    type V = DatagramView;

    open spec fn view(&self) -> DatagramView {
        DatagramView { payload: self.payload@, peer: self.peer }
    }
}

impl Datagram {
    /// A datagram of the given bytes from `peer`.
    pub fn new(payload: Vec<u8>, peer: PeerAddr) -> (datagram: Datagram)
        ensures
            datagram@ == (DatagramView { payload: payload@, peer }),
    {
        Datagram { payload, peer }
    }

    /// Captures what a receive left in `buffer`: the first `nbytes` bytes,
    /// together with the sender.
    pub fn capture(buffer: &[u8], nbytes: usize, peer: PeerAddr) -> (datagram: Datagram)
        requires
            nbytes <= buffer@.len(),
        ensures
            datagram@ == (DatagramView { payload: buffer@.subrange(0, nbytes as int), peer }),
    {
        let mut payload: Vec<u8> = Vec::with_capacity(nbytes);
        let mut i: usize = 0;
        while i < nbytes
            invariant
                i <= nbytes <= buffer@.len(),
                payload@ == buffer@.subrange(0, i as int),
            decreases nbytes - i,
        {
            payload.push(buffer[i]);
            i += 1;
            assert(payload@ =~= buffer@.subrange(0, i as int));
        }
        Datagram { payload, peer }
    }

    /// The number of payload bytes.
    pub fn len(&self) -> (n: usize)
        ensures
            n == self@.payload.len(),
    {
        self.payload.len()
    }
}

} // verus!
