//! The limits and addresses a service is built with.

use crate::datagram::PeerAddr;
use vstd::prelude::*;

verus! {

/// The largest payload a datagram carries, in bytes.
pub const MAX_MESSAGE_SIZE: usize = 1500;

/// The number of replies that may wait for transmission on one source.
pub const MAX_OUTGOING_MESSAGES: usize = 8;

/// The number of ready sources one wait reports at most.
pub const MAX_EVENTS: usize = 16;

/// The port of the first (or only) socket.
pub const ECHO_PORT: u16 = 2000;

/// The number of sockets of a multi-socket service.
pub const NUM_SOCKETS: u16 = 10;

/// The IPv4 loopback address, 127.0.0.1.
pub const LOOPBACK: u32 = 0x7f00_0001;

/// What an engine and a poller are made with.
#[derive(Clone, Copy, Debug, PartialEq, Eq, Structural)]
pub struct Config {
    /// Bound on the payload of a datagram, and the size of a receive buffer.
    pub max_message_size: usize,
    /// Capacity of the queue of outgoing datagrams of each source.
    pub max_outgoing_messages: usize,
    /// Size of the batch of events one wait hands out.
    pub max_events: usize,
    /// Port of the first socket.
    pub first_port: u16,
    /// Number of sockets, bound to consecutive ports from `first_port` on.
    pub port_count: u16,
}

impl Config {
    /// The port of the socket with the given index, counted from zero: the
    /// sockets take consecutive ports. There is none for an index at or
    /// past `port_count`, nor where the port number would pass 65535.
    pub open spec fn spec_port(self, index: u16) -> Option<u16> {
        if index < self.port_count && self.first_port + index <= u16::MAX {
            Some((self.first_port + index) as u16)
        } else {
            None
        }
    }

    /// True when every socket of the configuration has a port.
    pub open spec fn spec_ports_fit(self) -> bool {
        self.port_count == 0 || self.first_port + self.port_count - 1 <= u16::MAX
    }

    /// The customary limits, for a single echo socket on port 2000.
    pub open spec fn spec_standard() -> Config {
        Config {
            max_message_size: 1500,
            max_outgoing_messages: 8,
            max_events: 16,
            first_port: 2000,
            port_count: 1,
        }
    }

    /// Computes [`Config::spec_standard`].
    pub fn standard() -> (config: Config)
        ensures
            config == Config::spec_standard(),
            config.spec_ports_fit(),
    {
        Config {
            max_message_size: MAX_MESSAGE_SIZE,
            max_outgoing_messages: MAX_OUTGOING_MESSAGES,
            max_events: MAX_EVENTS,
            first_port: ECHO_PORT,
            port_count: 1,
        }
    }

    /// Ten sockets on ports 2000 to 2009 with the customary limits.
    pub fn multi_socket() -> (config: Config)
        ensures
            config == (Config { port_count: 10, ..Config::spec_standard() }),
            config.spec_ports_fit(),
    {
        Config {
            max_message_size: MAX_MESSAGE_SIZE,
            max_outgoing_messages: MAX_OUTGOING_MESSAGES,
            max_events: MAX_EVENTS,
            first_port: ECHO_PORT,
            port_count: NUM_SOCKETS,
        }
    }

    /// Computes [`Config::spec_port`].
    pub fn port(&self, index: u16) -> (port: Option<u16>)
        ensures
            port == self.spec_port(index),
    {
        if index < self.port_count {
            self.first_port.checked_add(index)
        } else {
            None
        }
    }

    /// The address the socket with the given index is bound to: the
    /// loopback address and the port of the socket.
    pub open spec fn spec_bind_addr(self, index: u16) -> Option<PeerAddr> {
        match self.spec_port(index) {
            Some(port) => Some(PeerAddr { ip: 0x7f00_0001, port }),
            None => None,
        }
    }

    /// Computes [`Config::spec_bind_addr`].
    pub fn bind_addr(&self, index: u16) -> (addr: Option<PeerAddr>)
        ensures
            addr == self.spec_bind_addr(index),
    {
        match self.port(index) {
            Some(port) => Some(PeerAddr { ip: LOOPBACK, port }),
            None => None,
        }
    }

    /// Computes [`Config::spec_ports_fit`].
    pub fn ports_fit(&self) -> (fit: bool)
        ensures
            fit == self.spec_ports_fit(),
    {
        self.port_count == 0 || self.port_count - 1 <= u16::MAX - self.first_port
    }
}

impl Default for Config {
    fn default() -> (config: Config)
        ensures
            config == Config::spec_standard(),
    {
        Config::standard()
    }
}

/// Every index below `port_count` has a port exactly when the ports fit, and
/// the ports of two different indices differ.
pub proof fn lemma_ports_consecutive(config: Config, i: u16, j: u16)
    requires
        config.spec_ports_fit(),
        i < config.port_count,
        j < config.port_count,
    ensures
        config.spec_port(i) == Some((config.first_port + i) as u16),
        i != j ==> config.spec_port(i) != config.spec_port(j),
{
}

} // verus!
