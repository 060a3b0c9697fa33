//! Readiness-driven multiplexing for a datagram echo service.
//!
//! The crate holds the decisions of a non-blocking, connectionless echo
//! service and none of its input and output. A caller that owns the sockets
//! and the wait primitive tells the library what happened and is told what
//! to do next:
//!
//! * [`queue`] is the bounded first-in, first-out queue of datagrams that
//!   wait to be sent back;
//! * [`engine`] is the state machine of one source: it reads, queues, writes
//!   and says with which interest to wait, under level or edge triggering;
//! * [`history`] states what an engine does over whole sequences of events:
//!   nothing admitted is lost, changed or overtaken;
//! * [`poller`] is the registration table with the readiness of its
//!   sources and the bounded batches a wait hands out;
//! * [`signal`] is the source behind a signal handle, set from elsewhere;
//! * [`dispatcher`] maps tokens to sources and fans the result of a wait out
//!   to them;
//! * [`relay`] is the same service cut into a reader and a writer that are
//!   polled cooperatively and joined by a channel;
//! * [`spawner`] and [`notify`] are two small futures: one starts a task for
//!   each socket, one has itself polled again until it is done;
//! * [`config`], [`datagram`] and [`interest`] hold the plain values all of
//!   them speak in.

pub mod config;
pub mod datagram;
pub mod dispatcher;
pub mod engine;
pub mod history;
pub mod interest;
pub mod notify;
pub mod poller;
pub mod queue;
pub mod relay;
pub mod signal;
pub mod spawner;
