use echo_mux::config::Config;
use echo_mux::datagram::{Datagram, PeerAddr};
use echo_mux::engine::{Action, Engine, Event, Refusal};
use echo_mux::interest::{Interest, Readiness, TriggerMode};
use std::collections::VecDeque;

const READ_ONLY: Interest = Interest { read: true, write: false };
const READ_WRITE: Interest = Interest { read: true, write: true };

fn peer_a() -> PeerAddr {
    PeerAddr { ip: 0x7f00_0001, port: 40001 }
}

fn peer_b() -> PeerAddr {
    PeerAddr { ip: 0x7f00_0001, port: 40002 }
}

fn from_a(bytes: &[u8]) -> Datagram {
    Datagram::new(bytes.to_vec(), peer_a())
}

fn from_b(bytes: &[u8]) -> Datagram {
    Datagram::new(bytes.to_vec(), peer_b())
}

fn ready(readable: bool, writable: bool) -> Event {
    Event::Ready(Readiness { readable, writable })
}

fn with_capacity(capacity: usize) -> Config {
    Config { max_outgoing_messages: capacity, ..Config::standard() }
}

/// A socket made of a list of datagrams that have arrived and a number of
/// datagrams it takes before it would block.
struct Wire {
    inbound: VecDeque<Datagram>,
    room: usize,
    sent: Vec<Datagram>,
    dropped: usize,
}

/// Wakes the engine and performs what it asks for until it waits again.
fn turn(engine: &mut Engine, wire: &mut Wire, flags: Readiness) -> Interest {
    let mut action = engine.step(Event::Ready(flags)).unwrap();
    loop {
        action = match action {
            Action::Receive => match wire.inbound.pop_front() {
                Some(datagram) => {
                    if !engine.has_room() {
                        wire.dropped += 1;
                    }
                    engine.step(Event::Received(datagram)).unwrap()
                }
                None => engine.step(Event::ReceiveWouldBlock).unwrap(),
            },
            Action::Transmit => {
                if wire.room > 0 {
                    wire.room -= 1;
                    wire.sent.push(engine.in_flight().unwrap().clone());
                    engine.step(Event::Transmitted).unwrap()
                } else {
                    engine.step(Event::TransmitWouldBlock).unwrap()
                }
            }
            Action::Wait(interest) => return interest,
            Action::ClearSignal => panic!("an engine has no signal"),
            Action::Halt => panic!("nothing failed"),
        };
    }
}

#[test]
fn new_engine_waits_for_read() {
    let engine = Engine::new(TriggerMode::Edge, &Config::standard());
    assert_eq!(engine.pending(), Action::Wait(READ_ONLY));
    assert_eq!(engine.interest(), READ_ONLY);
    assert_eq!(engine.queued(), 0);
    assert!(engine.in_flight().is_none());
    assert!(engine.has_room());
    assert!(!engine.is_halted());
    assert_eq!(engine.mode(), TriggerMode::Edge);
}

#[test]
fn wake_without_flags_waits_again() {
    let mut engine = Engine::new(TriggerMode::Level, &Config::standard());
    assert_eq!(engine.step(ready(false, false)), Ok(Action::Wait(READ_ONLY)));
    assert_eq!(engine.step(ready(false, true)), Ok(Action::Wait(READ_ONLY)));
}

#[test]
fn level_engine_echoes_one_datagram() {
    let mut engine = Engine::new(TriggerMode::Level, &Config::standard());
    assert_eq!(engine.step(ready(true, false)), Ok(Action::Receive));
    assert_eq!(engine.step(Event::Received(from_a(b"hello"))), Ok(Action::Wait(READ_WRITE)));
    assert_eq!(engine.queued(), 1);
    assert_eq!(engine.step(ready(false, true)), Ok(Action::Transmit));
    assert_eq!(engine.in_flight(), Some(&from_a(b"hello")));
    assert_eq!(engine.queued(), 0);
    assert_eq!(engine.step(Event::Transmitted), Ok(Action::Wait(READ_ONLY)));
    assert!(engine.in_flight().is_none());
}

#[test]
fn level_engine_makes_one_attempt_per_notification() {
    let mut engine = Engine::new(TriggerMode::Level, &Config::standard());
    assert_eq!(engine.step(ready(true, true)), Ok(Action::Receive));
    // One receive, then one transmit, then back to the poller, although
    // more could be read and written.
    assert_eq!(engine.step(Event::Received(from_a(b"1"))), Ok(Action::Transmit));
    assert_eq!(engine.in_flight(), Some(&from_a(b"1")));
    assert_eq!(engine.step(Event::Transmitted), Ok(Action::Wait(READ_ONLY)));
    assert_eq!(engine.step(ready(true, true)), Ok(Action::Receive));
    assert_eq!(engine.step(Event::Received(from_a(b"2"))), Ok(Action::Transmit));
    assert_eq!(engine.step(Event::TransmitWouldBlock), Ok(Action::Wait(READ_WRITE)));
    assert_eq!(engine.queued(), 1);
}

#[test]
fn level_engine_clears_readable_on_would_block() {
    let mut engine = Engine::new(TriggerMode::Level, &Config::standard());
    assert_eq!(engine.step(ready(true, false)), Ok(Action::Receive));
    assert_eq!(engine.step(Event::ReceiveWouldBlock), Ok(Action::Wait(READ_ONLY)));
}

#[test]
fn edge_engine_tries_to_write_after_admitting() {
    let mut engine = Engine::new(TriggerMode::Edge, &Config::standard());
    assert_eq!(engine.step(ready(true, false)), Ok(Action::Receive));
    assert_eq!(engine.step(Event::Received(from_a(b"ping"))), Ok(Action::Receive));
    // Writability was never reported, yet the engine attempts the write.
    assert_eq!(engine.step(Event::ReceiveWouldBlock), Ok(Action::Transmit));
    assert_eq!(engine.in_flight(), Some(&from_a(b"ping")));
    assert_eq!(engine.step(Event::Transmitted), Ok(Action::Wait(READ_ONLY)));
}

#[test]
fn edge_engine_reads_all_of_a_burst() {
    let mut engine = Engine::new(TriggerMode::Edge, &Config::standard());
    assert_eq!(engine.step(ready(true, false)), Ok(Action::Receive));
    for n in 0..5u8 {
        // Every datagram is followed by the request for the next one.
        assert_eq!(engine.step(Event::Received(from_a(&[n]))), Ok(Action::Receive));
    }
    assert_eq!(engine.queued(), 5);
    assert_eq!(engine.step(Event::ReceiveWouldBlock), Ok(Action::Transmit));
}

#[test]
fn edge_engine_reads_on_when_the_queue_is_full() {
    let mut engine = Engine::new(TriggerMode::Edge, &with_capacity(2));
    assert_eq!(engine.step(ready(true, false)), Ok(Action::Receive));
    for n in 0..20u8 {
        assert_eq!(engine.step(Event::Received(from_a(&[n]))), Ok(Action::Receive));
        assert!(engine.queued() <= 2);
    }
    assert_eq!(engine.queued(), 2);
}

#[test]
fn edge_engine_drains_queue_until_would_block() {
    let mut engine = Engine::new(TriggerMode::Edge, &Config::standard());
    engine.step(ready(true, false)).unwrap();
    for n in 0..4u8 {
        engine.step(Event::Received(from_a(&[n]))).unwrap();
    }
    assert_eq!(engine.step(Event::ReceiveWouldBlock), Ok(Action::Transmit));
    assert_eq!(engine.in_flight(), Some(&from_a(&[0])));
    assert_eq!(engine.step(Event::Transmitted), Ok(Action::Transmit));
    assert_eq!(engine.in_flight(), Some(&from_a(&[1])));
    assert_eq!(engine.step(Event::Transmitted), Ok(Action::Transmit));
    assert_eq!(engine.in_flight(), Some(&from_a(&[2])));
    assert_eq!(engine.step(Event::TransmitWouldBlock), Ok(Action::Wait(READ_WRITE)));
    assert!(engine.in_flight().is_none());
    assert_eq!(engine.queued(), 2);
    // The datagram that could not be sent is the first to go next time.
    assert_eq!(engine.step(ready(false, true)), Ok(Action::Transmit));
    assert_eq!(engine.in_flight(), Some(&from_a(&[2])));
    assert_eq!(engine.step(Event::Transmitted), Ok(Action::Transmit));
    assert_eq!(engine.in_flight(), Some(&from_a(&[3])));
    assert_eq!(engine.step(Event::Transmitted), Ok(Action::Wait(READ_ONLY)));
}

#[test]
fn would_block_requeues_at_the_front() {
    let mut engine = Engine::new(TriggerMode::Level, &Config::standard());
    for n in 1..=3u8 {
        engine.step(ready(true, false)).unwrap();
        engine.step(Event::Received(from_a(&[n]))).unwrap();
    }
    assert_eq!(engine.queued(), 3);
    assert_eq!(engine.step(ready(false, true)), Ok(Action::Transmit));
    assert_eq!(engine.in_flight(), Some(&from_a(&[1])));
    assert_eq!(engine.queued(), 2);
    assert_eq!(engine.step(Event::TransmitWouldBlock), Ok(Action::Wait(READ_WRITE)));
    assert_eq!(engine.queued(), 3);
    let mut order = Vec::new();
    for _ in 0..3 {
        assert_eq!(engine.step(ready(false, true)), Ok(Action::Transmit));
        order.push(engine.in_flight().unwrap().clone());
        engine.step(Event::Transmitted).unwrap();
    }
    assert_eq!(order, vec![from_a(&[1]), from_a(&[2]), from_a(&[3])]);
}

#[test]
fn write_interest_follows_the_queue() {
    let mut engine = Engine::new(TriggerMode::Level, &Config::standard());
    assert_eq!(engine.interest(), READ_ONLY);
    engine.step(ready(true, false)).unwrap();
    assert_eq!(engine.step(Event::Received(from_a(b"x"))), Ok(Action::Wait(READ_WRITE)));
    assert_eq!(engine.interest(), READ_WRITE);
    engine.step(ready(true, false)).unwrap();
    assert_eq!(engine.step(Event::Received(from_a(b"y"))), Ok(Action::Wait(READ_WRITE)));
    assert_eq!(engine.step(ready(false, true)), Ok(Action::Transmit));
    assert_eq!(engine.step(Event::Transmitted), Ok(Action::Wait(READ_WRITE)));
    assert_eq!(engine.step(ready(false, true)), Ok(Action::Transmit));
    assert_eq!(engine.step(Event::Transmitted), Ok(Action::Wait(READ_ONLY)));
    assert_eq!(engine.interest(), READ_ONLY);
}

#[test]
fn every_wait_asks_for_read_and_for_write_iff_queued() {
    for mode in [TriggerMode::Level, TriggerMode::Edge] {
        let mut engine = Engine::new(mode, &with_capacity(3));
        let mut wire = Wire { inbound: VecDeque::new(), room: 0, sent: Vec::new(), dropped: 0 };
        for round in 0..40u8 {
            if round % 3 != 2 {
                wire.inbound.push_back(from_a(&[round]));
            }
            wire.room = (round % 4 == 0) as usize * 2;
            let flags = Readiness { readable: round % 2 == 0, writable: round % 5 != 1 };
            let interest = turn(&mut engine, &mut wire, flags);
            assert!(interest.read);
            assert_eq!(interest.write, engine.queued() > 0);
            assert_eq!(interest, engine.interest());
            assert!(engine.queued() <= 3);
        }
    }
}

#[test]
fn echo_is_exact_for_empty_and_largest_payload() {
    for mode in [TriggerMode::Level, TriggerMode::Edge] {
        let mut engine = Engine::new(mode, &Config::standard());
        let largest: Vec<u8> = (0..1500u32).map(|i| (i % 251) as u8).collect();
        let mut wire = Wire {
            inbound: VecDeque::from(vec![from_a(b""), from_a(&largest), from_a(b"\0\xff")]),
            room: 10,
            sent: Vec::new(),
            dropped: 0,
        };
        for _ in 0..6 {
            turn(&mut engine, &mut wire, Readiness { readable: true, writable: true });
        }
        assert_eq!(wire.sent, vec![from_a(b""), from_a(&largest), from_a(b"\0\xff")]);
        assert_eq!(wire.sent[1].payload.len(), 1500);
        assert_eq!(wire.sent[1].peer, peer_a());
        assert_eq!(wire.dropped, 0);
        assert_eq!(engine.queued(), 0);
    }
}

#[test]
fn payload_over_the_limit_is_refused() {
    let mut engine = Engine::new(TriggerMode::Edge, &Config::standard());
    engine.step(ready(true, false)).unwrap();
    assert_eq!(
        engine.step(Event::Received(from_a(&[0u8; 1501]))),
        Err(Refusal::PayloadTooLarge)
    );
    assert_eq!(engine.queued(), 0);
    assert_eq!(engine.pending(), Action::Receive);
    assert_eq!(engine.step(Event::Received(from_a(&[0u8; 1500]))), Ok(Action::Receive));
    assert_eq!(engine.queued(), 1);
}

#[test]
fn ten_datagrams_into_capacity_eight_edge() {
    let mut engine = Engine::new(TriggerMode::Edge, &with_capacity(8));
    let mut wire = Wire {
        inbound: (0..10u8).map(|n| from_a(&[n])).collect(),
        room: 0,
        sent: Vec::new(),
        dropped: 0,
    };
    let interest = turn(&mut engine, &mut wire, Readiness { readable: true, writable: false });
    assert_eq!(engine.queued(), 8);
    assert_eq!(wire.dropped, 2);
    assert!(wire.sent.is_empty());
    assert_eq!(interest, READ_WRITE);
    wire.room = 100;
    let interest = turn(&mut engine, &mut wire, Readiness { readable: false, writable: true });
    assert_eq!(interest, READ_ONLY);
    let expected: Vec<Datagram> = (0..8u8).map(|n| from_a(&[n])).collect();
    assert_eq!(wire.sent, expected);
    assert_eq!(engine.queued(), 0);
}

#[test]
fn ten_datagrams_into_capacity_eight_level() {
    let mut engine = Engine::new(TriggerMode::Level, &with_capacity(8));
    let mut wire = Wire {
        inbound: (0..10u8).map(|n| from_a(&[n])).collect(),
        room: 0,
        sent: Vec::new(),
        dropped: 0,
    };
    for _ in 0..10 {
        turn(&mut engine, &mut wire, Readiness { readable: true, writable: false });
    }
    assert_eq!(engine.queued(), 8);
    assert_eq!(wire.dropped, 2);
    assert!(wire.inbound.is_empty());
    wire.room = 100;
    for left in (0..8usize).rev() {
        let interest = turn(&mut engine, &mut wire, Readiness { readable: false, writable: true });
        assert_eq!(engine.queued(), left);
        assert_eq!(interest.write, left > 0);
    }
    let expected: Vec<Datagram> = (0..8u8).map(|n| from_a(&[n])).collect();
    assert_eq!(wire.sent, expected);
}

#[test]
fn two_peers_in_one_cycle_are_both_echoed() {
    for mode in [TriggerMode::Level, TriggerMode::Edge] {
        let mut engine = Engine::new(mode, &Config::standard());
        let mut wire = Wire {
            inbound: VecDeque::from(vec![from_a(b"from a"), from_b(b"from b")]),
            room: 10,
            sent: Vec::new(),
            dropped: 0,
        };
        for _ in 0..4 {
            turn(&mut engine, &mut wire, Readiness { readable: true, writable: true });
        }
        assert_eq!(wire.sent.len(), 2);
        assert!(wire.sent.contains(&from_a(b"from a")));
        assert!(wire.sent.contains(&from_b(b"from b")));
        assert_eq!(engine.queued(), 0);
    }
}

#[test]
fn each_peer_is_answered_in_its_own_order() {
    let mut engine = Engine::new(TriggerMode::Edge, &Config::standard());
    let mut wire = Wire {
        inbound: VecDeque::from(vec![
            from_a(b"a1"),
            from_b(b"b1"),
            from_a(b"a2"),
            from_b(b"b2"),
            from_a(b"a3"),
        ]),
        room: 2,
        sent: Vec::new(),
        dropped: 0,
    };
    turn(&mut engine, &mut wire, Readiness { readable: true, writable: false });
    wire.room = 1;
    turn(&mut engine, &mut wire, Readiness { readable: false, writable: true });
    wire.room = 5;
    turn(&mut engine, &mut wire, Readiness { readable: false, writable: true });
    let to_a: Vec<&Datagram> = wire.sent.iter().filter(|d| d.peer == peer_a()).collect();
    let to_b: Vec<&Datagram> = wire.sent.iter().filter(|d| d.peer == peer_b()).collect();
    assert_eq!(to_a, vec![&from_a(b"a1"), &from_a(b"a2"), &from_a(b"a3")]);
    assert_eq!(to_b, vec![&from_b(b"b1"), &from_b(b"b2")]);
}

#[test]
fn event_that_answers_nothing_is_refused() {
    let mut engine = Engine::new(TriggerMode::Edge, &Config::standard());
    assert_eq!(engine.step(Event::Received(from_a(b"x"))), Err(Refusal::UnexpectedEvent));
    assert_eq!(engine.step(Event::ReceiveWouldBlock), Err(Refusal::UnexpectedEvent));
    assert_eq!(engine.step(Event::Transmitted), Err(Refusal::UnexpectedEvent));
    assert_eq!(engine.step(Event::TransmitWouldBlock), Err(Refusal::UnexpectedEvent));
    assert_eq!(engine.step(Event::SignalCleared), Err(Refusal::UnexpectedEvent));
    assert_eq!(engine.pending(), Action::Wait(READ_ONLY));
    assert_eq!(engine.step(ready(true, false)), Ok(Action::Receive));
    assert_eq!(engine.step(ready(true, false)), Err(Refusal::UnexpectedEvent));
    assert_eq!(engine.step(Event::Transmitted), Err(Refusal::UnexpectedEvent));
    assert_eq!(engine.pending(), Action::Receive);
}

#[test]
fn refusal_of_says_what_step_would_do() {
    let mut engine = Engine::new(TriggerMode::Level, &Config::standard());
    assert_eq!(engine.refusal_of(&ready(true, true)), None);
    assert_eq!(engine.refusal_of(&Event::Transmitted), Some(Refusal::UnexpectedEvent));
    engine.step(ready(true, true)).unwrap();
    assert_eq!(engine.refusal_of(&ready(true, true)), Some(Refusal::UnexpectedEvent));
    assert_eq!(engine.refusal_of(&Event::Received(from_a(&[1u8; 1501]))), Some(Refusal::PayloadTooLarge));
    assert_eq!(engine.refusal_of(&Event::Received(from_a(&[1u8; 3]))), None);
    assert_eq!(engine.refusal_of(&Event::Failed), None);
    assert_eq!(engine.pending(), Action::Receive);
}

#[test]
fn failure_halts_the_engine_for_good() {
    let mut engine = Engine::new(TriggerMode::Edge, &Config::standard());
    engine.step(ready(true, false)).unwrap();
    engine.step(Event::Received(from_a(b"kept"))).unwrap();
    assert_eq!(engine.step(Event::Failed), Ok(Action::Halt));
    assert!(engine.is_halted());
    assert_eq!(engine.pending(), Action::Halt);
    assert_eq!(engine.step(ready(true, true)), Err(Refusal::Halted));
    assert_eq!(engine.step(Event::ReceiveWouldBlock), Err(Refusal::Halted));
    assert_eq!(engine.step(Event::Failed), Err(Refusal::Halted));
    assert_eq!(engine.refusal_of(&Event::Transmitted), Some(Refusal::Halted));
    assert_eq!(engine.queued(), 1);
}

#[test]
fn failure_of_the_wait_halts_too() {
    let mut engine = Engine::new(TriggerMode::Level, &Config::standard());
    assert_eq!(engine.refusal_of(&Event::Failed), None);
    assert_eq!(engine.step(Event::Failed), Ok(Action::Halt));
    assert!(engine.is_halted());
    assert_eq!(engine.step(ready(true, false)), Err(Refusal::Halted));
}

#[test]
fn failure_of_a_transmit_halts_too() {
    let mut engine = Engine::new(TriggerMode::Level, &Config::standard());
    engine.step(ready(true, true)).unwrap();
    assert_eq!(engine.step(Event::Received(from_a(b"x"))), Ok(Action::Transmit));
    assert_eq!(engine.step(Event::Failed), Ok(Action::Halt));
    assert_eq!(engine.step(Event::Transmitted), Err(Refusal::Halted));
}

#[test]
fn engine_without_queue_only_listens() {
    let mut engine = Engine::new(TriggerMode::Edge, &with_capacity(0));
    assert!(!engine.has_room());
    assert_eq!(engine.step(ready(true, true)), Ok(Action::Receive));
    assert_eq!(engine.step(Event::Received(from_a(b"a"))), Ok(Action::Receive));
    assert_eq!(engine.step(Event::Received(from_b(b"b"))), Ok(Action::Receive));
    assert_eq!(engine.step(Event::ReceiveWouldBlock), Ok(Action::Wait(READ_ONLY)));
    assert_eq!(engine.queued(), 0);
}
