use echo_mux::config::{
    Config, ECHO_PORT, LOOPBACK, MAX_EVENTS, MAX_MESSAGE_SIZE, MAX_OUTGOING_MESSAGES, NUM_SOCKETS,
};
use echo_mux::datagram::{Datagram, PeerAddr};
use echo_mux::interest::{flags_for, Interest, Readiness, ReadyEntry, Token};

#[test]
fn customary_limits() {
    assert_eq!(MAX_MESSAGE_SIZE, 1500);
    assert_eq!(MAX_OUTGOING_MESSAGES, 8);
    assert_eq!(MAX_EVENTS, 16);
    assert_eq!(ECHO_PORT, 2000);
    assert_eq!(NUM_SOCKETS, 10);
    assert_eq!(LOOPBACK, 0x7f00_0001);
    let config = Config::standard();
    assert_eq!(
        config,
        Config {
            max_message_size: 1500,
            max_outgoing_messages: 8,
            max_events: 16,
            first_port: 2000,
            port_count: 1,
        }
    );
    assert_eq!(Config::default(), config);
    assert!(config.ports_fit());
}

#[test]
fn single_socket_has_one_port() {
    let config = Config::standard();
    assert_eq!(config.port(0), Some(2000));
    assert_eq!(config.port(1), None);
    assert_eq!(config.bind_addr(0), Some(PeerAddr { ip: 0x7f00_0001, port: 2000 }));
    assert_eq!(config.bind_addr(1), None);
}

#[test]
fn multi_socket_ports_are_consecutive() {
    let config = Config::multi_socket();
    assert_eq!(config.port_count, 10);
    for index in 0..10u16 {
        assert_eq!(config.port(index), Some(2000 + index));
    }
    assert_eq!(config.port(10), None);
    assert_eq!(config.bind_addr(9), Some(PeerAddr { ip: 0x7f00_0001, port: 2009 }));
    assert!(config.ports_fit());
}

#[test]
fn ports_past_the_end_of_the_range_do_not_exist() {
    let config = Config { first_port: 65530, port_count: 10, ..Config::standard() };
    assert!(!config.ports_fit());
    assert_eq!(config.port(5), Some(65535));
    assert_eq!(config.port(6), None);
    assert_eq!(config.bind_addr(6), None);
    let edge = Config { first_port: 65526, port_count: 10, ..Config::standard() };
    assert!(edge.ports_fit());
    assert_eq!(edge.port(9), Some(65535));
    let none = Config { first_port: 65535, port_count: 0, ..Config::standard() };
    assert!(none.ports_fit());
    assert_eq!(none.port(0), None);
}

#[test]
fn capture_takes_the_bytes_that_were_received() {
    let peer = PeerAddr { ip: 0x7f00_0001, port: 12345 };
    let mut buffer = [0u8; 1500];
    buffer[..5].copy_from_slice(b"hello");
    let datagram = Datagram::capture(&buffer, 5, peer);
    assert_eq!(datagram.payload, b"hello".to_vec());
    assert_eq!(datagram.peer, peer);
    assert_eq!(datagram.len(), 5);
    assert_eq!(Datagram::capture(&buffer, 0, peer).payload, Vec::<u8>::new());
    assert_eq!(Datagram::capture(&buffer, 1500, peer).len(), 1500);
    assert_eq!(Datagram::capture(&buffer, 1500, peer).payload, buffer.to_vec());
}

#[test]
fn datagram_new_keeps_bytes_and_peer() {
    let peer = PeerAddr { ip: 1, port: 2 };
    let datagram = Datagram::new(vec![9, 8, 7], peer);
    assert_eq!(datagram.payload, vec![9, 8, 7]);
    assert_eq!(datagram.peer, peer);
    assert_eq!(datagram.len(), 3);
}

#[test]
fn interest_for_a_backlog() {
    assert_eq!(Interest::desired(0), Interest { read: true, write: false });
    assert_eq!(Interest::desired(1), Interest { read: true, write: true });
    assert_eq!(Interest::desired(8), Interest { read: true, write: true });
    assert_eq!(Interest::read_only(), Interest { read: true, write: false });
    assert_eq!(Interest::read_write(), Interest { read: true, write: true });
}

#[test]
fn readiness_masks_and_merges() {
    let both = Readiness { readable: true, writable: true };
    assert_eq!(both.masked(Interest::read_only()), Readiness::readable());
    assert_eq!(both.masked(Interest { read: false, write: false }), Readiness::empty());
    assert_eq!(both.masked(Interest::read_write()), both);
    assert_eq!(Readiness::writable().masked(Interest::read_only()), Readiness::empty());
    assert_eq!(Readiness::readable().merged(Readiness::writable()), both);
    assert_eq!(Readiness::empty().merged(Readiness::empty()), Readiness::empty());
    assert!(Readiness::empty().is_empty());
    assert!(!Readiness::readable().is_empty());
    assert!(!Readiness::writable().is_empty());
}

#[test]
fn flags_of_one_source_are_gathered_from_all_lines() {
    let reports = vec![
        ReadyEntry { token: Token(0), readiness: Readiness::readable() },
        ReadyEntry { token: Token(1), readiness: Readiness::writable() },
        ReadyEntry { token: Token(0), readiness: Readiness::writable() },
        ReadyEntry { token: Token(2), readiness: Readiness::empty() },
    ];
    assert_eq!(flags_for(&reports, Token(0)), Readiness { readable: true, writable: true });
    assert_eq!(flags_for(&reports, Token(1)), Readiness::writable());
    assert_eq!(flags_for(&reports, Token(2)), Readiness::empty());
    assert_eq!(flags_for(&reports, Token(3)), Readiness::empty());
    assert_eq!(flags_for(&vec![], Token(0)), Readiness::empty());
}
