use echo_mux::config::Config;
use echo_mux::interest::{Interest, Readiness, ReadyEntry, Token, TriggerMode};
use echo_mux::poller::{Poller, Registration, RegistrationError};

const READ: Interest = Interest { read: true, write: false };
const READ_AND_WRITE: Interest = Interest { read: true, write: true };
const READABLE: Readiness = Readiness { readable: true, writable: false };
const WRITABLE: Readiness = Readiness { readable: false, writable: true };
const BOTH: Readiness = Readiness { readable: true, writable: true };
const NOTHING: Readiness = Readiness { readable: false, writable: false };

fn entry(token: usize, readiness: Readiness) -> ReadyEntry {
    ReadyEntry { token: Token(token), readiness }
}

fn batch_of(max_events: usize) -> Config {
    Config { max_events, ..Config::standard() }
}

fn tokens(ready: &[ReadyEntry]) -> Vec<usize> {
    ready.iter().map(|line| line.token.0).collect()
}

#[test]
fn new_poller_has_nothing_to_report() {
    let mut poller = Poller::new(&Config::standard());
    assert_eq!(poller.len(), 0);
    assert_eq!(poller.wait(), vec![]);
    assert!(!poller.is_registered(Token(0)));
    assert_eq!(poller.registration(Token(0)), None);
}

#[test]
fn register_twice_is_refused() {
    let mut poller = Poller::new(&Config::standard());
    assert_eq!(poller.register(Token(7), READ, TriggerMode::Level), Ok(()));
    assert_eq!(
        poller.register(Token(7), READ_AND_WRITE, TriggerMode::Edge),
        Err(RegistrationError::AlreadyRegistered)
    );
    assert_eq!(poller.len(), 1);
    assert_eq!(
        poller.registration(Token(7)),
        Some(Registration {
            token: Token(7),
            interest: READ,
            mode: TriggerMode::Level,
            condition: NOTHING,
            fresh: NOTHING,
        })
    );
}

#[test]
fn calls_on_an_unknown_token_are_refused() {
    let mut poller = Poller::new(&Config::standard());
    poller.register(Token(1), READ, TriggerMode::Level).unwrap();
    assert_eq!(poller.reregister(Token(2), READ_AND_WRITE), Err(RegistrationError::NotRegistered));
    assert_eq!(poller.deregister(Token(2)), Err(RegistrationError::NotRegistered));
    assert_eq!(poller.set_readiness(Token(2), READABLE), Err(RegistrationError::NotRegistered));
    assert_eq!(poller.clear_readiness(Token(2)), Err(RegistrationError::NotRegistered));
    assert_eq!(poller.len(), 1);
    assert!(poller.is_registered(Token(1)));
}

#[test]
fn deregister_takes_the_source_out() {
    let mut poller = Poller::new(&Config::standard());
    poller.register(Token(1), READ, TriggerMode::Level).unwrap();
    poller.register(Token(2), READ, TriggerMode::Level).unwrap();
    poller.set_readiness(Token(1), READABLE).unwrap();
    poller.set_readiness(Token(2), READABLE).unwrap();
    assert_eq!(poller.deregister(Token(1)), Ok(()));
    assert!(!poller.is_registered(Token(1)));
    assert_eq!(poller.wait(), vec![entry(2, READABLE)]);
    assert_eq!(poller.register(Token(1), READ, TriggerMode::Level), Ok(()));
    // The readiness of the old registration is gone with it.
    assert_eq!(poller.wait(), vec![entry(2, READABLE)]);
}

#[test]
fn level_source_is_reported_until_cleared() {
    let mut poller = Poller::new(&Config::standard());
    poller.register(Token(0), READ, TriggerMode::Level).unwrap();
    assert_eq!(poller.wait(), vec![]);
    poller.set_readiness(Token(0), READABLE).unwrap();
    assert_eq!(poller.wait(), vec![entry(0, READABLE)]);
    assert_eq!(poller.wait(), vec![entry(0, READABLE)]);
    assert_eq!(poller.wait(), vec![entry(0, READABLE)]);
    poller.clear_readiness(Token(0)).unwrap();
    assert_eq!(poller.wait(), vec![]);
}

#[test]
fn edge_source_is_reported_once_per_transition() {
    let mut poller = Poller::new(&Config::standard());
    poller.register(Token(0), READ, TriggerMode::Edge).unwrap();
    poller.set_readiness(Token(0), READABLE).unwrap();
    assert_eq!(poller.wait(), vec![entry(0, READABLE)]);
    assert_eq!(poller.wait(), vec![]);
    // Still readable: no transition, no report.
    poller.set_readiness(Token(0), READABLE).unwrap();
    assert_eq!(poller.wait(), vec![]);
    poller.clear_readiness(Token(0)).unwrap();
    assert_eq!(poller.wait(), vec![]);
    poller.set_readiness(Token(0), READABLE).unwrap();
    assert_eq!(poller.wait(), vec![entry(0, READABLE)]);
    assert_eq!(poller.wait(), vec![]);
}

#[test]
fn two_sets_before_a_wait_make_one_notification() {
    for mode in [TriggerMode::Level, TriggerMode::Edge] {
        let mut poller = Poller::new(&Config::standard());
        poller.register(Token(0), READ, TriggerMode::Level).unwrap();
        poller.register(Token(1), READ, mode).unwrap();
        poller.set_readiness(Token(1), READABLE).unwrap();
        let once = poller.registration(Token(1));
        poller.set_readiness(Token(1), READABLE).unwrap();
        assert_eq!(poller.registration(Token(1)), once);
        let ready = poller.wait();
        assert_eq!(ready, vec![entry(1, READABLE)]);
        assert_eq!(ready.iter().filter(|line| line.token == Token(1)).count(), 1);
    }
}

#[test]
fn report_is_masked_by_interest() {
    let mut poller = Poller::new(&Config::standard());
    poller.register(Token(0), READ, TriggerMode::Level).unwrap();
    poller.set_readiness(Token(0), BOTH).unwrap();
    assert_eq!(poller.wait(), vec![entry(0, READABLE)]);
    poller.set_readiness(Token(0), WRITABLE).unwrap();
    assert_eq!(poller.wait(), vec![]);
    assert_eq!(poller.reregister(Token(0), READ_AND_WRITE), Ok(true));
    assert_eq!(poller.reregister(Token(0), READ_AND_WRITE), Ok(false));
    assert_eq!(poller.wait(), vec![entry(0, WRITABLE)]);
    poller.set_readiness(Token(0), BOTH).unwrap();
    assert_eq!(poller.wait(), vec![entry(0, BOTH)]);
    assert_eq!(poller.reregister(Token(0), Interest { read: false, write: false }), Ok(true));
    assert_eq!(poller.wait(), vec![]);
}

#[test]
fn reregister_takes_effect_for_an_edge_source() {
    let mut poller = Poller::new(&Config::standard());
    poller.register(Token(3), READ, TriggerMode::Edge).unwrap();
    poller.set_readiness(Token(3), BOTH).unwrap();
    assert_eq!(poller.wait(), vec![entry(3, READABLE)]);
    // Writability began to hold while nobody asked for it; it is still news.
    poller.reregister(Token(3), READ_AND_WRITE).unwrap();
    assert_eq!(poller.wait(), vec![entry(3, WRITABLE)]);
    assert_eq!(poller.wait(), vec![]);
}

#[test]
fn batch_is_bounded_and_the_rest_comes_later() {
    let mut poller = Poller::new(&batch_of(2));
    for token in 0..5 {
        poller.register(Token(token), READ, TriggerMode::Edge).unwrap();
        poller.set_readiness(Token(token), READABLE).unwrap();
    }
    let first = poller.wait();
    assert_eq!(tokens(&first), vec![0, 1]);
    let second = poller.wait();
    assert_eq!(tokens(&second), vec![2, 3]);
    let third = poller.wait();
    assert_eq!(tokens(&third), vec![4]);
    assert_eq!(poller.wait(), vec![]);
}

#[test]
fn busy_level_sources_do_not_starve_the_others() {
    let mut poller = Poller::new(&batch_of(2));
    for token in 0..5 {
        poller.register(Token(token), READ, TriggerMode::Level).unwrap();
        poller.set_readiness(Token(token), READABLE).unwrap();
    }
    assert_eq!(tokens(&poller.wait()), vec![0, 1]);
    assert_eq!(tokens(&poller.wait()), vec![2, 3]);
    assert_eq!(tokens(&poller.wait()), vec![4, 0]);
    assert_eq!(tokens(&poller.wait()), vec![1, 2]);
    assert_eq!(tokens(&poller.wait()), vec![3, 4]);
}

#[test]
fn sources_that_are_not_due_keep_their_place() {
    let mut poller = Poller::new(&batch_of(16));
    for token in 0..4 {
        poller.register(Token(token), READ, TriggerMode::Level).unwrap();
    }
    poller.set_readiness(Token(1), READABLE).unwrap();
    poller.set_readiness(Token(3), READABLE).unwrap();
    assert_eq!(tokens(&poller.wait()), vec![1, 3]);
    poller.set_readiness(Token(0), READABLE).unwrap();
    poller.set_readiness(Token(2), READABLE).unwrap();
    // 0 and 2 were passed by and stand in front of 1 and 3 now.
    assert_eq!(tokens(&poller.wait()), vec![0, 2, 1, 3]);
}

#[test]
fn batch_of_zero_reports_nothing() {
    let mut poller = Poller::new(&batch_of(0));
    poller.register(Token(0), READ, TriggerMode::Level).unwrap();
    poller.set_readiness(Token(0), READABLE).unwrap();
    assert_eq!(poller.wait(), vec![]);
}

#[test]
fn wait_never_reports_more_than_max_events() {
    let mut poller = Poller::new(&Config::standard());
    for token in 0..40 {
        poller.register(Token(token), READ_AND_WRITE, TriggerMode::Level).unwrap();
        poller.set_readiness(Token(token), BOTH).unwrap();
    }
    let mut seen = vec![0usize; 40];
    for _ in 0..5 {
        let ready = poller.wait();
        assert_eq!(ready.len(), 16);
        for line in &ready {
            assert_eq!(line.readiness, BOTH);
            seen[line.token.0] += 1;
        }
    }
    assert!(seen.iter().all(|&count| count == 2));
}
