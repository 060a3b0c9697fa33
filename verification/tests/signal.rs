use echo_mux::engine::{Action, Event, Refusal};
use echo_mux::interest::{Interest, Readiness};
use echo_mux::signal::SignalSource;

const SIGNAL_MASK: Interest = Interest { read: true, write: false };

fn woken(readable: bool, writable: bool) -> Event {
    Event::Ready(Readiness { readable, writable })
}

#[test]
fn new_signal_source_waits_for_read() {
    let source = SignalSource::new();
    assert_eq!(source.pending(), Action::Wait(SIGNAL_MASK));
}

#[test]
fn signal_asks_to_be_cleared_then_waits() {
    let mut source = SignalSource::new();
    assert_eq!(source.step(woken(true, false)), Ok(Action::ClearSignal));
    assert_eq!(source.pending(), Action::ClearSignal);
    assert_eq!(source.step(Event::SignalCleared), Ok(Action::Wait(SIGNAL_MASK)));
    assert_eq!(source.step(woken(true, true)), Ok(Action::ClearSignal));
    assert_eq!(source.step(Event::SignalCleared), Ok(Action::Wait(SIGNAL_MASK)));
}

#[test]
fn wake_up_without_the_signal_changes_nothing() {
    let mut source = SignalSource::new();
    assert_eq!(source.step(woken(false, false)), Ok(Action::Wait(SIGNAL_MASK)));
    assert_eq!(source.step(woken(false, true)), Ok(Action::Wait(SIGNAL_MASK)));
}

#[test]
fn signal_source_refuses_what_it_did_not_ask_for() {
    let mut source = SignalSource::new();
    assert_eq!(source.step(Event::SignalCleared), Err(Refusal::UnexpectedEvent));
    assert_eq!(source.step(Event::ReceiveWouldBlock), Err(Refusal::UnexpectedEvent));
    assert_eq!(source.step(Event::Transmitted), Err(Refusal::UnexpectedEvent));
    assert_eq!(source.refusal_of(&Event::TransmitWouldBlock), Some(Refusal::UnexpectedEvent));
    assert_eq!(source.refusal_of(&woken(true, false)), None);
    source.step(woken(true, false)).unwrap();
    assert_eq!(source.step(woken(true, false)), Err(Refusal::UnexpectedEvent));
    assert_eq!(source.refusal_of(&Event::SignalCleared), None);
    assert_eq!(source.pending(), Action::ClearSignal);
}

#[test]
fn signal_source_halts_when_clearing_fails() {
    let mut source = SignalSource::new();
    source.step(woken(true, false)).unwrap();
    assert_eq!(source.step(Event::Failed), Ok(Action::Halt));
    assert_eq!(source.pending(), Action::Halt);
    assert_eq!(source.step(Event::SignalCleared), Err(Refusal::Halted));
    assert_eq!(source.step(woken(true, false)), Err(Refusal::Halted));
    assert_eq!(source.refusal_of(&woken(true, false)), Some(Refusal::Halted));
}

#[test]
fn signal_source_halts_when_the_wait_fails() {
    let mut source = SignalSource::new();
    assert_eq!(source.step(Event::Failed), Ok(Action::Halt));
    assert_eq!(source.step(woken(true, false)), Err(Refusal::Halted));
}
