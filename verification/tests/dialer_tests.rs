use learn_libp2p::dialer::{hello, Dialer, DialerAction, DialerEvent, DialerFault, DialerPhase, TICK_PERIOD_MS};
use learn_libp2p::greeting::greeting;

#[test]
fn hello_payload_text() {
    assert_eq!(hello(), b"hello, libp2p".to_vec());
}

#[test]
fn tick_period_is_one_second() {
    assert_eq!(TICK_PERIOD_MS, 1000);
}

#[test]
fn dial_writes_payload_then_finishes() {
    let mut d = Dialer::new(greeting());
    assert!(d.expects(DialerEvent::Connected));
    assert!(!d.expects(DialerEvent::Written(1)));
    assert_eq!(d.on_event(DialerEvent::Connected), DialerAction::Write(vec![1, 2, 3]));
    assert_eq!(d.phase(), DialerPhase::Writing);
    assert!(!d.expects(DialerEvent::Written(4)));
    assert_eq!(d.on_event(DialerEvent::Written(3)), DialerAction::Finish { sent: 3 });
    assert_eq!(d.phase(), DialerPhase::Done);
}

#[test]
fn short_write_is_not_retried() {
    let mut d = Dialer::new(hello());
    d.on_event(DialerEvent::Connected);
    assert_eq!(d.on_event(DialerEvent::Written(5)), DialerAction::Finish { sent: 5 });
    assert!(!d.expects(DialerEvent::Written(8)));
}

#[test]
fn dial_failures_abort() {
    let mut d = Dialer::new(hello());
    assert_eq!(d.on_event(DialerEvent::DialFailed), DialerAction::Abort(DialerFault::Dial));
    let mut e = Dialer::new(hello());
    e.on_event(DialerEvent::Connected);
    assert_eq!(e.on_event(DialerEvent::WriteFailed), DialerAction::Abort(DialerFault::Write));
    assert!(!e.expects(DialerEvent::Connected));
}
