use learn_libp2p::ping::{
    ClientAction, ClientEvent, ClientFault, ClientPhase, ListenerAction, ListenerEvent,
    ListenerFault, ListenerPhase, PingClient, PingListener,
};

#[test]
fn client_reports_pong() {
    let mut c = PingClient::new();
    assert_eq!(c.on_event(ClientEvent::Connected), ClientAction::SendPing);
    assert_eq!(c.on_event(ClientEvent::Pong), ClientAction::ReportPong);
    assert_eq!(c.phase(), ClientPhase::Done);
    assert!(!c.expects(ClientEvent::Pong));
}

#[test]
fn client_reports_pong_when_stream_just_ends() {
    let mut c = PingClient::new();
    c.on_event(ClientEvent::Connected);
    assert_eq!(c.on_event(ClientEvent::StreamClosed), ClientAction::ReportPong);
}

#[test]
fn client_failures_abort() {
    let mut c = PingClient::new();
    assert!(!c.expects(ClientEvent::Pong));
    assert_eq!(c.on_event(ClientEvent::ConnectFailed), ClientAction::Abort(ClientFault::Connect));
    let mut d = PingClient::new();
    d.on_event(ClientEvent::Connected);
    assert_eq!(d.on_event(ClientEvent::PingFailed), ClientAction::Abort(ClientFault::Ping));
}

#[test]
fn listener_serves_first_connection_only() {
    let mut l = PingListener::new();
    assert_eq!(l.on_event(ListenerEvent::Incoming), ListenerAction::Serve);
    assert_eq!(l.phase(), ListenerPhase::Serving);
    assert_eq!(l.on_event(ListenerEvent::Incoming), ListenerAction::Refuse);
    assert_eq!(l.on_event(ListenerEvent::Served), ListenerAction::Finish);
    assert_eq!(l.phase(), ListenerPhase::Done);
    assert!(!l.expects(ListenerEvent::Incoming));
}

#[test]
fn listener_without_connection_aborts() {
    let mut l = PingListener::new();
    assert!(!l.expects(ListenerEvent::Served));
    assert_eq!(
        l.on_event(ListenerEvent::IncomingEnded),
        ListenerAction::Abort(ListenerFault::NoConnection)
    );
    let mut m = PingListener::new();
    assert_eq!(m.on_event(ListenerEvent::IncomingFailed), ListenerAction::Abort(ListenerFault::Accept));
    let mut n = PingListener::new();
    n.on_event(ListenerEvent::Incoming);
    assert_eq!(n.on_event(ListenerEvent::ServeFailed), ListenerAction::Abort(ListenerFault::Serve));
}
