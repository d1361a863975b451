use learn_libp2p::session::{LogLine, Session, StreamEvent};

#[test]
fn chunks_are_logged_then_fin_is_reported() {
    let mut s = Session::new();
    assert!(s.is_open());
    assert_eq!(s.on_event(StreamEvent::Chunk(vec![1, 2])), vec![LogLine::Bytes(vec![1, 2])]);
    assert_eq!(s.on_event(StreamEvent::Chunk(vec![3])), vec![LogLine::Bytes(vec![3])]);
    assert_eq!(
        s.on_event(StreamEvent::End),
        vec![LogLine::FinReceived, LogLine::ClosedWithResult(None)]
    );
    assert!(!s.is_open());
}

#[test]
fn error_is_reported_twice_then_closed() {
    let mut s = Session::new();
    assert_eq!(
        s.on_event(StreamEvent::Failed("reset".to_string())),
        vec![
            LogLine::ClosedWithError("reset".to_string()),
            LogLine::ClosedWithResult(Some("reset".to_string()))
        ]
    );
    assert!(!s.is_open());
}

#[test]
fn empty_chunk_is_still_logged() {
    let mut s = Session::new();
    assert_eq!(s.on_event(StreamEvent::Chunk(vec![])), vec![LogLine::Bytes(vec![])]);
    assert!(s.is_open());
}
