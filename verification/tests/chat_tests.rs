use learn_libp2p::chat::{chat_topic, Chat, ChatAction, ChatFault, ChatPhase, StdinPoll, SwarmPoll};

fn chat() -> Chat {
    Chat::new(chat_topic())
}

#[test]
fn topic_is_chat() {
    assert_eq!(chat_topic(), "chat");
}

#[test]
fn wake_reads_stdin_first() {
    let mut c = chat();
    assert_eq!(c.phase(), ChatPhase::Idle);
    assert_eq!(c.wake(), ChatAction::ReadStdin);
    assert_eq!(c.phase(), ChatPhase::Input);
}

#[test]
fn lines_are_published_in_order_then_swarm_is_drained() {
    let mut c = chat();
    c.wake();
    assert_eq!(
        c.on_stdin(StdinPoll::Line("hello".to_string())),
        ChatAction::Publish { topic: "chat".to_string(), line: "hello".to_string() }
    );
    assert_eq!(
        c.on_stdin(StdinPoll::Line("world".to_string())),
        ChatAction::Publish { topic: "chat".to_string(), line: "world".to_string() }
    );
    assert_eq!(c.on_stdin(StdinPoll::Pending), ChatAction::ReadSwarm);
    assert_eq!(c.phase(), ChatPhase::Network);
    assert_eq!(c.on_swarm(SwarmPoll::Message(b"hi".to_vec())), ChatAction::Show { data: b"hi".to_vec() });
    assert_eq!(c.on_swarm(SwarmPoll::Pending), ChatAction::Sleep);
    assert_eq!(c.phase(), ChatPhase::Idle);
}

#[test]
fn finished_swarm_also_sleeps() {
    let mut c = chat();
    c.wake();
    c.on_stdin(StdinPoll::Pending);
    assert_eq!(c.on_swarm(SwarmPoll::Finished), ChatAction::Sleep);
    assert_eq!(c.wake(), ChatAction::ReadStdin);
}

#[test]
fn closed_stdin_aborts() {
    let mut c = chat();
    c.wake();
    assert_eq!(c.on_stdin(StdinPoll::Closed), ChatAction::Abort(ChatFault::StdinClosed));
    assert_eq!(c.phase(), ChatPhase::Stopped);
    assert_eq!(c.wake(), ChatAction::Sleep);
    assert_eq!(c.phase(), ChatPhase::Stopped);
}

#[test]
fn chat_failures_abort() {
    let mut c = chat();
    c.wake();
    assert_eq!(c.on_stdin(StdinPoll::Failed), ChatAction::Abort(ChatFault::StdinFailed));
    let mut d = chat();
    d.wake();
    d.on_stdin(StdinPoll::Pending);
    assert_eq!(d.on_swarm(SwarmPoll::Failed), ChatAction::Abort(ChatFault::SwarmFailed));
    assert_eq!(d.phase(), ChatPhase::Stopped);
}

#[test]
fn publishes_use_the_given_topic() {
    let mut c = Chat::new("other".to_string());
    c.wake();
    assert_eq!(
        c.on_stdin(StdinPoll::Line("x".to_string())),
        ChatAction::Publish { topic: "other".to_string(), line: "x".to_string() }
    );
}
