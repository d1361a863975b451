//! The floodsub chat peer: one wake-up of its task drains the terminal,
//! publishing every line to the chat topic, then drains the swarm, showing
//! every message it received, and goes back to sleep.

use vstd::prelude::*;

verus! {

/// The topic the chat peers subscribe and publish to.
pub fn chat_topic() -> (topic: String)
    ensures
        topic@ == seq!['c', 'h', 'a', 't'],
{
    let topic = "chat";
    proof {
        reveal_strlit("chat");
    }
    topic.to_owned()
}

/// What one poll of the terminal gave.
pub enum StdinPoll {
    /// A complete line (without its line ending).
    Line(String),
    /// The terminal was closed.
    Closed,
    /// No complete line is available yet.
    Pending,
    /// Reading the terminal failed.
    Failed,
}

/// What one poll of the swarm gave.
pub enum SwarmPoll {
    /// A floodsub message arrived with this payload.
    Message(Vec<u8>),
    /// The swarm has nothing more to give.
    Finished,
    /// No event is available yet.
    Pending,
    /// Polling the swarm failed.
    Failed,
}

/// Why the chat peer stops.
#[derive(PartialEq, Eq, Structural, Clone, Copy, Debug)]
pub enum ChatFault {
    /// The terminal was closed ("Stdin closed").
    StdinClosed,
    /// Reading the terminal failed.
    StdinFailed,
    /// Polling the swarm failed.
    SwarmFailed,
}

/// Where the peer is within one wake-up.
#[derive(PartialEq, Eq, Structural, Clone, Copy, Debug)]
pub enum ChatPhase {
    /// Asleep, waiting to be woken.
    Idle,
    /// Draining the terminal.
    Input,
    /// Draining the swarm.
    Network,
    /// Stopped for good.
    Stopped,
}

/// What the driver must do next.
#[derive(Debug, PartialEq, Eq)]
pub enum ChatAction {
    /// Poll the terminal and report with `on_stdin`.
    ReadStdin,
    /// Publish `line` on `topic`, then poll the terminal again.
    Publish { topic: String, line: String },
    /// Poll the swarm and report with `on_swarm`.
    ReadSwarm,
    /// Show `data` as a received message, then poll the swarm again.
    Show { data: Vec<u8> },
    /// Nothing is ready: go back to sleep until woken.
    Sleep,
    /// Stop the peer.
    Abort(ChatFault),
}

pub enum StdinPollView {
    Line(Seq<char>),
    Closed,
    Pending,
    Failed,
}

pub enum SwarmPollView {
    Message(Seq<u8>),
    Finished,
    Pending,
    Failed,
}

pub enum ChatActionView {
    ReadStdin,
    Publish { topic: Seq<char>, line: Seq<char> },
    ReadSwarm,
    Show { data: Seq<u8> },
    Sleep,
    Abort(ChatFault),
}

impl View for StdinPoll {
    type V = StdinPollView;

    open spec fn view(&self) -> StdinPollView {
        match self {
            StdinPoll::Line(l) => StdinPollView::Line(l@),
            StdinPoll::Closed => StdinPollView::Closed,
            StdinPoll::Pending => StdinPollView::Pending,
            StdinPoll::Failed => StdinPollView::Failed,
        }
    }
}

impl View for SwarmPoll {
    type V = SwarmPollView;

    open spec fn view(&self) -> SwarmPollView {
        match self {
            SwarmPoll::Message(d) => SwarmPollView::Message(d@),
            SwarmPoll::Finished => SwarmPollView::Finished,
            SwarmPoll::Pending => SwarmPollView::Pending,
            SwarmPoll::Failed => SwarmPollView::Failed,
        }
    }
}

impl View for ChatAction {
    type V = ChatActionView;

    open spec fn view(&self) -> ChatActionView {
        match self {
            ChatAction::ReadStdin => ChatActionView::ReadStdin,
            ChatAction::Publish { topic, line } => ChatActionView::Publish {
                topic: topic@,
                line: line@,
            },
            ChatAction::ReadSwarm => ChatActionView::ReadSwarm,
            ChatAction::Show { data } => ChatActionView::Show { data: data@ },
            ChatAction::Sleep => ChatActionView::Sleep,
            ChatAction::Abort(f) => ChatActionView::Abort(*f),
        }
    }
}

/// The chat peer's decision state.
pub struct Chat {
    topic: String,
    phase: ChatPhase,
}

pub struct ChatView {
    pub topic: Seq<char>,
    pub phase: ChatPhase,
}

impl View for Chat {
    type V = ChatView;

    closed spec fn view(&self) -> ChatView {
        ChatView { topic: self.topic@, phase: self.phase }
    }
}

/// Waking up: an idle peer starts draining the terminal; a stopped one stays stopped.
pub open spec fn wake_step(s: ChatView) -> (ChatView, ChatActionView) {
    if s.phase == ChatPhase::Stopped {
        (s, ChatActionView::Sleep)
    } else {
        (ChatView { phase: ChatPhase::Input, ..s }, ChatActionView::ReadStdin)
    }
}

/// One terminal poll while draining the terminal.
pub open spec fn stdin_step(s: ChatView, p: StdinPollView) -> (ChatView, ChatActionView) {
    match p {
        StdinPollView::Line(l) => (s, ChatActionView::Publish { topic: s.topic, line: l }),
        StdinPollView::Closed => (
            ChatView { phase: ChatPhase::Stopped, ..s },
            ChatActionView::Abort(ChatFault::StdinClosed),
        ),
        StdinPollView::Failed => (
            ChatView { phase: ChatPhase::Stopped, ..s },
            ChatActionView::Abort(ChatFault::StdinFailed),
        ),
        StdinPollView::Pending => (
            ChatView { phase: ChatPhase::Network, ..s },
            ChatActionView::ReadSwarm,
        ),
    }
}

/// One swarm poll while draining the swarm.
pub open spec fn swarm_step(s: ChatView, p: SwarmPollView) -> (ChatView, ChatActionView) {
    match p {
        SwarmPollView::Message(d) => (s, ChatActionView::Show { data: d }),
        SwarmPollView::Failed => (
            ChatView { phase: ChatPhase::Stopped, ..s },
            ChatActionView::Abort(ChatFault::SwarmFailed),
        ),
        _ => (ChatView { phase: ChatPhase::Idle, ..s }, ChatActionView::Sleep),
    }
}

impl Chat {
    /// A chat peer publishing to `topic`, asleep.
    pub fn new(topic: String) -> (c: Chat)
        ensures
            c@ == (ChatView { topic: topic@, phase: ChatPhase::Idle }),
    {
        Chat { topic, phase: ChatPhase::Idle }
    }

    /// Where the peer is within its wake-up.
    pub fn phase(&self) -> (p: ChatPhase)
        ensures
            p == self@.phase,
    {
        self.phase
    }

    /// The task was woken.
    pub fn wake(&mut self) -> (a: ChatAction)
        ensures
            (final(self)@, a@) == wake_step(old(self)@),
    {
        if self.phase == ChatPhase::Stopped {
            ChatAction::Sleep
        } else {
            self.phase = ChatPhase::Input;
            ChatAction::ReadStdin
        }
    }

    /// The terminal was polled while draining it.
    pub fn on_stdin(&mut self, p: StdinPoll) -> (a: ChatAction)
        requires
            old(self)@.phase == ChatPhase::Input,
        ensures
            (final(self)@, a@) == stdin_step(old(self)@, p@),
    {
        match p {
            StdinPoll::Line(line) => ChatAction::Publish { topic: self.topic.clone(), line },
            StdinPoll::Closed => {
                self.phase = ChatPhase::Stopped;
                ChatAction::Abort(ChatFault::StdinClosed)
            },
            StdinPoll::Failed => {
                self.phase = ChatPhase::Stopped;
                ChatAction::Abort(ChatFault::StdinFailed)
            },
            StdinPoll::Pending => {
                self.phase = ChatPhase::Network;
                ChatAction::ReadSwarm
            },
        }
    }

    /// The swarm was polled while draining it.
    pub fn on_swarm(&mut self, p: SwarmPoll) -> (a: ChatAction)
        requires
            old(self)@.phase == ChatPhase::Network,
        ensures
            (final(self)@, a@) == swarm_step(old(self)@, p@),
    {
        match p {
            SwarmPoll::Message(data) => ChatAction::Show { data },
            SwarmPoll::Failed => {
                self.phase = ChatPhase::Stopped;
                ChatAction::Abort(ChatFault::SwarmFailed)
            },
            _ => {
                self.phase = ChatPhase::Idle;
                ChatAction::Sleep
            },
        }
    }
}

/// Feeds the terminal polls `ps` to a peer in state `s`, as long as it is
/// draining the terminal; the resulting state and the actions taken.
pub open spec fn drain_stdin(s: ChatView, ps: Seq<StdinPollView>) -> (ChatView, Seq<ChatActionView>)
    decreases ps.len(),
{
    if ps.len() == 0 || s.phase != ChatPhase::Input {
        (s, seq![])
    } else {
        let (s1, a) = stdin_step(s, ps[0]);
        let (s2, rest) = drain_stdin(s1, ps.drop_first());
        (s2, seq![a] + rest)
    }
}

/// Feeds the swarm polls `ps` to a peer in state `s`, as long as it is
/// draining the swarm; the resulting state and the actions taken.
pub open spec fn drain_swarm(s: ChatView, ps: Seq<SwarmPollView>) -> (ChatView, Seq<ChatActionView>)
    decreases ps.len(),
{
    if ps.len() == 0 || s.phase != ChatPhase::Network {
        (s, seq![])
    } else {
        let (s1, a) = swarm_step(s, ps[0]);
        let (s2, rest) = drain_swarm(s1, ps.drop_first());
        (s2, seq![a] + rest)
    }
}

/// The lines at the head of `ps`, up to the first poll that is not a line.
pub open spec fn leading_lines(ps: Seq<StdinPollView>) -> Seq<Seq<char>>
    decreases ps.len(),
{
    if ps.len() == 0 {
        seq![]
    } else {
        match ps[0] {
            StdinPollView::Line(l) => seq![l] + leading_lines(ps.drop_first()),
            _ => seq![],
        }
    }
}

/// The payloads at the head of `ps`, up to the first poll that is not a message.
pub open spec fn leading_messages(ps: Seq<SwarmPollView>) -> Seq<Seq<u8>>
    decreases ps.len(),
{
    if ps.len() == 0 {
        seq![]
    } else {
        match ps[0] {
            SwarmPollView::Message(d) => seq![d] + leading_messages(ps.drop_first()),
            _ => seq![],
        }
    }
}

/// The lines published by `acts`, in order.
pub open spec fn published_lines(acts: Seq<ChatActionView>) -> Seq<Seq<char>>
    decreases acts.len(),
{
    if acts.len() == 0 {
        seq![]
    } else {
        match acts[0] {
            ChatActionView::Publish { line, .. } => seq![line] + published_lines(acts.drop_first()),
            _ => published_lines(acts.drop_first()),
        }
    }
}

/// The payloads shown by `acts`, in order.
pub open spec fn shown_messages(acts: Seq<ChatActionView>) -> Seq<Seq<u8>>
    decreases acts.len(),
{
    if acts.len() == 0 {
        seq![]
    } else {
        match acts[0] {
            ChatActionView::Show { data } => seq![data] + shown_messages(acts.drop_first()),
            _ => shown_messages(acts.drop_first()),
        }
    }
}

/// Whether every line of `ps` is a line (the terminal never paused).
pub open spec fn all_lines(ps: Seq<StdinPollView>) -> bool {
    forall|i: int| 0 <= i < ps.len() ==> #[trigger] ps[i] is Line
}

/// Whether every poll of `ps` brought a message.
pub open spec fn all_messages(ps: Seq<SwarmPollView>) -> bool {
    forall|i: int| 0 <= i < ps.len() ==> #[trigger] ps[i] is Message
}

/// While draining the terminal, every line read is published, once and in
/// order, to the peer's own topic; the drain stops at the first poll that is
/// not a line, and then either moves on to the swarm (nothing pending) or
/// stops the peer (terminal closed or failed). The topic never changes.
pub proof fn lemma_drain_stdin_publishes_lines(s: ChatView, ps: Seq<StdinPollView>)
    requires
        s.phase == ChatPhase::Input,
    ensures
        published_lines(drain_stdin(s, ps).1) == leading_lines(ps),
        forall|i: int|
            0 <= i < drain_stdin(s, ps).1.len() ==> (#[trigger] drain_stdin(s, ps).1[i] matches ChatActionView::Publish { topic, .. } ==> topic == s.topic),
        drain_stdin(s, ps).0.topic == s.topic,
        all_lines(ps) ==> drain_stdin(s, ps).0.phase == ChatPhase::Input,
        !all_lines(ps) ==> {
            let (s2, acts) = drain_stdin(s, ps);
            &&& acts.len() == leading_lines(ps).len() + 1
            &&& (s2.phase == ChatPhase::Network && acts.last() == ChatActionView::ReadSwarm)
                || (s2.phase == ChatPhase::Stopped && acts.last() is Abort)
        },
    decreases ps.len(),
{
    if ps.len() > 0 {
        let (s1, a) = stdin_step(s, ps[0]);
        let rest = ps.drop_first();
        if s1.phase == ChatPhase::Input {
            lemma_drain_stdin_publishes_lines(s1, rest);
            let acts = drain_stdin(s, ps).1;
            let racts = drain_stdin(s1, rest).1;
            assert(acts == seq![a] + racts);
            assert(acts.drop_first() =~= racts);
            assert(published_lines(acts) =~= leading_lines(ps));
            assert forall|i: int| 0 <= i < acts.len() implies (#[trigger] acts[i] matches ChatActionView::Publish { topic, .. } ==> topic == s.topic) by {
                if i > 0 {
                    assert(acts[i] == racts[i - 1]);
                }
            }
            if !all_lines(ps) {
                let j = choose|j: int| 0 <= j < ps.len() && !(#[trigger] ps[j] is Line);
                assert(rest[j - 1] == ps[j]);
            }
            if !all_lines(rest) {
                let j = choose|j: int| 0 <= j < rest.len() && !(#[trigger] rest[j] is Line);
                assert(ps[j + 1] == rest[j]);
            }
        } else {
            assert(drain_stdin(s1, rest).1 =~= seq![]);
            assert(drain_stdin(s, ps).1 =~= seq![a]);
            assert(seq![a].drop_first() =~= seq![]);
            assert(!(ps[0] is Line));
            assert(published_lines(seq![a].drop_first()) =~= seq![]);
            assert(published_lines(seq![a]) =~= seq![]);
        }
    }
}

/// While draining the swarm, every message received is shown, once and in
/// order; the drain stops at the first poll that is not a message, and then
/// the peer either goes back to sleep (nothing ready, or nothing more) or
/// stops (the swarm failed). A wake-up never finishes the peer's task.
pub proof fn lemma_drain_swarm_shows_messages(s: ChatView, ps: Seq<SwarmPollView>)
    requires
        s.phase == ChatPhase::Network,
    ensures
        shown_messages(drain_swarm(s, ps).1) == leading_messages(ps),
        drain_swarm(s, ps).0.topic == s.topic,
        all_messages(ps) ==> drain_swarm(s, ps).0.phase == ChatPhase::Network,
        !all_messages(ps) ==> {
            let (s2, acts) = drain_swarm(s, ps);
            &&& acts.len() == leading_messages(ps).len() + 1
            &&& (s2.phase == ChatPhase::Idle && acts.last() == ChatActionView::Sleep)
                || (s2.phase == ChatPhase::Stopped && acts.last() == ChatActionView::Abort(
                ChatFault::SwarmFailed,
            ))
        },
    decreases ps.len(),
{
    if ps.len() > 0 {
        let (s1, a) = swarm_step(s, ps[0]);
        let rest = ps.drop_first();
        if s1.phase == ChatPhase::Network {
            lemma_drain_swarm_shows_messages(s1, rest);
            let acts = drain_swarm(s, ps).1;
            let racts = drain_swarm(s1, rest).1;
            assert(acts.drop_first() =~= racts);
            assert(shown_messages(acts) =~= leading_messages(ps));
            if !all_messages(ps) {
                let j = choose|j: int| 0 <= j < ps.len() && !(#[trigger] ps[j] is Message);
                assert(rest[j - 1] == ps[j]);
            }
            if !all_messages(rest) {
                let j = choose|j: int| 0 <= j < rest.len() && !(#[trigger] rest[j] is Message);
                assert(ps[j + 1] == rest[j]);
            }
        } else {
            assert(drain_swarm(s1, rest).1 =~= seq![]);
            assert(drain_swarm(s, ps).1 =~= seq![a]);
            assert(seq![a].drop_first() =~= seq![]);
            assert(!(ps[0] is Message));
            assert(shown_messages(seq![a].drop_first()) =~= seq![]);
            assert(shown_messages(seq![a]) =~= seq![]);
        }
    }
}

/// Each terminal poll, for any peer draining its terminal: a line is
/// published unchanged on the peer's own topic and the terminal is polled
/// again; nothing pending moves on to the swarm; a closed or failed terminal
/// stops the peer with that reason. The topic never changes.
pub proof fn lemma_stdin_outcomes(topic: Seq<char>, line: Seq<char>)
    ensures
        ({
            let s = ChatView { topic, phase: ChatPhase::Input };
            &&& stdin_step(s, StdinPollView::Line(line)) == (s, ChatActionView::Publish { topic, line })
            &&& stdin_step(s, StdinPollView::Pending) == (
                ChatView { topic, phase: ChatPhase::Network },
                ChatActionView::ReadSwarm,
            )
            &&& stdin_step(s, StdinPollView::Closed) == (
                ChatView { topic, phase: ChatPhase::Stopped },
                ChatActionView::Abort(ChatFault::StdinClosed),
            )
            &&& stdin_step(s, StdinPollView::Failed) == (
                ChatView { topic, phase: ChatPhase::Stopped },
                ChatActionView::Abort(ChatFault::StdinFailed),
            )
        }),
{
}

/// Each swarm poll, for any peer draining its swarm: a message is shown
/// unchanged and the swarm is polled again; nothing pending, or nothing
/// more, sends the peer back to sleep (the task is not finished); a failed
/// swarm stops the peer.
pub proof fn lemma_swarm_outcomes(topic: Seq<char>, data: Seq<u8>)
    ensures
        ({
            let s = ChatView { topic, phase: ChatPhase::Network };
            &&& swarm_step(s, SwarmPollView::Message(data)) == (s, ChatActionView::Show { data })
            &&& swarm_step(s, SwarmPollView::Pending) == (
                ChatView { topic, phase: ChatPhase::Idle },
                ChatActionView::Sleep,
            )
            &&& swarm_step(s, SwarmPollView::Finished) == (
                ChatView { topic, phase: ChatPhase::Idle },
                ChatActionView::Sleep,
            )
            &&& swarm_step(s, SwarmPollView::Failed) == (
                ChatView { topic, phase: ChatPhase::Stopped },
                ChatActionView::Abort(ChatFault::SwarmFailed),
            )
        }),
{
}

/// Waking a sleeping peer starts draining its terminal; waking a stopped
/// peer does nothing.
pub proof fn lemma_wake_outcomes(topic: Seq<char>)
    ensures
        wake_step(ChatView { topic, phase: ChatPhase::Idle }) == (
            ChatView { topic, phase: ChatPhase::Input },
            ChatActionView::ReadStdin,
        ),
        wake_step(ChatView { topic, phase: ChatPhase::Stopped }) == (
            ChatView { topic, phase: ChatPhase::Stopped },
            ChatActionView::Sleep,
        ),
{
}

} // verus!
