//! The two ping peers: a client that connects, sends one ping and reports
//! the pong, and a listener that serves pings on the first connection it
//! accepts.

use vstd::prelude::*;

verus! {

/// Where the ping client gave up.
#[derive(PartialEq, Eq, Structural, Clone, Copy, Debug)]
pub enum ClientFault {
    /// The connection could not be established or negotiated.
    Connect,
    /// The ping stream failed.
    Ping,
}

/// What happened to the ping client.
#[derive(PartialEq, Eq, Structural, Clone, Copy, Debug)]
pub enum ClientEvent {
    /// The connection is up and the ping protocol was negotiated.
    Connected,
    /// Connecting or negotiating failed.
    ConnectFailed,
    /// The pong came back.
    Pong,
    /// The ping stream ended without an answer.
    StreamClosed,
    /// The ping stream failed.
    PingFailed,
}

/// What the ping client does next.
#[derive(PartialEq, Eq, Structural, Clone, Copy, Debug)]
pub enum ClientAction {
    /// Send one ping and wait for what the stream yields.
    SendPing,
    /// Print "received pong" and finish.
    ReportPong,
    /// Stop with an error.
    Abort(ClientFault),
}

/// The ping client's progress.
#[derive(PartialEq, Eq, Structural, Clone, Copy, Debug)]
pub enum ClientPhase {
    Connecting,
    AwaitingPong,
    Done,
}

/// Whether `e` can happen in phase `p`.
pub open spec fn client_expects(p: ClientPhase, e: ClientEvent) -> bool {
    match p {
        ClientPhase::Connecting => e == ClientEvent::Connected || e == ClientEvent::ConnectFailed,
        ClientPhase::AwaitingPong => e == ClientEvent::Pong || e == ClientEvent::StreamClosed || e
            == ClientEvent::PingFailed,
        ClientPhase::Done => false,
    }
}

/// The client's transition. The first thing the ping stream yields, a pong or
/// its end, counts as the answer; only a failure is an error.
pub open spec fn client_step(p: ClientPhase, e: ClientEvent) -> (ClientPhase, ClientAction) {
    match e {
        ClientEvent::Connected => (ClientPhase::AwaitingPong, ClientAction::SendPing),
        ClientEvent::ConnectFailed => (ClientPhase::Done, ClientAction::Abort(ClientFault::Connect)),
        ClientEvent::Pong => (ClientPhase::Done, ClientAction::ReportPong),
        ClientEvent::StreamClosed => (ClientPhase::Done, ClientAction::ReportPong),
        ClientEvent::PingFailed => (ClientPhase::Done, ClientAction::Abort(ClientFault::Ping)),
    }
}

/// The ping client.
pub struct PingClient {
    phase: ClientPhase,
}

impl View for PingClient {
    type V = ClientPhase;

    closed spec fn view(&self) -> ClientPhase {
        self.phase
    }
}

impl PingClient {
    /// A client dialing its server.
    pub fn new() -> (c: PingClient)
        ensures
            c@ == ClientPhase::Connecting,
    {
        PingClient { phase: ClientPhase::Connecting }
    }

    /// Where the client is.
    pub fn phase(&self) -> (p: ClientPhase)
        ensures
            p == self@,
    {
        self.phase
    }

    /// Whether `e` can happen now.
    pub fn expects(&self, e: ClientEvent) -> (r: bool)
        ensures
            r == client_expects(self@, e),
    {
        match self.phase {
            ClientPhase::Connecting => e == ClientEvent::Connected || e
                == ClientEvent::ConnectFailed,
            ClientPhase::AwaitingPong => e == ClientEvent::Pong || e == ClientEvent::StreamClosed
                || e == ClientEvent::PingFailed,
            ClientPhase::Done => false,
        }
    }

    /// `e` happened.
    pub fn on_event(&mut self, e: ClientEvent) -> (a: ClientAction)
        requires
            client_expects(old(self)@, e),
        ensures
            (final(self)@, a) == client_step(old(self)@, e),
    {
        let (p, a) = match e {
            ClientEvent::Connected => (ClientPhase::AwaitingPong, ClientAction::SendPing),
            ClientEvent::ConnectFailed => (
                ClientPhase::Done,
                ClientAction::Abort(ClientFault::Connect),
            ),
            ClientEvent::Pong => (ClientPhase::Done, ClientAction::ReportPong),
            ClientEvent::StreamClosed => (ClientPhase::Done, ClientAction::ReportPong),
            ClientEvent::PingFailed => (ClientPhase::Done, ClientAction::Abort(ClientFault::Ping)),
        };
        self.phase = p;
        a
    }
}

/// Feeds `es` to a client in phase `p` as long as each event can happen;
/// the resulting phase and the actions taken.
pub open spec fn run_client(p: ClientPhase, es: Seq<ClientEvent>) -> (ClientPhase, Seq<ClientAction>)
    decreases es.len(),
{
    if es.len() == 0 || !client_expects(p, es[0]) {
        (p, seq![])
    } else {
        let (p1, a) = client_step(p, es[0]);
        let (p2, rest) = run_client(p1, es.drop_first());
        (p2, seq![a] + rest)
    }
}

/// However its events unfold, the client takes at most two actions; it
/// reports a pong at most once, and does so exactly when it connected and the
/// ping stream answered or ended without failing; after reporting or
/// aborting it does nothing more.
pub proof fn lemma_client_reports_once(es: Seq<ClientEvent>)
    ensures
        ({
            let (p, acts) = run_client(ClientPhase::Connecting, es);
            &&& acts.len() <= 2
            &&& acts.len() <= es.len()
            &&& (acts.contains(ClientAction::ReportPong) <==> (es.len() >= 2 && es[0]
                == ClientEvent::Connected && (es[1] == ClientEvent::Pong || es[1]
                == ClientEvent::StreamClosed)))
            &&& (acts.contains(ClientAction::ReportPong) ==> acts == seq![
                ClientAction::SendPing,
                ClientAction::ReportPong,
            ])
            &&& (p == ClientPhase::Done ==> acts.last() is ReportPong || acts.last() is Abort)
        }),
{
    let (p, acts) = run_client(ClientPhase::Connecting, es);
    if es.len() == 0 || !client_expects(ClientPhase::Connecting, es[0]) {
        assert(acts =~= seq![]);
    } else {
        let r1 = es.drop_first();
        if es[0] == ClientEvent::ConnectFailed {
            assert(run_client(ClientPhase::Done, r1).1 =~= seq![]);
            assert(acts =~= seq![ClientAction::Abort(ClientFault::Connect)]);
        } else {
            let r2 = r1.drop_first();
            assert(run_client(ClientPhase::Done, r2).1 =~= seq![]);
            if r1.len() == 0 || !client_expects(ClientPhase::AwaitingPong, r1[0]) {
                assert(run_client(ClientPhase::AwaitingPong, r1).1 =~= seq![]);
                assert(acts =~= seq![ClientAction::SendPing]);
                assert(!acts.contains(ClientAction::ReportPong)) by {
                    if acts.contains(ClientAction::ReportPong) {
                        let i = choose|i: int| 0 <= i < acts.len() && acts[i] == ClientAction::ReportPong;
                        assert(acts[i] == ClientAction::SendPing);
                    }
                }
            } else {
                let (p2, a2) = client_step(ClientPhase::AwaitingPong, r1[0]);
                assert(run_client(ClientPhase::AwaitingPong, r1).1 =~= seq![a2]);
                assert(acts =~= seq![ClientAction::SendPing, a2]);
                assert(r1[0] == es[1]);
                if a2 != ClientAction::ReportPong {
                    assert(!acts.contains(ClientAction::ReportPong)) by {
                        if acts.contains(ClientAction::ReportPong) {
                            let i = choose|i: int| 0 <= i < acts.len() && acts[i] == ClientAction::ReportPong;
                            assert(acts[i] == ClientAction::SendPing || acts[i] == a2);
                        }
                    }
                } else {
                    assert(acts[1] == ClientAction::ReportPong);
                }
            }
        }
    }
}

/// What the ping client expects to hear: while connecting, either outcome
/// of the connection (success or failure); while awaiting the pong, every
/// outcome of the ping stream (a pong, its end, or its failure) and nothing
/// about the connection; once done, nothing at all.
pub proof fn lemma_client_expected_events()
    ensures
        client_expects(ClientPhase::Connecting, ClientEvent::Connected),
        client_expects(ClientPhase::Connecting, ClientEvent::ConnectFailed),
        !client_expects(ClientPhase::Connecting, ClientEvent::Pong),
        !client_expects(ClientPhase::Connecting, ClientEvent::StreamClosed),
        !client_expects(ClientPhase::Connecting, ClientEvent::PingFailed),
        client_expects(ClientPhase::AwaitingPong, ClientEvent::Pong),
        client_expects(ClientPhase::AwaitingPong, ClientEvent::StreamClosed),
        client_expects(ClientPhase::AwaitingPong, ClientEvent::PingFailed),
        !client_expects(ClientPhase::AwaitingPong, ClientEvent::Connected),
        !client_expects(ClientPhase::AwaitingPong, ClientEvent::ConnectFailed),
        forall|e: ClientEvent| !client_expects(ClientPhase::Done, e),
{
}

/// Every way a ping client's life can go: a failed connection aborts at
/// once; a connection leads to one ping, after which a pong or the end of
/// the stream is reported as a pong and a failed stream aborts.
pub proof fn lemma_client_outcomes()
    ensures
        run_client(ClientPhase::Connecting, seq![ClientEvent::ConnectFailed]) == (
            ClientPhase::Done,
            seq![ClientAction::Abort(ClientFault::Connect)],
        ),
        run_client(ClientPhase::Connecting, seq![ClientEvent::Connected, ClientEvent::Pong]) == (
            ClientPhase::Done,
            seq![ClientAction::SendPing, ClientAction::ReportPong],
        ),
        run_client(ClientPhase::Connecting, seq![ClientEvent::Connected, ClientEvent::StreamClosed])
            == (ClientPhase::Done, seq![ClientAction::SendPing, ClientAction::ReportPong]),
        run_client(ClientPhase::Connecting, seq![ClientEvent::Connected, ClientEvent::PingFailed])
            == (ClientPhase::Done, seq![ClientAction::SendPing, ClientAction::Abort(ClientFault::Ping)]),
{
    let c = seq![ClientEvent::ConnectFailed];
    assert(c.drop_first() =~= seq![]);
    assert(c[0] == ClientEvent::ConnectFailed);
    assert(run_client(ClientPhase::Done, c.drop_first()) == (ClientPhase::Done, Seq::<ClientAction>::empty()));
    assert(run_client(ClientPhase::Connecting, c).1 =~= seq![ClientAction::Abort(ClientFault::Connect)]);
    let ends = seq![ClientEvent::Pong, ClientEvent::StreamClosed, ClientEvent::PingFailed];
    assert forall|i: int| 0 <= i < 3 implies ({
        let es = seq![ClientEvent::Connected, #[trigger] ends[i]];
        let last = client_step(ClientPhase::AwaitingPong, ends[i]).1;
        run_client(ClientPhase::Connecting, es) == (ClientPhase::Done, seq![ClientAction::SendPing, last])
    }) by {
        let es = seq![ClientEvent::Connected, ends[i]];
        let last = client_step(ClientPhase::AwaitingPong, ends[i]).1;
        assert(es.drop_first().drop_first() =~= seq![]);
        assert(es.drop_first()[0] == ends[i]);
        assert(run_client(ClientPhase::AwaitingPong, es.drop_first()).1 =~= seq![last]);
        assert(run_client(ClientPhase::Connecting, es).1 =~= seq![ClientAction::SendPing, last]);
    }
    assert(ends[0] == ClientEvent::Pong);
    assert(ends[1] == ClientEvent::StreamClosed);
    assert(ends[2] == ClientEvent::PingFailed);
}

/// What the ping listener's stream of incoming connections yielded, or what
/// happened to the connection it serves.
#[derive(PartialEq, Eq, Structural, Clone, Copy, Debug)]
pub enum ListenerEvent {
    /// A connection was accepted and the ping protocol negotiated on it.
    Incoming,
    /// The listener will accept no more connections.
    IncomingEnded,
    /// Accepting or negotiating failed.
    IncomingFailed,
    /// The served connection finished without error.
    Served,
    /// The served connection failed.
    ServeFailed,
}

/// Why the ping listener stops with an error.
#[derive(PartialEq, Eq, Structural, Clone, Copy, Debug)]
pub enum ListenerFault {
    /// No connection ever came.
    NoConnection,
    /// Accepting or negotiating the first connection failed.
    Accept,
    /// Serving the connection failed.
    Serve,
}

/// What the ping listener does next.
#[derive(PartialEq, Eq, Structural, Clone, Copy, Debug)]
pub enum ListenerAction {
    /// Answer pings on this connection until it finishes.
    Serve,
    /// This connection is not served: close it.
    Refuse,
    /// The served connection is finished; so is the listener.
    Finish,
    /// Stop with an error.
    Abort(ListenerFault),
}

/// The ping listener's progress.
#[derive(PartialEq, Eq, Structural, Clone, Copy, Debug)]
pub enum ListenerPhase {
    Waiting,
    Serving,
    Done,
}

/// Whether `e` can happen in phase `p`.
pub open spec fn listener_expects(p: ListenerPhase, e: ListenerEvent) -> bool {
    match p {
        ListenerPhase::Waiting => e == ListenerEvent::Incoming || e == ListenerEvent::IncomingEnded
            || e == ListenerEvent::IncomingFailed,
        ListenerPhase::Serving => e == ListenerEvent::Incoming || e == ListenerEvent::Served || e
            == ListenerEvent::ServeFailed,
        ListenerPhase::Done => false,
    }
}

/// The listener's transition: the first connection is served, any later one
/// is refused, and the listener ends with the served connection.
pub open spec fn listener_step(p: ListenerPhase, e: ListenerEvent) -> (ListenerPhase, ListenerAction) {
    match e {
        ListenerEvent::Incoming => if p == ListenerPhase::Waiting {
            (ListenerPhase::Serving, ListenerAction::Serve)
        } else {
            (p, ListenerAction::Refuse)
        },
        ListenerEvent::IncomingEnded => (
            ListenerPhase::Done,
            ListenerAction::Abort(ListenerFault::NoConnection),
        ),
        ListenerEvent::IncomingFailed => (
            ListenerPhase::Done,
            ListenerAction::Abort(ListenerFault::Accept),
        ),
        ListenerEvent::Served => (ListenerPhase::Done, ListenerAction::Finish),
        ListenerEvent::ServeFailed => (
            ListenerPhase::Done,
            ListenerAction::Abort(ListenerFault::Serve),
        ),
    }
}

/// The ping listener.
pub struct PingListener {
    phase: ListenerPhase,
}

impl View for PingListener {
    type V = ListenerPhase;

    closed spec fn view(&self) -> ListenerPhase {
        self.phase
    }
}

impl PingListener {
    /// A listener waiting for its first connection.
    pub fn new() -> (l: PingListener)
        ensures
            l@ == ListenerPhase::Waiting,
    {
        PingListener { phase: ListenerPhase::Waiting }
    }

    /// Where the listener is.
    pub fn phase(&self) -> (p: ListenerPhase)
        ensures
            p == self@,
    {
        self.phase
    }

    /// Whether `e` can happen now.
    pub fn expects(&self, e: ListenerEvent) -> (r: bool)
        ensures
            r == listener_expects(self@, e),
    {
        match self.phase {
            ListenerPhase::Waiting => e == ListenerEvent::Incoming || e
                == ListenerEvent::IncomingEnded || e == ListenerEvent::IncomingFailed,
            ListenerPhase::Serving => e == ListenerEvent::Incoming || e == ListenerEvent::Served
                || e == ListenerEvent::ServeFailed,
            ListenerPhase::Done => false,
        }
    }

    /// `e` happened.
    pub fn on_event(&mut self, e: ListenerEvent) -> (a: ListenerAction)
        requires
            listener_expects(old(self)@, e),
        ensures
            (final(self)@, a) == listener_step(old(self)@, e),
    {
        let (p, a) = match e {
            ListenerEvent::Incoming => if self.phase == ListenerPhase::Waiting {
                (ListenerPhase::Serving, ListenerAction::Serve)
            } else {
                (self.phase, ListenerAction::Refuse)
            },
            ListenerEvent::IncomingEnded => (
                ListenerPhase::Done,
                ListenerAction::Abort(ListenerFault::NoConnection),
            ),
            ListenerEvent::IncomingFailed => (
                ListenerPhase::Done,
                ListenerAction::Abort(ListenerFault::Accept),
            ),
            ListenerEvent::Served => (ListenerPhase::Done, ListenerAction::Finish),
            ListenerEvent::ServeFailed => (
                ListenerPhase::Done,
                ListenerAction::Abort(ListenerFault::Serve),
            ),
        };
        self.phase = p;
        a
    }
}

/// Feeds `es` to a listener in phase `p` as long as each event can happen;
/// the resulting phase and the actions taken.
pub open spec fn run_listener(p: ListenerPhase, es: Seq<ListenerEvent>) -> (ListenerPhase, Seq<ListenerAction>)
    decreases es.len(),
{
    if es.len() == 0 || !listener_expects(p, es[0]) {
        (p, seq![])
    } else {
        let (p1, a) = listener_step(p, es[0]);
        let (p2, rest) = run_listener(p1, es.drop_first());
        (p2, seq![a] + rest)
    }
}

/// How many times `acts` serves a connection.
pub open spec fn serve_count(acts: Seq<ListenerAction>) -> nat
    decreases acts.len(),
{
    if acts.len() == 0 {
        0
    } else {
        (if acts[0] == ListenerAction::Serve { 1nat } else { 0nat }) + serve_count(acts.drop_first())
    }
}

/// The listener serves at most one connection, and from a waiting listener
/// the first action that is not a refusal is serving the first connection,
/// aborting, or nothing at all: once a connection is served, every later
/// one is refused until the served one finishes.
pub proof fn lemma_listener_serves_one(p: ListenerPhase, es: Seq<ListenerEvent>)
    requires
        p == ListenerPhase::Waiting || p == ListenerPhase::Serving,
    ensures
        serve_count(run_listener(p, es).1) <= if p == ListenerPhase::Waiting { 1nat } else { 0nat },
        p == ListenerPhase::Waiting && es.len() > 0 && es[0] == ListenerEvent::Incoming
            ==> run_listener(p, es).1[0] == ListenerAction::Serve,
    decreases es.len(),
{
    if es.len() > 0 && listener_expects(p, es[0]) {
        let (p1, a) = listener_step(p, es[0]);
        let rest = es.drop_first();
        let acts = run_listener(p, es).1;
        assert(acts.drop_first() =~= run_listener(p1, rest).1);
        assert(acts.len() > 0 && acts[0] == a);
        assert(serve_count(acts) == (if a == ListenerAction::Serve { 1nat } else { 0nat })
            + serve_count(acts.drop_first()));
        if p1 != ListenerPhase::Done {
            lemma_listener_serves_one(p1, rest);
        } else {
            assert(run_listener(p1, rest).1 =~= seq![]);
        }
    }
}

/// What the ping listener expects to hear: while waiting, a connection, the
/// end of the connection stream, or its failure; while serving, further
/// connections (to be refused) and the end or failure of the served one;
/// once done, nothing at all.
pub proof fn lemma_listener_expected_events()
    ensures
        listener_expects(ListenerPhase::Waiting, ListenerEvent::Incoming),
        listener_expects(ListenerPhase::Waiting, ListenerEvent::IncomingEnded),
        listener_expects(ListenerPhase::Waiting, ListenerEvent::IncomingFailed),
        !listener_expects(ListenerPhase::Waiting, ListenerEvent::Served),
        !listener_expects(ListenerPhase::Waiting, ListenerEvent::ServeFailed),
        listener_expects(ListenerPhase::Serving, ListenerEvent::Incoming),
        listener_expects(ListenerPhase::Serving, ListenerEvent::Served),
        listener_expects(ListenerPhase::Serving, ListenerEvent::ServeFailed),
        !listener_expects(ListenerPhase::Serving, ListenerEvent::IncomingEnded),
        !listener_expects(ListenerPhase::Serving, ListenerEvent::IncomingFailed),
        forall|e: ListenerEvent| !listener_expects(ListenerPhase::Done, e),
{
}

/// `k` later connections.
pub open spec fn later_connections(k: nat) -> Seq<ListenerEvent> {
    Seq::new(k, |i: int| ListenerEvent::Incoming)
}

/// `k` refusals.
pub open spec fn refusals(k: nat) -> Seq<ListenerAction> {
    Seq::new(k, |i: int| ListenerAction::Refuse)
}

/// While a connection is served, any number of later connections are each
/// refused and leave the listener serving, so that the end of the served
/// connection still finishes the listener (and a failure of it aborts).
pub proof fn lemma_listener_refuses_and_keeps_serving(k: nat)
    ensures
        run_listener(ListenerPhase::Serving, later_connections(k)) == (
            ListenerPhase::Serving,
            refusals(k),
        ),
        run_listener(ListenerPhase::Serving, later_connections(k).push(ListenerEvent::Served)) == (
            ListenerPhase::Done,
            refusals(k).push(ListenerAction::Finish),
        ),
        run_listener(ListenerPhase::Serving, later_connections(k).push(ListenerEvent::ServeFailed))
            == (ListenerPhase::Done, refusals(k).push(ListenerAction::Abort(ListenerFault::Serve))),
        run_listener(
            ListenerPhase::Waiting,
            seq![ListenerEvent::Incoming] + later_connections(k).push(ListenerEvent::Served),
        ) == (ListenerPhase::Done, seq![ListenerAction::Serve] + refusals(k).push(
            ListenerAction::Finish,
        )),
    decreases k,
{
    lemma_refusals_then(k, ListenerEvent::Served);
    lemma_refusals_then(k, ListenerEvent::ServeFailed);
    lemma_refusals_only(k);
    let es = seq![ListenerEvent::Incoming] + later_connections(k).push(ListenerEvent::Served);
    assert(es.drop_first() =~= later_connections(k).push(ListenerEvent::Served));
    assert(es[0] == ListenerEvent::Incoming);
}

proof fn lemma_refusals_only(k: nat)
    ensures
        run_listener(ListenerPhase::Serving, later_connections(k)) == (
            ListenerPhase::Serving,
            refusals(k),
        ),
    decreases k,
{
    if k == 0 {
        assert(later_connections(0) =~= seq![]);
        assert(refusals(0) =~= seq![]);
    } else {
        lemma_refusals_only((k - 1) as nat);
        assert(later_connections(k).drop_first() =~= later_connections((k - 1) as nat));
        assert(later_connections(k)[0] == ListenerEvent::Incoming);
        assert(refusals(k) =~= seq![ListenerAction::Refuse] + refusals((k - 1) as nat));
    }
}

proof fn lemma_refusals_then(k: nat, last: ListenerEvent)
    requires
        last == ListenerEvent::Served || last == ListenerEvent::ServeFailed,
    ensures
        run_listener(ListenerPhase::Serving, later_connections(k).push(last)) == (
            ListenerPhase::Done,
            refusals(k).push(listener_step(ListenerPhase::Serving, last).1),
        ),
    decreases k,
{
    let a = listener_step(ListenerPhase::Serving, last).1;
    let es = later_connections(k).push(last);
    if k == 0 {
        assert(es =~= seq![last]);
        assert(es.drop_first() =~= seq![]);
        assert(es[0] == last);
        assert(run_listener(ListenerPhase::Done, es.drop_first()) == (ListenerPhase::Done, Seq::<ListenerAction>::empty()));
        assert(refusals(0).push(a) =~= seq![a]);
        assert(run_listener(ListenerPhase::Serving, es).1 =~= seq![a]);
    } else {
        lemma_refusals_then((k - 1) as nat, last);
        assert(es.drop_first() =~= later_connections((k - 1) as nat).push(last));
        assert(es[0] == ListenerEvent::Incoming);
        assert(refusals(k).push(a) =~= seq![ListenerAction::Refuse] + refusals((k - 1) as nat).push(a));
    }
}

/// From a waiting listener: the first connection is served; if the stream of
/// connections ends without one, or fails, the listener stops with that
/// reason.
pub proof fn lemma_listener_first_outcomes()
    ensures
        listener_step(ListenerPhase::Waiting, ListenerEvent::Incoming) == (
            ListenerPhase::Serving,
            ListenerAction::Serve,
        ),
        listener_step(ListenerPhase::Waiting, ListenerEvent::IncomingEnded) == (
            ListenerPhase::Done,
            ListenerAction::Abort(ListenerFault::NoConnection),
        ),
        listener_step(ListenerPhase::Waiting, ListenerEvent::IncomingFailed) == (
            ListenerPhase::Done,
            ListenerAction::Abort(ListenerFault::Accept),
        ),
        listener_step(ListenerPhase::Serving, ListenerEvent::Incoming) == (
            ListenerPhase::Serving,
            ListenerAction::Refuse,
        ),
{
}

} // verus!
