//! The dialing peers: connect to the service address, write one payload
//! with a single write, and finish; one of them does so once per tick.

use vstd::prelude::*;

verus! {

/// The bytes of "hello, libp2p" (ASCII).
pub open spec fn hello_bytes() -> Seq<u8> {
    seq![104u8, 101, 108, 108, 111, 44, 32, 108, 105, 98, 112, 50, 112]
}

/// The text payload written by the hello dialers.
pub fn hello() -> (h: Vec<u8>)
    ensures
        h@ == hello_bytes(),
{
    let h = vec![104u8, 101, 108, 108, 111, 44, 32, 108, 105, 98, 112, 50, 112];
    assert(h@ =~= hello_bytes());
    h
}

/// Milliseconds between two dials of the repeating dialer.
pub const TICK_PERIOD_MS: u64 = 1000;

/// What happened to a dial.
#[derive(PartialEq, Eq, Structural, Clone, Copy, Debug)]
pub enum DialerEvent {
    /// The connection is up.
    Connected,
    /// The connection could not be established.
    DialFailed,
    /// The single write accepted this many bytes.
    Written(usize),
    /// The write failed.
    WriteFailed,
}

/// Why a dial stops with an error.
#[derive(PartialEq, Eq, Structural, Clone, Copy, Debug)]
pub enum DialerFault {
    Dial,
    Write,
}

/// What the dialer does next.
#[derive(Debug, PartialEq, Eq)]
pub enum DialerAction {
    /// Write these bytes with one write call.
    Write(Vec<u8>),
    /// Done; this many bytes were accepted by the write.
    Finish { sent: usize },
    /// Stop with an error.
    Abort(DialerFault),
}

pub enum DialerActionView {
    Write(Seq<u8>),
    Finish { sent: nat },
    Abort(DialerFault),
}

impl View for DialerAction {
    type V = DialerActionView;

    open spec fn view(&self) -> DialerActionView {
        match self {
            DialerAction::Write(b) => DialerActionView::Write(b@),
            DialerAction::Finish { sent } => DialerActionView::Finish { sent: *sent as nat },
            DialerAction::Abort(f) => DialerActionView::Abort(*f),
        }
    }
}

#[derive(PartialEq, Eq, Structural, Clone, Copy, Debug)]
pub enum DialerPhase {
    Connecting,
    Writing,
    Done,
}

pub struct DialerView {
    pub payload: Seq<u8>,
    pub phase: DialerPhase,
}

/// Whether `e` can happen in phase `p` of a dial that writes `payload`.
pub open spec fn dialer_expects(s: DialerView, e: DialerEvent) -> bool {
    match s.phase {
        DialerPhase::Connecting => e == DialerEvent::Connected || e == DialerEvent::DialFailed,
        DialerPhase::Writing => match e {
            DialerEvent::Written(n) => n <= s.payload.len(),
            DialerEvent::WriteFailed => true,
            _ => false,
        },
        DialerPhase::Done => false,
    }
}

/// The dial's transition: once connected, write the payload once; whatever
/// the write accepted, finish.
pub open spec fn dialer_step(s: DialerView, e: DialerEvent) -> (DialerView, DialerActionView) {
    match e {
        DialerEvent::Connected => (
            DialerView { phase: DialerPhase::Writing, ..s },
            DialerActionView::Write(s.payload),
        ),
        DialerEvent::DialFailed => (
            DialerView { phase: DialerPhase::Done, ..s },
            DialerActionView::Abort(DialerFault::Dial),
        ),
        DialerEvent::Written(n) => (
            DialerView { phase: DialerPhase::Done, ..s },
            DialerActionView::Finish { sent: n as nat },
        ),
        DialerEvent::WriteFailed => (
            DialerView { phase: DialerPhase::Done, ..s },
            DialerActionView::Abort(DialerFault::Write),
        ),
    }
}

/// One dial that writes a payload.
pub struct Dialer {
    payload: Vec<u8>,
    phase: DialerPhase,
}

impl View for Dialer {
    type V = DialerView;

    closed spec fn view(&self) -> DialerView {
        DialerView { payload: self.payload@, phase: self.phase }
    }
}

impl Dialer {
    /// A dial, in progress, that will write `payload`.
    pub fn new(payload: Vec<u8>) -> (d: Dialer)
        ensures
            d@ == (DialerView { payload: payload@, phase: DialerPhase::Connecting }),
    {
        Dialer { payload, phase: DialerPhase::Connecting }
    }

    /// Where the dial is.
    pub fn phase(&self) -> (p: DialerPhase)
        ensures
            p == self@.phase,
    {
        self.phase
    }

    /// Whether `e` can happen now.
    pub fn expects(&self, e: DialerEvent) -> (r: bool)
        ensures
            r == dialer_expects(self@, e),
    {
        match self.phase {
            DialerPhase::Connecting => e == DialerEvent::Connected || e == DialerEvent::DialFailed,
            DialerPhase::Writing => match e {
                DialerEvent::Written(n) => n <= self.payload.len(),
                DialerEvent::WriteFailed => true,
                _ => false,
            },
            DialerPhase::Done => false,
        }
    }

    /// `e` happened.
    pub fn on_event(&mut self, e: DialerEvent) -> (a: DialerAction)
        requires
            dialer_expects(old(self)@, e),
        ensures
            (final(self)@, a@) == dialer_step(old(self)@, e),
    {
        match e {
            DialerEvent::Connected => {
                self.phase = DialerPhase::Writing;
                DialerAction::Write(self.payload.clone())
            },
            DialerEvent::DialFailed => {
                self.phase = DialerPhase::Done;
                DialerAction::Abort(DialerFault::Dial)
            },
            DialerEvent::Written(n) => {
                self.phase = DialerPhase::Done;
                DialerAction::Finish { sent: n }
            },
            DialerEvent::WriteFailed => {
                self.phase = DialerPhase::Done;
                DialerAction::Abort(DialerFault::Write)
            },
        }
    }
}

/// Feeds `es` to a dial in state `s` as long as each event can happen; the
/// resulting state and the actions taken.
pub open spec fn run_dialer(s: DialerView, es: Seq<DialerEvent>) -> (DialerView, Seq<DialerActionView>)
    decreases es.len(),
{
    if es.len() == 0 || !dialer_expects(s, es[0]) {
        (s, seq![])
    } else {
        let (s1, a) = dialer_step(s, es[0]);
        let (s2, rest) = run_dialer(s1, es.drop_first());
        (s2, seq![a] + rest)
    }
}

/// A dial writes its payload at most once, as its first action and only once
/// connected; it ends after that single write, whatever the write accepted
/// (a short write is not retried), and ends at once if the dial fails.
pub proof fn lemma_dial_writes_once(payload: Seq<u8>, es: Seq<DialerEvent>)
    ensures
        ({
            let s0 = DialerView { payload, phase: DialerPhase::Connecting };
            let (s, acts) = run_dialer(s0, es);
            &&& acts.len() <= 2
            &&& (forall|i: int| 0 < i < acts.len() ==> !(#[trigger] acts[i] is Write))
            &&& (acts.len() > 0 && acts[0] is Write) <==> (es.len() > 0 && es[0] == DialerEvent::Connected)
            &&& (acts.len() > 0 && acts[0] is Write) ==> acts[0] == DialerActionView::Write(payload)
            &&& acts.len() == 2 ==> s.phase == DialerPhase::Done && match es[1] {
                DialerEvent::Written(n) => acts[1] == DialerActionView::Finish { sent: n as nat },
                _ => acts[1] == DialerActionView::Abort(DialerFault::Write),
            }
        }),
{
    let s0 = DialerView { payload, phase: DialerPhase::Connecting };
    let acts = run_dialer(s0, es).1;
    if es.len() > 0 && dialer_expects(s0, es[0]) {
        let (s1, a) = dialer_step(s0, es[0]);
        let r1 = es.drop_first();
        if s1.phase == DialerPhase::Done {
            assert(run_dialer(s1, r1).1 =~= seq![]);
            assert(acts =~= seq![a]);
        } else if r1.len() > 0 && dialer_expects(s1, r1[0]) {
            let (s2, b) = dialer_step(s1, r1[0]);
            assert(run_dialer(s2, r1.drop_first()).1 =~= seq![]);
            assert(run_dialer(s1, r1).1 =~= seq![b]);
            assert(acts =~= seq![a, b]);
            assert(r1[0] == es[1]);
        } else {
            assert(run_dialer(s1, r1).1 =~= seq![]);
            assert(acts =~= seq![a]);
        }
    } else {
        assert(acts =~= seq![]);
    }
}

/// What a dial expects to hear: while connecting, either outcome of the
/// connection attempt; while writing, a failure or a write that accepted any
/// number of bytes up to the whole payload (a complete write included), but
/// never more than the payload; once done, nothing.
pub proof fn lemma_dialer_expected_events(payload: Seq<u8>, n: usize)
    ensures
        dialer_expects(DialerView { payload, phase: DialerPhase::Connecting }, DialerEvent::Connected),
        dialer_expects(DialerView { payload, phase: DialerPhase::Connecting }, DialerEvent::DialFailed),
        !dialer_expects(DialerView { payload, phase: DialerPhase::Connecting }, DialerEvent::Written(n)),
        !dialer_expects(DialerView { payload, phase: DialerPhase::Connecting }, DialerEvent::WriteFailed),
        n <= payload.len() ==> dialer_expects(DialerView { payload, phase: DialerPhase::Writing }, DialerEvent::Written(n)),
        n > payload.len() ==> !dialer_expects(DialerView { payload, phase: DialerPhase::Writing }, DialerEvent::Written(n)),
        payload.len() <= usize::MAX ==> dialer_expects(
            DialerView { payload, phase: DialerPhase::Writing },
            DialerEvent::Written(payload.len() as usize),
        ),
        dialer_expects(DialerView { payload, phase: DialerPhase::Writing }, DialerEvent::WriteFailed),
        !dialer_expects(DialerView { payload, phase: DialerPhase::Writing }, DialerEvent::Connected),
        !dialer_expects(DialerView { payload, phase: DialerPhase::Writing }, DialerEvent::DialFailed),
        forall|e: DialerEvent| !dialer_expects(DialerView { payload, phase: DialerPhase::Done }, e),
{
}

/// The whole life of a dial: connecting leads to writing the payload, and
/// the single write, however much of the payload it accepted (all of it
/// included), finishes the dial reporting exactly that amount; a failed
/// write or a failed dial aborts it.
pub proof fn lemma_dial_outcomes(payload: Seq<u8>, n: usize)
    requires
        n <= payload.len(),
    ensures
        run_dialer(
            DialerView { payload, phase: DialerPhase::Connecting },
            seq![DialerEvent::Connected, DialerEvent::Written(n)],
        ) == (DialerView { payload, phase: DialerPhase::Done }, seq![
            DialerActionView::Write(payload),
            DialerActionView::Finish { sent: n as nat },
        ]),
        run_dialer(
            DialerView { payload, phase: DialerPhase::Connecting },
            seq![DialerEvent::Connected, DialerEvent::WriteFailed],
        ) == (DialerView { payload, phase: DialerPhase::Done }, seq![
            DialerActionView::Write(payload),
            DialerActionView::Abort(DialerFault::Write),
        ]),
        run_dialer(
            DialerView { payload, phase: DialerPhase::Connecting },
            seq![DialerEvent::DialFailed],
        ) == (DialerView { payload, phase: DialerPhase::Done }, seq![
            DialerActionView::Abort(DialerFault::Dial),
        ]),
{
    let s0 = DialerView { payload, phase: DialerPhase::Connecting };
    let s1 = DialerView { payload, phase: DialerPhase::Writing };
    let s2 = DialerView { payload, phase: DialerPhase::Done };
    let es = seq![DialerEvent::Connected, DialerEvent::Written(n)];
    assert(es.drop_first().drop_first() =~= seq![]);
    assert(run_dialer(s1, es.drop_first()).1 =~= seq![DialerActionView::Finish { sent: n as nat }]);
    assert(run_dialer(s0, es).1 =~= seq![
        DialerActionView::Write(payload),
        DialerActionView::Finish { sent: n as nat },
    ]);
    let fs = seq![DialerEvent::Connected, DialerEvent::WriteFailed];
    assert(fs.drop_first().drop_first() =~= seq![]);
    assert(run_dialer(s1, fs.drop_first()).1 =~= seq![DialerActionView::Abort(DialerFault::Write)]);
    assert(run_dialer(s0, fs).1 =~= seq![
        DialerActionView::Write(payload),
        DialerActionView::Abort(DialerFault::Write),
    ]);
    let ds = seq![DialerEvent::DialFailed];
    assert(ds.drop_first() =~= seq![]);
    assert(run_dialer(s0, ds).1 =~= seq![DialerActionView::Abort(DialerFault::Dial)]);
    assert(run_dialer(s2, seq![]).0 == s2);
}

} // verus!
