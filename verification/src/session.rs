//! One accepted TCP connection of the logging listener: every chunk of bytes
//! that arrives is logged, and the end of the stream is reported once, as a
//! clean close (FIN) or as an error.

use vstd::prelude::*;

verus! {

/// What the connection's byte stream yielded.
pub enum StreamEvent {
    /// A chunk of bytes arrived.
    Chunk(Vec<u8>),
    /// The peer closed its side (FIN).
    End,
    /// Reading failed; the text describes the error.
    Failed(String),
}

/// A line of the connection's log.
#[derive(Debug, PartialEq, Eq)]
pub enum LogLine {
    /// "bytes: ..." for a chunk that arrived.
    Bytes(Vec<u8>),
    /// "Socket received FIN packet and closed connection".
    FinReceived,
    /// "Socket closed with error: ...".
    ClosedWithError(String),
    /// "Socket closed with result: ...": `None` for `Ok(())`, the error otherwise.
    ClosedWithResult(Option<String>),
}

pub enum StreamEventView {
    Chunk(Seq<u8>),
    End,
    Failed(Seq<char>),
}

pub enum LogLineView {
    Bytes(Seq<u8>),
    FinReceived,
    ClosedWithError(Seq<char>),
    ClosedWithResult(Option<Seq<char>>),
}

impl View for StreamEvent {
    type V = StreamEventView;

    open spec fn view(&self) -> StreamEventView {
        match self {
            StreamEvent::Chunk(b) => StreamEventView::Chunk(b@),
            StreamEvent::End => StreamEventView::End,
            StreamEvent::Failed(e) => StreamEventView::Failed(e@),
        }
    }
}

impl View for LogLine {
    type V = LogLineView;

    open spec fn view(&self) -> LogLineView {
        match self {
            LogLine::Bytes(b) => LogLineView::Bytes(b@),
            LogLine::FinReceived => LogLineView::FinReceived,
            LogLine::ClosedWithError(e) => LogLineView::ClosedWithError(e@),
            LogLine::ClosedWithResult(r) => LogLineView::ClosedWithResult(
                match r {
                    Some(e) => Some(e@),
                    None => None,
                },
            ),
        }
    }
}

/// The lines logged for one event while the connection is open, and whether
/// it is still open afterwards.
pub open spec fn session_step(e: StreamEventView) -> (bool, Seq<LogLineView>) {
    match e {
        StreamEventView::Chunk(b) => (true, seq![LogLineView::Bytes(b)]),
        StreamEventView::End => (
            false,
            seq![LogLineView::FinReceived, LogLineView::ClosedWithResult(None)],
        ),
        StreamEventView::Failed(err) => (
            false,
            seq![LogLineView::ClosedWithError(err), LogLineView::ClosedWithResult(Some(err))],
        ),
    }
}

/// The logging state of one connection.
pub struct Session {
    open: bool,
}

impl View for Session {
    type V = bool;

    /// Whether the connection's stream is still being read.
    closed spec fn view(&self) -> bool {
        self.open
    }
}

impl Session {
    /// A freshly accepted connection.
    pub fn new() -> (s: Session)
        ensures
            s@,
    {
        Session { open: true }
    }

    /// Whether the stream is still being read.
    pub fn is_open(&self) -> (r: bool)
        ensures
            r == self@,
    {
        self.open
    }

    /// The stream yielded `e`; the lines to log, in order.
    pub fn on_event(&mut self, e: StreamEvent) -> (lines: Vec<LogLine>)
        requires
            old(self)@,
        ensures
            (final(self)@, lines@.map_values(|l: LogLine| l@)) == session_step(e@),
    {
        let mut lines: Vec<LogLine> = Vec::new();
        match e {
            StreamEvent::Chunk(b) => {
                lines.push(LogLine::Bytes(b));
            },
            StreamEvent::End => {
                self.open = false;
                lines.push(LogLine::FinReceived);
                lines.push(LogLine::ClosedWithResult(None));
            },
            StreamEvent::Failed(err) => {
                self.open = false;
                let copy = err.clone();
                lines.push(LogLine::ClosedWithError(err));
                lines.push(LogLine::ClosedWithResult(Some(copy)));
            },
        }
        proof {
            assert(lines@.map_values(|l: LogLine| l@) =~= session_step(e@).1);
        }
        lines
    }
}

/// Feeds `es` to a connection that is open when `open` holds, up to the event
/// that closes it; whether it is open afterwards and everything it logged.
pub open spec fn run_session(open: bool, es: Seq<StreamEventView>) -> (bool, Seq<LogLineView>)
    decreases es.len(),
{
    if es.len() == 0 || !open {
        (open, seq![])
    } else {
        let (o1, lines) = session_step(es[0]);
        let (o2, rest) = run_session(o1, es.drop_first());
        (o2, lines + rest)
    }
}

/// The chunks at the head of `es`, up to the first event that is not a chunk.
pub open spec fn leading_chunks(es: Seq<StreamEventView>) -> Seq<Seq<u8>>
    decreases es.len(),
{
    if es.len() == 0 {
        seq![]
    } else {
        match es[0] {
            StreamEventView::Chunk(b) => seq![b] + leading_chunks(es.drop_first()),
            _ => seq![],
        }
    }
}

/// The payloads of the `Bytes` lines of `ls`, in order.
pub open spec fn logged_chunks(ls: Seq<LogLineView>) -> Seq<Seq<u8>>
    decreases ls.len(),
{
    if ls.len() == 0 {
        seq![]
    } else {
        match ls[0] {
            LogLineView::Bytes(b) => seq![b] + logged_chunks(ls.drop_first()),
            _ => logged_chunks(ls.drop_first()),
        }
    }
}

/// How many "closed with result" lines `ls` holds.
pub open spec fn closing_reports(ls: Seq<LogLineView>) -> nat
    decreases ls.len(),
{
    if ls.len() == 0 {
        0
    } else {
        (if ls[0] is ClosedWithResult { 1nat } else { 0nat }) + closing_reports(ls.drop_first())
    }
}

/// Whether some event of `es` ends the stream.
pub open spec fn ends(es: Seq<StreamEventView>) -> bool {
    exists|i: int| 0 <= i < es.len() && !(#[trigger] es[i] is Chunk)
}

/// The first event of `es` that is not a chunk.
pub open spec fn first_end(es: Seq<StreamEventView>) -> StreamEventView
    decreases es.len(),
{
    if es.len() == 0 {
        StreamEventView::End
    } else if es[0] is Chunk {
        first_end(es.drop_first())
    } else {
        es[0]
    }
}

/// Every chunk that arrives before the stream ends is logged, once and in
/// order; a connection whose stream ends is reported closed exactly once,
/// with the last line of its log, and successfully exactly when the peer
/// closed cleanly; a connection whose stream has not ended is still open and
/// has reported no close.
pub proof fn lemma_session_log(es: Seq<StreamEventView>)
    ensures
        logged_chunks(run_session(true, es).1) == leading_chunks(es),
        ends(es) ==> {
            let (open, ls) = run_session(true, es);
            &&& !open
            &&& closing_reports(ls) == 1
            &&& ls.last() == LogLineView::ClosedWithResult(
                match first_end(es) {
                    StreamEventView::Failed(err) => Some(err),
                    _ => None,
                },
            )
        },
        !ends(es) ==> run_session(true, es).0 && closing_reports(run_session(true, es).1) == 0,
    decreases es.len(),
{
    lemma_logged_chunks_concat(seq![], seq![]);
    if es.len() > 0 {
        let (o1, lines) = session_step(es[0]);
        let rest = es.drop_first();
        let ls = run_session(true, es).1;
        if o1 {
            lemma_session_log(rest);
            let rls = run_session(true, rest).1;
            lemma_logged_chunks_concat(lines, rls);
            lemma_closing_reports_concat(lines, rls);
            assert(lines.drop_first() =~= seq![]);
            assert(es[0] is Chunk);
            assert(lines.len() == 1 && lines[0] is Bytes);
            assert(closing_reports(lines.drop_first()) == 0);
            assert(closing_reports(lines) == 0);
            assert(ls =~= lines + rls);
            assert(first_end(es) == first_end(rest));
            if ends(es) {
                let j = choose|j: int| 0 <= j < es.len() && !(#[trigger] es[j] is Chunk);
                assert(rest[j - 1] == es[j]);
                assert(rls.len() > 0);
                assert(ls.last() == rls.last());
            }
            if ends(rest) {
                let j = choose|j: int| 0 <= j < rest.len() && !(#[trigger] rest[j] is Chunk);
                assert(es[j + 1] == rest[j]);
            }
        } else {
            assert(run_session(false, rest).1 =~= seq![]);
            assert(ls =~= lines);
            assert(lines.drop_first().drop_first() =~= seq![]);
            assert(logged_chunks(lines.drop_first().drop_first()) =~= seq![]);
            assert(logged_chunks(lines.drop_first()) =~= seq![]);
            assert(logged_chunks(lines) =~= seq![]);
            assert(closing_reports(lines.drop_first().drop_first()) == 0);
            assert(closing_reports(lines.drop_first()) == 1);
            assert(closing_reports(lines) == 1);
            assert(!(es[0] is Chunk));
            assert(first_end(es) == es[0]);
        }
    }
}

proof fn lemma_logged_chunks_concat(a: Seq<LogLineView>, b: Seq<LogLineView>)
    ensures
        logged_chunks(a + b) == logged_chunks(a) + logged_chunks(b),
    decreases a.len(),
{
    if a.len() == 0 {
        assert(a + b =~= b);
        assert(logged_chunks(a) + logged_chunks(b) =~= logged_chunks(b));
    } else {
        lemma_logged_chunks_concat(a.drop_first(), b);
        assert((a + b).drop_first() =~= a.drop_first() + b);
        assert(logged_chunks(a + b) =~= logged_chunks(a) + logged_chunks(b));
    }
}

proof fn lemma_closing_reports_concat(a: Seq<LogLineView>, b: Seq<LogLineView>)
    ensures
        closing_reports(a + b) == closing_reports(a) + closing_reports(b),
    decreases a.len(),
{
    if a.len() == 0 {
        assert(a + b =~= b);
    } else {
        lemma_closing_reports_concat(a.drop_first(), b);
        assert((a + b).drop_first() =~= a.drop_first() + b);
    }
}

/// Each event of an open connection: a chunk is logged unchanged and the
/// connection stays open; a clean end logs the FIN and a successful close;
/// a failure logs the error and a failed close carrying that same error.
/// Either end closes the connection.
pub proof fn lemma_session_event_outcomes(chunk: Seq<u8>, err: Seq<char>)
    ensures
        session_step(StreamEventView::Chunk(chunk)) == (true, seq![LogLineView::Bytes(chunk)]),
        session_step(StreamEventView::End) == (
            false,
            seq![LogLineView::FinReceived, LogLineView::ClosedWithResult(None)],
        ),
        session_step(StreamEventView::Failed(err)) == (
            false,
            seq![LogLineView::ClosedWithError(err), LogLineView::ClosedWithResult(Some(err))],
        ),
{
}

} // verus!
