//! The three-byte greeting: the dialing peer writes `[1, 2, 3]`; the
//! listening peer reads exactly three bytes from each connection and insists
//! that they are the greeting.

use vstd::prelude::*;

verus! {

/// The greeting's bytes.
pub open spec fn greeting_bytes() -> Seq<u8> {
    seq![1u8, 2, 3]
}

/// How many bytes the listener reads from each connection.
pub const GREETING_LEN: usize = 3;

/// The greeting the dialing peer writes.
pub fn greeting() -> (g: Vec<u8>)
    ensures
        g@ == greeting_bytes(),
{
    let g = vec![1u8, 2, 3];
    assert(g@ =~= greeting_bytes());
    g
}

/// Whether `buf` is the greeting.
pub fn is_greeting(buf: &[u8]) -> (r: bool)
    ensures
        r == (buf@ == greeting_bytes()),
{
    if buf.len() != 3 {
        assert(buf@.len() != greeting_bytes().len());
        return false;
    }
    let r = buf[0] == 1 && buf[1] == 2 && buf[2] == 3;
    if r {
        assert(buf@ =~= greeting_bytes());
    } else {
        assert(buf@ != greeting_bytes()) by {
            if buf@ == greeting_bytes() {
                assert(buf@[0] == 1 && buf@[1] == 2 && buf@[2] == 3);
            }
        }
    }
    r
}

/// What one read into the unfilled part of the buffer brought.
#[derive(Debug, PartialEq, Eq)]
pub enum ReadProgress {
    /// Some bytes arrived; the buffer is not full yet.
    Partial,
    /// The buffer is full; here it is.
    Complete(Vec<u8>),
    /// The stream ended before the buffer was full.
    UnexpectedEof,
}

pub enum ReadProgressView {
    Partial,
    Complete(Seq<u8>),
    UnexpectedEof,
}

impl View for ReadProgress {
    type V = ReadProgressView;

    open spec fn view(&self) -> ReadProgressView {
        match self {
            ReadProgress::Partial => ReadProgressView::Partial,
            ReadProgress::Complete(b) => ReadProgressView::Complete(b@),
            ReadProgress::UnexpectedEof => ReadProgressView::UnexpectedEof,
        }
    }
}

/// Reading exactly `want` bytes from a stream.
pub struct ExactRead {
    filled: Vec<u8>,
    want: usize,
}

pub struct ExactReadView {
    pub filled: Seq<u8>,
    pub want: nat,
}

impl View for ExactRead {
    type V = ExactReadView;

    closed spec fn view(&self) -> ExactReadView {
        ExactReadView { filled: self.filled@, want: self.want as nat }
    }
}

/// One read of `chunk` (at most the unfilled part; empty at the end of the stream).
pub open spec fn read_step(s: ExactReadView, chunk: Seq<u8>) -> (ExactReadView, ReadProgressView) {
    if chunk.len() == 0 {
        (s, ReadProgressView::UnexpectedEof)
    } else {
        let f = s.filled + chunk;
        (
            ExactReadView { filled: f, ..s },
            if f.len() == s.want {
                ReadProgressView::Complete(f)
            } else {
                ReadProgressView::Partial
            },
        )
    }
}

impl ExactRead {
    #[verifier::type_invariant]
    spec fn fits(self) -> bool {
        self.filled@.len() <= self.want
    }

    /// Starts reading `want` bytes.
    pub fn new(want: usize) -> (r: ExactRead)
        ensures
            r@ == (ExactReadView { filled: seq![], want: want as nat }),
    {
        ExactRead { filled: Vec::new(), want }
    }

    /// How many bytes are still missing.
    pub fn remaining(&self) -> (n: usize)
        ensures
            n == self@.want - self@.filled.len(),
            self@.filled.len() <= self@.want,
    {
        proof {
            use_type_invariant(self);
        }
        self.want - self.filled.len()
    }

    /// The buffer, once it is full.
    pub fn finished(&self) -> (r: Option<Vec<u8>>)
        ensures
            r is Some <==> self@.filled.len() == self@.want,
            r matches Some(b) ==> b@ == self@.filled,
    {
        if self.filled.len() == self.want {
            Some(self.filled.clone())
        } else {
            None
        }
    }

    /// A read into the unfilled part of the buffer returned `chunk`.
    pub fn on_read(&mut self, chunk: &[u8]) -> (p: ReadProgress)
        requires
            old(self)@.filled.len() < old(self)@.want,
            chunk@.len() <= old(self)@.want - old(self)@.filled.len(),
        ensures
            (final(self)@, p@) == read_step(old(self)@, chunk@),
            final(self)@.filled.len() <= final(self)@.want,
    {
        proof {
            use_type_invariant(&*self);
        }
        if chunk.len() == 0 {
            return ReadProgress::UnexpectedEof;
        }
        let ghost before = self.filled@;
        let mut filled = self.filled.clone();
        let mut i: usize = 0;
        while i < chunk.len()
            invariant
                i <= chunk@.len(),
                filled@ == before + chunk@.subrange(0, i as int),
            decreases chunk@.len() - i,
        {
            filled.push(chunk[i]);
            i = i + 1;
            assert(filled@ =~= before + chunk@.subrange(0, i as int));
        }
        assert(chunk@.subrange(0, chunk@.len() as int) =~= chunk@);
        self.filled = filled;
        if self.filled.len() == self.want {
            ReadProgress::Complete(self.filled.clone())
        } else {
            ReadProgress::Partial
        }
    }
}

/// The bytes of `chunks`, in order.
pub open spec fn concat(chunks: Seq<Seq<u8>>) -> Seq<u8>
    decreases chunks.len(),
{
    if chunks.len() == 0 {
        seq![]
    } else {
        chunks[0] + concat(chunks.drop_first())
    }
}

/// Feeds the reads `chunks` to a reader in state `s` while it still wants
/// bytes; the resulting state and the progress reported for each read.
pub open spec fn run_read(s: ExactReadView, chunks: Seq<Seq<u8>>) -> (ExactReadView, Seq<ReadProgressView>)
    decreases chunks.len(),
{
    if chunks.len() == 0 || s.filled.len() >= s.want {
        (s, seq![])
    } else {
        let (s1, p) = read_step(s, chunks[0]);
        if p is UnexpectedEof {
            (s1, seq![p])
        } else {
            let (s2, rest) = run_read(s1, chunks.drop_first());
            (s2, seq![p] + rest)
        }
    }
}

/// Whether no read of `chunks` came back empty.
pub open spec fn all_nonempty(chunks: Seq<Seq<u8>>) -> bool {
    forall|i: int| 0 <= i < chunks.len() ==> (#[trigger] chunks[i]).len() > 0
}

/// Bytes that arrive in non-empty reads, no more than the reader wants,
/// are appended to its buffer in the order they arrive; every read but the
/// one that fills the buffer reports partial progress, and the one that fills
/// it hands back the whole buffer.
pub proof fn lemma_reads_fill_in_order(s: ExactReadView, chunks: Seq<Seq<u8>>)
    requires
        s.filled.len() < s.want || chunks.len() == 0,
        all_nonempty(chunks),
        s.filled.len() + concat(chunks).len() <= s.want,
    ensures
        run_read(s, chunks).0 == (ExactReadView { filled: s.filled + concat(chunks), ..s }),
        run_read(s, chunks).1.len() == chunks.len(),
        forall|i: int|
            0 <= i < chunks.len() - 1 ==> #[trigger] run_read(s, chunks).1[i]
                == ReadProgressView::Partial,
        chunks.len() > 0 ==> run_read(s, chunks).1.last() == if s.filled.len() + concat(
            chunks,
        ).len() == s.want {
            ReadProgressView::Complete(s.filled + concat(chunks))
        } else {
            ReadProgressView::Partial
        },
    decreases chunks.len(),
{
    if chunks.len() == 0 {
        assert(s.filled + concat(chunks) =~= s.filled);
    } else {
        let rest = chunks.drop_first();
        let (s1, p) = read_step(s, chunks[0]);
        assert(chunks[0].len() > 0);
        assert(concat(chunks) == chunks[0] + concat(rest));
        assert(all_nonempty(rest)) by {
            assert forall|i: int| 0 <= i < rest.len() implies (#[trigger] rest[i]).len() > 0 by {
                assert(rest[i] == chunks[i + 1]);
            }
        }
        assert(s.filled + concat(chunks) =~= s1.filled + concat(rest));
        if rest.len() > 0 {
            assert(rest[0].len() > 0);
            assert(concat(rest) == rest[0] + concat(rest.drop_first()));
        }
        lemma_reads_fill_in_order(s1, rest);
        let ps = run_read(s, chunks).1;
        let rps = run_read(s1, rest).1;
        assert(ps == seq![p] + rps);
        if rest.len() == 0 {
            assert(concat(rest) =~= seq![]);
        }
        assert forall|i: int| 0 <= i < chunks.len() - 1 implies #[trigger] ps[i]
            == ReadProgressView::Partial by {
            if i > 0 {
                assert(ps[i] == rps[i - 1]);
            } else {
                assert(s1.filled.len() < s.want);
            }
        }
    }
}

/// A read that comes back empty before the buffer is full reports the end of
/// the stream and leaves the buffer as it was.
pub proof fn lemma_early_end_is_reported(s: ExactReadView)
    requires
        s.filled.len() < s.want,
    ensures
        read_step(s, seq![]) == (s, ReadProgressView::UnexpectedEof),
{
}

/// The greeting the dialer writes, however the network splits it into reads,
/// fills the listener's three-byte buffer exactly when its last piece
/// arrives, and the listener accepts what it read.
pub proof fn lemma_greeting_is_accepted(chunks: Seq<Seq<u8>>)
    requires
        all_nonempty(chunks),
        concat(chunks) == greeting_bytes(),
    ensures
        ({
            let (s, ps) = run_read(ExactReadView { filled: seq![], want: GREETING_LEN as nat }, chunks);
            &&& s.filled == greeting_bytes()
            &&& ps.len() == chunks.len()
            &&& ps.last() == ReadProgressView::Complete(greeting_bytes())
        }),
{
    let s = ExactReadView { filled: seq![], want: GREETING_LEN as nat };
    if chunks.len() == 0 {
        assert(concat(chunks) =~= seq![]);
        assert(false);
    }
    assert(seq![] + concat(chunks) =~= concat(chunks));
    lemma_reads_fill_in_order(s, chunks);
}

/// Each read into a reader that still wants bytes: the bytes are appended
/// to the buffer in order and nothing else changes; the read that makes the
/// buffer exactly as long as wanted hands back the whole buffer, any other
/// non-empty read reports partial progress, and an empty read reports the
/// early end of the stream.
pub proof fn lemma_read_outcomes(s: ExactReadView, chunk: Seq<u8>)
    requires
        s.filled.len() < s.want,
        chunk.len() <= s.want - s.filled.len(),
    ensures
        chunk.len() == 0 ==> read_step(s, chunk) == (s, ReadProgressView::UnexpectedEof),
        chunk.len() > 0 ==> read_step(s, chunk).0 == (ExactReadView {
            filled: s.filled + chunk,
            want: s.want,
        }),
        chunk.len() > 0 && s.filled.len() + chunk.len() == s.want ==> read_step(s, chunk).1
            == ReadProgressView::Complete(s.filled + chunk),
        chunk.len() > 0 && s.filled.len() + chunk.len() < s.want ==> read_step(s, chunk).1
            == ReadProgressView::Partial,
{
}

} // verus!
