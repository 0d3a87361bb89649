//! Line framing over an arbitrarily chunked byte stream.
//!
//! A `FrameBuffer` accumulates raw bytes in a fixed-capacity store and hands
//! out every newline-terminated line as soon as its terminator arrives, in
//! arrival order.  The mathematical model is `frame_from`: the pair of
//! (complete lines, unterminated remainder) that a byte sequence splits into.

use vstd::prelude::*;

verus! {

/// The line terminator byte (`\n`).
pub const LINE_TERMINATOR: u8 = 10;

/// Capacity of the frame buffer in bytes.
pub const FRAME_CAPACITY: usize = 256;

/// The lines and trailing remainder produced by feeding `s` byte by byte
/// into a framer whose pending partial line is `rem`.  `.0` is the sequence
/// of complete lines (terminators excluded, in arrival order); `.1` is the
/// partial line left after the last terminator.
pub open spec fn frame_from(rem: Seq<u8>, s: Seq<u8>) -> (Seq<Seq<u8>>, Seq<u8>)
    decreases s.len(),
{
    if s.len() == 0 {
        (Seq::empty(), rem)
    } else {
        let prev = frame_from(rem, s.drop_last());
        if s.last() == LINE_TERMINATOR {
            (prev.0.push(prev.1), Seq::empty())
        } else {
            (prev.0, prev.1.push(s.last()))
        }
    }
}

/// Feeding one more byte advances the framing by one step.
proof fn lemma_frame_from_push(rem: Seq<u8>, s: Seq<u8>, b: u8)
    ensures
        frame_from(rem, s.push(b)) == if b == LINE_TERMINATOR {
            (frame_from(rem, s).0.push(frame_from(rem, s).1), Seq::<u8>::empty())
        } else {
            (frame_from(rem, s).0, frame_from(rem, s).1.push(b))
        },
{
    assert(s.push(b).drop_last() =~= s);
    assert(s.push(b).last() == b);
}

/// Chunk-boundary independence: feeding `a` and then `b` through a framer
/// yields exactly the lines of feeding `a + b` at once, and leaves the same
/// remainder.  The lines of the second feed start from the remainder the
/// first feed left behind.
pub proof fn lemma_frame_split(rem: Seq<u8>, a: Seq<u8>, b: Seq<u8>)
    ensures
        frame_from(rem, a + b).0 == frame_from(rem, a).0 + frame_from(
            frame_from(rem, a).1,
            b,
        ).0,
        frame_from(rem, a + b).1 == frame_from(frame_from(rem, a).1, b).1,
    decreases b.len(),
{
    if b.len() == 0 {
        assert(a + b =~= a);
        assert(frame_from(rem, a + b).0 =~= frame_from(rem, a).0 + frame_from(
            frame_from(rem, a).1,
            b,
        ).0);
    } else {
        let b0 = b.drop_last();
        lemma_frame_split(rem, a, b0);
        assert((a + b).drop_last() =~= a + b0);
        lemma_frame_from_push(frame_from(rem, a).1, b0, b.last());
        assert(a + b =~= (a + b0).push(b.last()));
        lemma_frame_from_push(rem, a + b0, b.last());
        assert(frame_from(rem, a + b).0 =~= frame_from(rem, a).0 + frame_from(
            frame_from(rem, a).1,
            b,
        ).0);
    }
}

/// The views of a vector of byte lines.
pub open spec fn lines_view(v: Seq<Vec<u8>>) -> Seq<Seq<u8>> {
    v.map_values(|l: Vec<u8>| l@)
}

/// Fixed-capacity accumulator that turns a chunked byte stream into complete
/// lines.  It holds at most `FRAME_CAPACITY` bytes of unterminated data; a
/// caller that fills it without ever seeing a terminator must abandon it
/// (`clear`) and treat the stream as desynchronized.
pub struct FrameBuffer {
    rest: Vec<u8>,
}

impl View for FrameBuffer {
    type V = Seq<u8>;

    closed spec fn view(&self) -> Seq<u8> {
        self.rest@
    }
}

impl FrameBuffer {
    /// The buffer never exceeds its capacity and never holds a terminator.
    pub open spec fn inv(&self) -> bool {
        &&& self@.len() <= FRAME_CAPACITY
        &&& forall|i: int| 0 <= i < self@.len() ==> self@[i] != LINE_TERMINATOR
    }

    pub fn new() -> (r: FrameBuffer)
        ensures
            r.inv(),
            r@ == Seq::<u8>::empty(),
    {
        FrameBuffer { rest: Vec::new() }
    }

    /// Number of currently buffered (unterminated) bytes.
    pub fn len(&self) -> (n: usize)
        ensures
            n == self@.len(),
    {
        self.rest.len()
    }

    /// How many more bytes fit before the buffer overflows.
    pub fn capacity_left(&self) -> (n: usize)
        requires
            self.inv(),
        ensures
            n == FRAME_CAPACITY - self@.len(),
    {
        FRAME_CAPACITY - self.rest.len()
    }

    /// True when the buffer is full without a terminator in sight: the fatal
    /// framing condition that forces a reconnect.
    pub fn is_full(&self) -> (r: bool)
        ensures
            r == (self@.len() == FRAME_CAPACITY),
    {
        self.rest.len() == FRAME_CAPACITY
    }

    /// Drop all buffered bytes (desynchronization recovery or idle reset).
    pub fn clear(&mut self)
        ensures
            final(self).inv(),
            final(self)@ == Seq::<u8>::empty(),
    {
        self.rest.clear();
    }

    /// Append a chunk of raw bytes and extract every line completed by it,
    /// in arrival order, each without its terminator.  The buffer keeps the
    /// bytes after the last terminator.
    pub fn append(&mut self, chunk: &[u8]) -> (lines: Vec<Vec<u8>>)
        requires
            old(self).inv(),
            old(self)@.len() + chunk@.len() <= FRAME_CAPACITY,
        ensures
            final(self).inv(),
            lines_view(lines@) == frame_from(old(self)@, chunk@).0,
            final(self)@ == frame_from(old(self)@, chunk@).1,
    {
        let mut lines: Vec<Vec<u8>> = Vec::new();
        let mut i: usize = 0;
        proof {
            assert(chunk@.subrange(0, 0) =~= Seq::<u8>::empty());
            assert(lines_view(lines@) =~= frame_from(old(self)@, chunk@.subrange(0, 0)).0);
        }
        while i < chunk.len()
            invariant
                old(self).inv(),
                old(self)@.len() + chunk@.len() <= FRAME_CAPACITY,
                i <= chunk@.len(),
                lines_view(lines@) == frame_from(old(self)@, chunk@.subrange(0, i as int)).0,
                self@ == frame_from(old(self)@, chunk@.subrange(0, i as int)).1,
                self@.len() <= old(self)@.len() + i,
                forall|k: int| 0 <= k < self@.len() ==> self@[k] != LINE_TERMINATOR,
            decreases chunk@.len() - i,
        {
            let b = chunk[i];
            proof {
                assert(chunk@.subrange(0, i + 1) =~= chunk@.subrange(0, i as int).push(b));
                lemma_frame_from_push(old(self)@, chunk@.subrange(0, i as int), b);
            }
            if b == LINE_TERMINATOR {
                let mut line: Vec<u8> = Vec::new();
                core::mem::swap(&mut line, &mut self.rest);
                lines.push(line);
                proof {
                    assert(lines_view(lines@) =~= frame_from(
                        old(self)@,
                        chunk@.subrange(0, i + 1),
                    ).0);
                }
            } else {
                self.rest.push(b);
            }
            i = i + 1;
        }
        proof {
            assert(chunk@.subrange(0, chunk@.len() as int) =~= chunk@);
        }
        lines
    }
}

} // verus!
