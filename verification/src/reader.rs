//! The device-reading engine: everything the read loop decides, free of the
//! serial port itself.
//!
//! The caller owns the port and the clock.  It hands every successful read's
//! bytes to `on_data` together with how long the current data frame has been
//! running, and reports idle timeouts through `reset`.  The engine frames the
//! bytes into lines, parses each line, and signals the two desynchronization
//! conditions — a frame that never pauses and a buffer full without a
//! terminator — on which the caller must drop the connection.

use vstd::prelude::*;

use crate::frame::FRAME_CAPACITY;
use crate::frame::FrameBuffer;
use crate::frame::frame_from;
use crate::frame::lemma_frame_split;
use crate::frame::lines_view;
use crate::measurement::Measurement;
use crate::parse::ParseErrorKind;
use crate::parse::parse_line;
use crate::parse::spec_parse_line;

verus! {

/// What one framed line produced.
pub enum LineOutcome {
    /// A well-formed sample line: its kind and the value's numeric text.
    Sample(Measurement, Vec<u8>),
    /// A blank line; nothing to do.
    Blank,
    /// A malformed line and its error class; the stream continues.
    Rejected(ParseErrorKind),
}

/// The parse result a line outcome stands for.
pub open spec fn line_outcome_view(o: LineOutcome) -> Result<
    Option<(Measurement, Seq<u8>)>,
    ParseErrorKind,
> {
    match o {
        LineOutcome::Sample(m, v) => Ok(Some((m, v@))),
        LineOutcome::Blank => Ok(None),
        LineOutcome::Rejected(e) => Err(e),
    }
}

/// The parse results a sequence of line outcomes stands for.
pub open spec fn outcomes_view(v: Seq<LineOutcome>) -> Seq<
    Result<Option<(Measurement, Seq<u8>)>, ParseErrorKind>,
> {
    v.map_values(|o: LineOutcome| line_outcome_view(o))
}

/// The parse results of a sequence of framed lines.
pub open spec fn parsed_view(lines: Seq<Seq<u8>>) -> Seq<
    Result<Option<(Measurement, Seq<u8>)>, ParseErrorKind>,
> {
    lines.map_values(|l: Seq<u8>| spec_parse_line(l))
}

/// A byte stream reassembled from its chunks.
pub open spec fn concat_chunks(chunks: Seq<Seq<u8>>) -> Seq<u8>
    decreases chunks.len(),
{
    if chunks.len() == 0 {
        Seq::empty()
    } else {
        concat_chunks(chunks.drop_last()) + chunks.last()
    }
}

/// The remainder a framer holds after feeding the chunks in order, starting
/// from remainder `rem`.
pub open spec fn rem_after(rem: Seq<u8>, chunks: Seq<Seq<u8>>) -> Seq<u8>
    decreases chunks.len(),
{
    if chunks.len() == 0 {
        rem
    } else {
        frame_from(rem_after(rem, chunks.drop_last()), chunks.last()).1
    }
}

/// All lines emitted while feeding the chunks in order, starting from
/// remainder `rem`.
pub open spec fn lines_after(rem: Seq<u8>, chunks: Seq<Seq<u8>>) -> Seq<Seq<u8>>
    decreases chunks.len(),
{
    if chunks.len() == 0 {
        Seq::empty()
    } else {
        lines_after(rem, chunks.drop_last()) + frame_from(
            rem_after(rem, chunks.drop_last()),
            chunks.last(),
        ).0
    }
}

/// Chunk-boundary independence: however a byte stream is cut into chunks,
/// feeding the chunks one by one emits exactly the lines of feeding the
/// whole stream at once, and leaves the same remainder.
pub proof fn lemma_chunk_boundary_independence(rem: Seq<u8>, chunks: Seq<Seq<u8>>)
    ensures
        lines_after(rem, chunks) == frame_from(rem, concat_chunks(chunks)).0,
        rem_after(rem, chunks) == frame_from(rem, concat_chunks(chunks)).1,
    decreases chunks.len(),
{
    if chunks.len() == 0 {
        assert(lines_after(rem, chunks) =~= frame_from(rem, concat_chunks(chunks)).0);
    } else {
        lemma_chunk_boundary_independence(rem, chunks.drop_last());
        lemma_frame_split(rem, concat_chunks(chunks.drop_last()), chunks.last());
    }
}

/// Chunk-boundary independence carried through the parser: the sequence of
/// parse results — and so of samples — is the same however the stream was
/// chunked.
pub proof fn lemma_sample_chunk_independence(rem: Seq<u8>, chunks: Seq<Seq<u8>>)
    ensures
        parsed_view(lines_after(rem, chunks)) == parsed_view(
            frame_from(rem, concat_chunks(chunks)).0,
        ),
{
    lemma_chunk_boundary_independence(rem, chunks);
}

/// What one successful read produced.
pub enum DataOutcome {
    /// The device has been streaming for longer than the minimum idle
    /// interval without a pause: no frame boundary can be trusted, the
    /// connection must be dropped.  Nothing was consumed.
    Overrun,
    /// The outcome of every line the read completed, in arrival order, and
    /// whether the buffer is now full without a terminator — in which case
    /// the connection must be dropped and the engine `reset`.
    Lines(Vec<LineOutcome>, bool),
}

/// Framing and parsing state of one device connection.
pub struct ReaderEngine {
    buf: FrameBuffer,
    frame_open: bool,
}

impl ReaderEngine {
    /// The unterminated bytes currently buffered.
    pub closed spec fn buffered(&self) -> Seq<u8> {
        self.buf@
    }

    /// Whether a data frame is currently running (some read succeeded since
    /// the last idle gap or reset).
    pub closed spec fn frame_open_spec(&self) -> bool {
        self.frame_open
    }

    pub closed spec fn inv(&self) -> bool {
        self.buf.inv()
    }

    pub fn new() -> (r: ReaderEngine)
        ensures
            r.inv(),
            r.buffered().len() == 0,
            !r.frame_open_spec(),
    {
        ReaderEngine { buf: FrameBuffer::new(), frame_open: false }
    }

    /// How many bytes the next read may hand to `on_data` at most.
    pub fn capacity_left(&self) -> (n: usize)
        requires
            self.inv(),
        ensures
            n == FRAME_CAPACITY - self.buffered().len(),
    {
        self.buf.capacity_left()
    }

    /// Consume one successful read.  `frame_elapsed_ms` is how long the
    /// current frame has been running on the caller's clock; when a frame is
    /// open and it exceeds `min_interval_ms` the read overran and nothing is
    /// consumed.  Otherwise every line the bytes complete is framed and
    /// parsed, in arrival order.
    pub fn on_data(&mut self, chunk: &[u8], frame_elapsed_ms: u64, min_interval_ms: u64) -> (r:
        DataOutcome)
        requires
            old(self).inv(),
            old(self).buffered().len() + chunk@.len() <= FRAME_CAPACITY,
        ensures
            final(self).inv(),
            (old(self).frame_open_spec() && frame_elapsed_ms > min_interval_ms) ==> {
                &&& r is Overrun
                &&& final(self).buffered() == old(self).buffered()
                &&& final(self).frame_open_spec() == old(self).frame_open_spec()
            },
            !(old(self).frame_open_spec() && frame_elapsed_ms > min_interval_ms) ==> {
                &&& r matches DataOutcome::Lines(outcomes, full) && outcomes_view(outcomes@)
                    == parsed_view(frame_from(old(self).buffered(), chunk@).0) && full == (
                final(self).buffered().len() == FRAME_CAPACITY)
                &&& final(self).buffered() == frame_from(old(self).buffered(), chunk@).1
                &&& final(self).frame_open_spec()
            },
    {
        if self.frame_open && frame_elapsed_ms > min_interval_ms {
            return DataOutcome::Overrun;
        }
        self.frame_open = true;
        let lines = self.buf.append(chunk);
        let mut outcomes: Vec<LineOutcome> = Vec::new();
        let mut i: usize = 0;
        while i < lines.len()
            invariant
                i <= lines@.len(),
                outcomes@.len() == i,
                forall|k: int|
                    0 <= k < i ==> line_outcome_view(#[trigger] outcomes@[k]) == spec_parse_line(
                        lines@[k]@,
                    ),
            decreases lines@.len() - i,
        {
            let outcome = match parse_line(lines[i].as_slice()) {
                Ok(None) => LineOutcome::Blank,
                Ok(Some((kind, value))) => LineOutcome::Sample(kind, value),
                Err(e) => LineOutcome::Rejected(e),
            };
            outcomes.push(outcome);
            i = i + 1;
        }
        proof {
            assert(outcomes_view(outcomes@) =~= parsed_view(lines_view(lines@)));
        }
        let full = self.buf.is_full();
        DataOutcome::Lines(outcomes, full)
    }

    /// Abandon the current frame: on an idle timeout (an unterminated tail
    /// will never complete and is discarded) or when reopening the
    /// connection.  Reports whether partial data was dropped.
    pub fn reset(&mut self) -> (had_partial: bool)
        ensures
            final(self).inv(),
            had_partial == (old(self).buffered().len() > 0),
            final(self).buffered().len() == 0,
            !final(self).frame_open_spec(),
    {
        let had_partial = self.buf.len() > 0;
        self.buf.clear();
        self.frame_open = false;
        had_partial
    }
}

} // verus!
