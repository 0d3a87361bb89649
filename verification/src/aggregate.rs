//! Windowed aggregation and payload serialization.
//!
//! Samples arriving between two flushes are kept per measurement kind, in
//! arrival order; a flush serializes every sample of the window into one
//! exposition-text payload and clears the window unconditionally, whether or
//! not the delivery that follows succeeds.  The first flush after start is
//! due after a short initial delay; every later one after the longer
//! steady-state delay.

use vstd::prelude::*;
use vstd::string::StrSliceExecFns;
use vstd::string::StringExecFns;

use crate::measurement::Measurement;

verus! {

/// Milliseconds after which the first flush is due.
pub const INITIAL_FLUSH_MS: u64 = 2000;

/// Milliseconds after which every flush past the first is due.
pub const STEADY_FLUSH_MS: u64 = 5000;

/// One validated observation: its kind, its value text and the timestamp
/// text captured when it was parsed, both already rendered as decimal text.
pub struct Sample {
    pub kind: Measurement,
    pub value: String,
    pub timestamp: String,
}

/// One payload line: metric name, label block, value and timestamp separated
/// by single spaces, terminated by a line feed.
pub open spec fn spec_line(
    name: Seq<char>,
    labels: Seq<char>,
    value: Seq<char>,
    ts: Seq<char>,
) -> Seq<char> {
    name + labels + seq![' '] + value + seq![' '] + ts + seq!['\n']
}

/// The payload lines of one kind's samples, in arrival order.
pub open spec fn spec_kind_lines(samples: Seq<Sample>, name: Seq<char>, labels: Seq<char>)
    -> Seq<char>
    decreases samples.len(),
{
    if samples.len() == 0 {
        Seq::empty()
    } else {
        spec_kind_lines(samples.drop_last(), name, labels) + spec_line(
            name,
            labels,
            samples.last().value@,
            samples.last().timestamp@,
        )
    }
}

/// The samples accumulated since the last flush, grouped by kind, each
/// group in arrival order.
pub struct Window {
    pub power: Vec<Sample>,
    pub current: Vec<Sample>,
    pub voltage: Vec<Sample>,
}

impl Window {
    pub open spec fn is_empty_spec(&self) -> bool {
        self.power@.len() == 0 && self.current@.len() == 0 && self.voltage@.len() == 0
    }
}

/// The full payload of a window: the power lines, then the current lines,
/// then the voltage lines.
pub open spec fn spec_payload(w: Window, labels: Seq<char>) -> Seq<char> {
    spec_kind_lines(w.power@, Measurement::P.spec_metric_name(), labels) + spec_kind_lines(
        w.current@,
        Measurement::I.spec_metric_name(),
        labels,
    ) + spec_kind_lines(w.voltage@, Measurement::U.spec_metric_name(), labels)
}

/// Stepping one kind's lines by one sample.
proof fn lemma_kind_lines_push(samples: Seq<Sample>, s: Sample, name: Seq<char>, labels: Seq<char>)
    ensures
        spec_kind_lines(samples.push(s), name, labels) == spec_kind_lines(samples, name, labels)
            + spec_line(name, labels, s.value@, s.timestamp@),
{
    assert(samples.push(s).drop_last() =~= samples);
    assert(samples.push(s).last() == s);
}

fn serialize_kind(payload: &mut String, samples: &Vec<Sample>, name: &str, labels: &str)
    ensures
        final(payload)@ == old(payload)@ + spec_kind_lines(samples@, name@, labels@),
{
    let ghost entry = payload@;
    let mut i: usize = 0;
    proof {
        assert(samples@.subrange(0, 0) =~= Seq::<Sample>::empty());
        assert(payload@ =~= entry + spec_kind_lines(samples@.subrange(0, 0), name@, labels@));
    }
    while i < samples.len()
        invariant
            i <= samples@.len(),
            payload@ == entry + spec_kind_lines(samples@.subrange(0, i as int), name@, labels@),
        decreases samples@.len() - i,
    {
        let ghost before = payload@;
        let sample = &samples[i];
        payload.append(name);
        payload.append(labels);
        payload.append(" ");
        payload.append(sample.value.as_str());
        payload.append(" ");
        payload.append(sample.timestamp.as_str());
        payload.append("\n");
        proof {
            reveal_strlit(" ");
            reveal_strlit("\n");
            assert(payload@ =~= before + spec_line(
                name@,
                labels@,
                samples@[i as int].value@,
                samples@[i as int].timestamp@,
            ));
            assert(samples@.subrange(0, i + 1) =~= samples@.subrange(0, i as int).push(
                samples@[i as int],
            ));
            lemma_kind_lines_push(samples@.subrange(0, i as int), samples@[i as int], name@, labels@);
        }
        i = i + 1;
    }
    proof {
        assert(samples@.subrange(0, samples@.len() as int) =~= samples@);
    }
}

/// Whether an HTTP status code counts as a successful delivery.
pub fn is_success_status(status: u16) -> (r: bool)
    ensures
        r == (200 <= status < 300),
{
    200 <= status && status < 300
}

/// Accumulates samples into the current window and serializes it on flush.
/// The rendered label block is fixed at construction and reused for every
/// payload line.
pub struct Aggregator {
    labels: String,
    window: Window,
    first_flush_done: bool,
}

impl Aggregator {
    /// The rendered label block appended to every metric name.
    pub closed spec fn labels_text(&self) -> Seq<char> {
        self.labels@
    }

    /// The current window.
    pub closed spec fn window_spec(&self) -> Window {
        self.window
    }

    /// Whether the first flush has already happened.
    pub closed spec fn first_flush_done_spec(&self) -> bool {
        self.first_flush_done
    }

    /// The flush delay currently in force: the short initial one before the
    /// first flush, the steady-state one afterwards.
    pub open spec fn spec_interval_ms(&self) -> u64 {
        if self.first_flush_done_spec() {
            STEADY_FLUSH_MS
        } else {
            INITIAL_FLUSH_MS
        }
    }

    pub fn new(labels: String) -> (r: Aggregator)
        ensures
            r.labels_text() == labels@,
            r.window_spec().is_empty_spec(),
            !r.first_flush_done_spec(),
    {
        Aggregator {
            labels,
            window: Window { power: Vec::new(), current: Vec::new(), voltage: Vec::new() },
            first_flush_done: false,
        }
    }

    /// Append a sample to its kind's list in the current window; every
    /// sample of a window is retained, none is overwritten.
    pub fn on_sample(&mut self, s: Sample)
        ensures
            final(self).window_spec().power@ == if s.kind is P {
                old(self).window_spec().power@.push(s)
            } else {
                old(self).window_spec().power@
            },
            final(self).window_spec().current@ == if s.kind is I {
                old(self).window_spec().current@.push(s)
            } else {
                old(self).window_spec().current@
            },
            final(self).window_spec().voltage@ == if s.kind is U {
                old(self).window_spec().voltage@.push(s)
            } else {
                old(self).window_spec().voltage@
            },
            final(self).labels_text() == old(self).labels_text(),
            final(self).first_flush_done_spec() == old(self).first_flush_done_spec(),
    {
        match s.kind {
            Measurement::P => self.window.power.push(s),
            Measurement::I => self.window.current.push(s),
            Measurement::U => self.window.voltage.push(s),
        }
    }

    /// Whether a flush is due after `elapsed_ms` milliseconds without one.
    pub fn flush_due(&self, elapsed_ms: u64) -> (r: bool)
        ensures
            r == (elapsed_ms > self.spec_interval_ms()),
    {
        if self.first_flush_done {
            elapsed_ms > STEADY_FLUSH_MS
        } else {
            elapsed_ms > INITIAL_FLUSH_MS
        }
    }

    /// Serialize the current window into one payload and clear the window.
    /// The window is cleared unconditionally: whether the payload's delivery
    /// later succeeds or fails, none of its samples reappears in a later
    /// flush.
    pub fn flush(&mut self) -> (payload: String)
        ensures
            payload@ == spec_payload(old(self).window_spec(), old(self).labels_text()),
            final(self).window_spec().is_empty_spec(),
            final(self).first_flush_done_spec(),
            final(self).labels_text() == old(self).labels_text(),
    {
        let mut payload = String::new();
        serialize_kind(
            &mut payload,
            &self.window.power,
            Measurement::P.metric_name(),
            self.labels.as_str(),
        );
        serialize_kind(
            &mut payload,
            &self.window.current,
            Measurement::I.metric_name(),
            self.labels.as_str(),
        );
        serialize_kind(
            &mut payload,
            &self.window.voltage,
            Measurement::U.metric_name(),
            self.labels.as_str(),
        );
        self.window.power.clear();
        self.window.current.clear();
        self.window.voltage.clear();
        self.first_flush_done = true;
        payload
    }
}

} // verus!
