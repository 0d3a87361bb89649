use serial_metrics::frame::FrameBuffer;
use serial_metrics::measurement::Measurement;
use serial_metrics::reader::DataOutcome;
use serial_metrics::reader::LineOutcome;
use serial_metrics::reader::ReaderEngine;

fn collect_samples(outcomes: &[LineOutcome]) -> Vec<(Measurement, Vec<u8>)> {
    let mut samples = Vec::new();
    for outcome in outcomes {
        match outcome {
            LineOutcome::Sample(kind, value) => samples.push((*kind, value.clone())),
            LineOutcome::Blank => {}
            LineOutcome::Rejected(e) => panic!("unexpected parse error: {}", e.message()),
        }
    }
    samples
}

fn feed(engine: &mut ReaderEngine, bytes: &[u8]) -> (Vec<LineOutcome>, bool) {
    match engine.on_data(bytes, 0, 250) {
        DataOutcome::Lines(outcomes, full) => (outcomes, full),
        DataOutcome::Overrun => panic!("unexpected overrun"),
    }
}

#[test]
fn one_chunk_yields_three_samples_in_order() {
    let mut engine = ReaderEngine::new();
    let (outcomes, full) = feed(&mut engine, b"P 1.234\r\nI 2.0\r\nU 3\r\n");
    assert!(!full);
    let samples = collect_samples(&outcomes);
    assert_eq!(samples.len(), 3);
    assert_eq!(samples[0].0, Measurement::P);
    assert_eq!(samples[0].1, b"1.234".to_vec());
    assert_eq!(samples[1].0, Measurement::I);
    assert_eq!(samples[1].1, b"2.0".to_vec());
    assert_eq!(samples[2].0, Measurement::U);
    assert_eq!(samples[2].1, b"3".to_vec());
}

#[test]
fn chunk_boundaries_do_not_change_the_samples() {
    let stream: &[u8] = b"P 1.234\r\nI 2.0\r\nU 3\r\n";
    let mut whole_engine = ReaderEngine::new();
    let (whole_outcomes, _) = feed(&mut whole_engine, stream);
    let whole = collect_samples(&whole_outcomes);
    for cut1 in 0..stream.len() {
        for cut2 in cut1..stream.len() {
            let mut engine = ReaderEngine::new();
            let mut outcomes = Vec::new();
            for chunk in [&stream[..cut1], &stream[cut1..cut2], &stream[cut2..]] {
                if chunk.is_empty() {
                    continue;
                }
                let (chunk_outcomes, _) = feed(&mut engine, chunk);
                outcomes.extend(chunk_outcomes);
            }
            let samples = collect_samples(&outcomes);
            assert_eq!(samples, whole, "split at {} and {}", cut1, cut2);
        }
    }
}

#[test]
fn overflow_signals_and_a_reset_restores_parsing() {
    let mut engine = ReaderEngine::new();
    // 257 bytes with no terminator: the first read fills the buffer.
    let long = vec![b'A'; 257];
    let room = engine.capacity_left();
    assert_eq!(room, 256);
    let (outcomes, full) = feed(&mut engine, &long[..room]);
    assert!(outcomes.is_empty());
    assert!(full, "a full buffer without a terminator must signal overflow");
    assert_eq!(engine.capacity_left(), 0);
    // The connection is abandoned; the engine resets.
    let had_partial = engine.reset();
    assert!(had_partial);
    assert_eq!(engine.capacity_left(), 256);
    // A subsequent well-formed line parses correctly.
    let (outcomes, full) = feed(&mut engine, b"P 1.5\r\n");
    assert!(!full);
    let samples = collect_samples(&outcomes);
    assert_eq!(samples, vec![(Measurement::P, b"1.5".to_vec())]);
}

#[test]
fn a_continuous_stream_overruns_the_frame_clock() {
    let mut engine = ReaderEngine::new();
    // First read of the frame: accepted whatever the clock says afterwards.
    match engine.on_data(b"P 1.0\r\n", 0, 250) {
        DataOutcome::Lines(outcomes, _) => assert_eq!(collect_samples(&outcomes).len(), 1),
        DataOutcome::Overrun => panic!("first read must not overrun"),
    }
    // The device keeps streaming past the minimum idle interval.
    match engine.on_data(b"P 2.0\r\n", 251, 250) {
        DataOutcome::Overrun => {}
        DataOutcome::Lines(..) => panic!("a never-pausing stream must overrun"),
    }
    // At the interval boundary itself the stream is still fine.
    match engine.on_data(b"P 2.0\r\n", 250, 250) {
        DataOutcome::Lines(outcomes, _) => assert_eq!(collect_samples(&outcomes).len(), 1),
        DataOutcome::Overrun => panic!("250 ms is not past a 250 ms interval"),
    }
}

#[test]
fn an_idle_timeout_discards_partial_data() {
    let mut engine = ReaderEngine::new();
    let (outcomes, full) = feed(&mut engine, b"P 1.");
    assert!(outcomes.is_empty());
    assert!(!full);
    // Timeout: the unterminated tail will never complete.
    assert!(engine.reset());
    // Nothing buffered: a timeout discards nothing.
    assert!(!engine.reset());
    // The next line is framed from a clean buffer.
    let (outcomes, _) = feed(&mut engine, b"I 4.5\r\n");
    assert_eq!(collect_samples(&outcomes), vec![(Measurement::I, b"4.5".to_vec())]);
}

#[test]
fn parse_errors_do_not_interrupt_framing() {
    let mut engine = ReaderEngine::new();
    let (outcomes, _) = feed(&mut engine, b"X 1.0\r\nP 2.5\r\n");
    assert_eq!(outcomes.len(), 2);
    assert!(matches!(outcomes[0], LineOutcome::Rejected(_)));
    match &outcomes[1] {
        LineOutcome::Sample(kind, value) => {
            assert_eq!(*kind, Measurement::P);
            assert_eq!(value.as_slice(), b"2.5");
        }
        _ => panic!("the valid line after an error must still parse"),
    }
}

#[test]
fn frame_buffer_emits_lines_in_arrival_order() {
    let mut buf = FrameBuffer::new();
    let lines = buf.append(b"one\r\ntwo\r\nthr");
    assert_eq!(lines, vec![b"one\r".to_vec(), b"two\r".to_vec()]);
    assert_eq!(buf.len(), 3);
    let lines = buf.append(b"ee\r\n");
    assert_eq!(lines, vec![b"three\r".to_vec()]);
    assert_eq!(buf.len(), 0);
}

#[test]
fn a_terminator_at_the_capacity_boundary_is_not_an_overflow() {
    let mut engine = ReaderEngine::new();
    // 256 bytes whose last byte is the terminator: the line completes and
    // the buffer drains, so nothing overflows.
    let mut stream = vec![b'P', b' '];
    stream.extend(std::iter::repeat(b'1').take(252));
    stream.push(b'\r');
    stream.push(b'\n');
    assert_eq!(stream.len(), 256);
    let (outcomes, full) = feed(&mut engine, &stream);
    assert!(!full);
    assert_eq!(collect_samples(&outcomes).len(), 1);
    assert_eq!(engine.capacity_left(), 256);
}

#[test]
fn frame_buffer_full_without_terminator_signals_overflow() {
    let mut buf = FrameBuffer::new();
    let lines = buf.append(&vec![b'x'; 256]);
    assert!(lines.is_empty());
    assert!(buf.is_full());
    buf.clear();
    assert!(!buf.is_full());
    assert_eq!(buf.append(b"ok\r\n"), vec![b"ok\r".to_vec()]);
}

#[test]
fn frame_buffer_handles_blank_lines() {
    let mut buf = FrameBuffer::new();
    let lines = buf.append(b"\n\r\nP 1\r\n");
    assert_eq!(lines, vec![b"".to_vec(), b"\r".to_vec(), b"P 1\r".to_vec()]);
}
