use serial_metrics::aggregate::Aggregator;
use serial_metrics::aggregate::Sample;
use serial_metrics::aggregate::is_success_status;
use serial_metrics::config::Args;
use serial_metrics::labels::render_labels;
use serial_metrics::measurement::Measurement;

fn sample(kind: Measurement, value: f64, timestamp: f64) -> Sample {
    Sample { kind, value: format!("{value:.8}"), timestamp: format!("{timestamp:.3}") }
}

#[test]
fn metric_names_are_fixed() {
    assert_eq!(Measurement::P.metric_name(), "supply_consumed_power");
    assert_eq!(Measurement::I.metric_name(), "supply_current");
    assert_eq!(Measurement::U.metric_name(), "supply_voltage");
}

#[test]
fn two_samples_of_one_kind_keep_two_lines() {
    let mut agg = Aggregator::new(String::new());
    agg.on_sample(sample(Measurement::P, 1.0, 100.0));
    agg.on_sample(sample(Measurement::P, 2.0, 100.5));
    let payload = agg.flush();
    assert_eq!(
        payload,
        "supply_consumed_power 1.00000000 100.000\n\
         supply_consumed_power 2.00000000 100.500\n"
    );
}

#[test]
fn payload_groups_by_kind_and_keeps_arrival_order_within_a_kind() {
    let mut agg = Aggregator::new(String::new());
    agg.on_sample(sample(Measurement::U, 3.0, 1.0));
    agg.on_sample(sample(Measurement::P, 1.234, 2.0));
    agg.on_sample(sample(Measurement::I, 2.0, 3.0));
    agg.on_sample(sample(Measurement::U, 4.0, 4.0));
    let payload = agg.flush();
    assert_eq!(
        payload,
        "supply_consumed_power 1.23400000 2.000\n\
         supply_current 2.00000000 3.000\n\
         supply_voltage 3.00000000 1.000\n\
         supply_voltage 4.00000000 4.000\n"
    );
}

#[test]
fn labels_render_into_every_line() {
    let labels = render_labels(&vec!["foo=bar".to_string(), "baz=qux".to_string()]).unwrap();
    assert_eq!(labels, "{foo=\"bar\",baz=\"qux\"}");
    let mut agg = Aggregator::new(labels);
    agg.on_sample(sample(Measurement::P, 1.0, 10.0));
    agg.on_sample(sample(Measurement::U, 2.0, 11.0));
    let payload = agg.flush();
    for line in payload.lines() {
        let rest = line
            .strip_prefix("supply_consumed_power")
            .or_else(|| line.strip_prefix("supply_voltage"))
            .expect("line must start with a metric name");
        assert!(
            rest.starts_with("{foo=\"bar\",baz=\"qux\"} "),
            "line does not carry the label block: {line}"
        );
    }
    assert_eq!(payload.lines().count(), 2);
}

#[test]
fn no_labels_means_no_brace_block() {
    let labels = render_labels(&Vec::new()).unwrap();
    assert_eq!(labels, "");
    let mut agg = Aggregator::new(labels);
    agg.on_sample(sample(Measurement::I, 0.5, 7.0));
    let payload = agg.flush();
    assert_eq!(payload, "supply_current 0.50000000 7.000\n");
    assert!(!payload.contains('{'));
}

#[test]
fn a_label_without_an_equals_sign_is_rejected() {
    assert_eq!(render_labels(&vec!["foobar".to_string()]), Err(0));
    assert_eq!(render_labels(&vec!["a=b".to_string(), "nope".to_string()]), Err(1));
}

#[test]
fn label_splitting_uses_the_first_equals_sign() {
    let labels = render_labels(&vec!["k=v=w".to_string(), "=x".to_string()]).unwrap();
    assert_eq!(labels, "{k=\"v=w\",=\"x\"}");
}

#[test]
fn the_first_flush_comes_early_and_later_ones_settle() {
    let mut agg = Aggregator::new(String::new());
    assert!(!agg.flush_due(2000));
    assert!(agg.flush_due(2001));
    let _ = agg.flush();
    assert!(!agg.flush_due(2001));
    assert!(!agg.flush_due(5000));
    assert!(agg.flush_due(5001));
    let _ = agg.flush();
    assert!(agg.flush_due(5001));
}

#[test]
fn a_failed_delivery_does_not_resend_the_batch() {
    let mut agg = Aggregator::new(String::new());
    agg.on_sample(sample(Measurement::P, 1.0, 1.0));
    // The delivery of this payload fails; the batch is dropped regardless.
    let lost = agg.flush();
    assert!(lost.contains("1.00000000"));
    agg.on_sample(sample(Measurement::P, 2.0, 2.0));
    let next = agg.flush();
    assert!(!next.contains("1.00000000"), "a dropped batch must not reappear");
    assert_eq!(next, "supply_consumed_power 2.00000000 2.000\n");
}

#[test]
fn an_empty_window_flushes_an_empty_payload() {
    let mut agg = Aggregator::new(String::new());
    assert_eq!(agg.flush(), "");
}

#[test]
fn success_statuses_are_the_two_hundreds() {
    assert!(!is_success_status(199));
    assert!(is_success_status(200));
    assert!(is_success_status(299));
    assert!(!is_success_status(300));
    assert!(!is_success_status(500));
}

#[test]
fn stock_configuration_matches_the_documented_defaults() {
    let args = Args::default();
    assert_eq!(args.port, "/dev/ttyACM0");
    assert_eq!(args.rate, 115200);
    assert_eq!(args.url, "http://localhost:8428/api/v1/import/prometheus");
    assert_eq!(args.delay, 10000);
    assert_eq!(args.timeout, 5000);
    assert_eq!(args.data_min_interval, 250);
    assert!(!args.verbose);
    assert!(args.labels.is_empty());
}
