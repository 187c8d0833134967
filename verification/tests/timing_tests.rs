use clicksim::interval_nanos;
use clicksim::next_tick;
use clicksim::schedule_ticks;
use clicksim::should_dispatch;
use clicksim::LatencyAggregator;
use clicksim::LatencyReport;
use clicksim::NANOS_PER_SEC;

#[test]
fn ten_per_second_schedules_ten_instants_in_the_window() {
    // Frequency 10/sec from t0: exactly 10 instants, at t0 + 100ms,
    // t0 + 200ms, ... t0 + 1000ms, with no drift.
    let t0: u64 = 5_000;
    let ticks = schedule_ticks(t0, 10, 10);
    assert_eq!(ticks.len(), 10);
    for (k, tick) in ticks.iter().enumerate() {
        assert_eq!(*tick, t0 + (k as u64 + 1) * 100_000_000);
    }
    assert_eq!(*ticks.last().unwrap(), t0 + NANOS_PER_SEC);
}

#[test]
fn interval_is_one_second_over_the_frequency() {
    assert_eq!(interval_nanos(7), NANOS_PER_SEC / 7);
    assert_eq!(interval_nanos(1), NANOS_PER_SEC);
    assert_eq!(next_tick(40, 10), 40 + 100_000_000);
}

#[test]
fn dispatch_stops_at_the_deadline() {
    assert!(should_dispatch(99, 100));
    assert!(!should_dispatch(100, 100));
    assert!(!should_dispatch(101, 100));
}

#[test]
fn empty_report_and_clear_is_a_no_op() {
    // Report-and-clear on an empty window: no report (so no network call)
    // and the next report instant stays where it was.
    let mut agg = LatencyAggregator::new(0);
    let before = agg.next_report;
    assert_eq!(agg.report_and_clear(), None);
    assert_eq!(agg.next_report, before);
    assert_eq!(agg.window.len(), 0);
}

#[test]
fn samples_are_reported_once_the_instant_passes() {
    let mut agg = LatencyAggregator::new(0);
    assert_eq!(agg.next_report, NANOS_PER_SEC);
    // Two samples before the report instant: batched, nothing sent.
    assert_eq!(agg.on_sample(30, 400_000_000), None);
    assert_eq!(agg.on_sample(50, 800_000_000), None);
    // One sample past the instant: the whole window is reported and
    // cleared, and the next instant is one second after "now".
    let now: u64 = 1_200_000_000;
    let report = agg.on_sample(40, now);
    assert_eq!(report, Some(LatencyReport { clicks: 3, total_latency: 120 }));
    assert_eq!(agg.window.len(), 0);
    assert_eq!(agg.next_report, now + NANOS_PER_SEC);
    let avg = 120.0_f64 / 3.0_f64;
    assert_eq!(avg, 40.0);
}

#[test]
fn every_sample_is_counted_exactly_once() {
    // Conservation: the clicks counted by all reports handed out, plus
    // the samples still in the window, equal the samples received.
    let mut agg = LatencyAggregator::new(0);
    let mut reported: u64 = 0;
    let mut fed: u64 = 0;
    for k in 0..25u64 {
        // Pass time so that a report becomes due every few samples.
        let now = k * 300_000_000;
        fed += 1;
        if let Some(report) = agg.on_sample(10 + k, now) {
            reported += report.clicks;
        }
    }
    if let Some(report) = agg.report_and_clear() {
        reported += report.clicks;
    }
    assert_eq!(agg.window.len(), 0);
    assert_eq!(reported, fed);
}
