use clicksim::click_increment;
use clicksim::merge_latency;
use clicksim::LatencyReport;
use clicksim::LatencyStats;

#[test]
fn merge_folds_a_report_into_stored_statistics() {
    // Stored average 100.0 over 10 clicks, report of 5 clicks averaging
    // 200.0: the new total is 100*10 + 200*5 = 2000 over 15 clicks.
    let old = LatencyStats::Reported { total_latency: 1000, click_count: 10 };
    let report = LatencyReport { clicks: 5, total_latency: 1000 };
    let merged = merge_latency(old, report);
    assert_eq!(
        merged,
        Some(LatencyStats::Reported { total_latency: 2000, click_count: 15 })
    );
    let new_avg = 2000.0_f64 / 15.0_f64;
    assert!((new_avg - 133.333333).abs() < 0.000001);
}

#[test]
fn merge_of_first_report_takes_its_values() {
    // No stored pair yet, report of 3 clicks averaging 50.0: the new
    // average is 50.0 over 3 clicks.
    let report = LatencyReport { clicks: 3, total_latency: 150 };
    let merged = merge_latency(LatencyStats::Unreported, report);
    assert_eq!(
        merged,
        Some(LatencyStats::Reported { total_latency: 150, click_count: 3 })
    );
    let new_avg = 150.0_f64 / 3.0_f64;
    assert_eq!(new_avg, 50.0);
}

#[test]
fn merge_is_skipped_when_the_new_count_is_zero() {
    // A zero-click report on an absent pair would divide by zero: the
    // update is skipped and the stored record stays as it is.
    let report = LatencyReport { clicks: 0, total_latency: 0 };
    assert_eq!(merge_latency(LatencyStats::Unreported, report), None);
}

#[test]
fn merge_keeps_values_exact_with_a_zero_click_report() {
    let old = LatencyStats::Reported { total_latency: 700, click_count: 7 };
    let report = LatencyReport { clicks: 0, total_latency: 0 };
    assert_eq!(
        merge_latency(old, report),
        Some(LatencyStats::Reported { total_latency: 700, click_count: 7 })
    );
}

#[test]
fn click_increment_counts_an_absent_counter_as_zero() {
    assert_eq!(click_increment(None), 1);
    assert_eq!(click_increment(Some(1)), 2);
    assert_eq!(click_increment(Some(41)), 42);
}
