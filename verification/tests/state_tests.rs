use rilot::carbon::{finish_refresh, get_signal_nonblocking, CarbonSignal};
use rilot::config::CarbonProviderConfig;
use rilot::state::{
    current_error_rate, current_in_flight, increment_in_flight, record_metrics,
    should_log_decision, RuntimeState,
};

#[test]
fn in_flight_balance_and_floor() {
    let mut st = RuntimeState::new();
    assert_eq!(current_in_flight(&st, "eu"), 0);
    increment_in_flight(&mut st, "eu", 1);
    increment_in_flight(&mut st, "eu", 1);
    assert_eq!(current_in_flight(&st, "eu"), 2);
    increment_in_flight(&mut st, "eu", -1);
    assert_eq!(current_in_flight(&st, "eu"), 1);
    increment_in_flight(&mut st, "eu", -1);
    assert_eq!(current_in_flight(&st, "eu"), 0);
    // Saturating: decrementing an idle zone stays at zero.
    increment_in_flight(&mut st, "eu", -1);
    assert_eq!(current_in_flight(&st, "eu"), 0);
    assert_eq!(current_in_flight(&st, "us"), 0, "other zones untouched");
}

#[test]
fn error_rate_in_thousandths() {
    let mut st = RuntimeState::new();
    assert_eq!(current_error_rate(&st, "eu"), 0);
    record_metrics(&mut st, "/api", "eu", 10_000, 0, 0, 0, true);
    record_metrics(&mut st, "/api", "eu", 10_000, 0, 0, 0, false);
    record_metrics(&mut st, "/api", "eu", 10_000, 0, 0, 0, false);
    record_metrics(&mut st, "/api", "eu", 10_000, 0, 0, 0, false);
    // 1 error of 4 requests: 0.25 = 250 thousandths.
    assert_eq!(current_error_rate(&st, "eu"), 250);
}

#[test]
fn histogram_is_cumulative_and_monotone() {
    let mut st = RuntimeState::new();
    // 30 ms falls into every bucket from 50 ms up; 600 ms into 1000/2000.
    record_metrics(&mut st, "/api", "eu", 30_000, 0, 0, 0, false);
    record_metrics(&mut st, "/api", "eu", 600_000, 0, 0, 0, false);
    let m = &st.metrics.route_zone[0].m;
    assert_eq!(m.latency_buckets, [0, 1, 1, 1, 1, 2, 2]);
    for i in 1..7 {
        assert!(m.latency_buckets[i - 1] <= m.latency_buckets[i]);
    }
    assert_eq!(m.requests_total, 2);
    assert_eq!(m.errors_total, 0);
    assert_eq!(m.latency_sum_ms, 630_000);
    assert_eq!(m.latency_count, 2);
}

#[test]
fn metrics_accumulate_energy_and_co2e() {
    let mut st = RuntimeState::new();
    record_metrics(&mut st, "/api", "eu", 10_000, 450_000, 35_000, 4_375, false);
    record_metrics(&mut st, "/api", "eu", 10_000, 450_000, 35_000, 4_375, true);
    let m = &st.metrics.route_zone[0].m;
    assert_eq!(m.energy_estimated_total_uj, 70_000);
    assert_eq!(m.co2e_estimated_total_ng, 8_750);
    assert_eq!(m.errors_total, 1);
}

#[test]
fn sampled_decision_logging_counts_every_nth() {
    let mut st = RuntimeState::new();
    // 0.01 sample rate: every 100th decision logs.
    let mut logged = 0;
    for _ in 0..200 {
        if should_log_decision(&mut st, 10) {
            logged += 1;
        }
    }
    assert_eq!(logged, 2);
    // A zero rate never logs and leaves the counter alone.
    let before = st.decision_counter;
    assert!(!should_log_decision(&mut st, 0));
    assert_eq!(st.decision_counter, before);
    // A full rate always logs.
    assert!(should_log_decision(&mut st, 1000));
    assert_eq!(st.decision_counter, before);
}

#[test]
fn single_flight_refresh_marks_once() {
    let carbon = CarbonProviderConfig::default();
    let mut st = RuntimeState::new();
    let (_, first) = get_signal_nonblocking("eu", &carbon, &mut st, 100);
    assert!(first, "the first miss starts the refresh");
    let (_, second) = get_signal_nonblocking("eu", &carbon, &mut st, 101);
    assert!(!second, "a second miss sees the outstanding refresh");
    let (_, other) = get_signal_nonblocking("us", &carbon, &mut st, 101);
    assert!(other, "zones are tracked separately");
    finish_refresh(&mut st, "eu", None, 150, 60);
    let (_, third) = get_signal_nonblocking("eu", &carbon, &mut st, 200);
    assert!(third, "after settling, a new refresh may start");
}

#[test]
fn cache_hit_is_non_blocking() {
    let carbon = CarbonProviderConfig::default();
    let mut st = RuntimeState::new();
    finish_refresh(
        &mut st,
        "eu",
        Some(CarbonSignal { current: Some(321_000), forecast_next: Some(300_000) }),
        100,
        60,
    );
    let marks_before = st.refresh_in_flight.clone();
    let (sig, start) = get_signal_nonblocking("eu", &carbon, &mut st, 150);
    assert_eq!(sig.current, Some(321_000));
    assert_eq!(sig.forecast_next, Some(300_000));
    assert!(!start, "an unexpired entry never starts a provider call");
    assert_eq!(st.refresh_in_flight, marks_before);
    // Past the TTL the entry no longer serves.
    let (sig2, start2) = get_signal_nonblocking("eu", &carbon, &mut st, 161);
    assert_eq!(sig2.current, Some(450_000));
    assert!(start2);
}

#[test]
fn zone_current_seeds_the_fallback() {
    let mut carbon = CarbonProviderConfig::default();
    carbon.zone_current = vec![("eu".to_string(), 111_000)];
    carbon.zone_forecast_next = vec![("eu".to_string(), 99_000)];
    let mut st = RuntimeState::new();
    let (sig, _) = get_signal_nonblocking("eu", &carbon, &mut st, 100);
    assert_eq!(sig.current, Some(111_000));
    assert_eq!(sig.forecast_next, Some(99_000));
}
