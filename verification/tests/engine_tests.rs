use rilot::carbon::{finish_refresh, get_signal_nonblocking, CarbonSignal};
use rilot::classify::{classify_route, policy_defaults};
use rilot::config::{
    CarbonProviderConfig, PolicyConstraints, PolicyWeights, ProxyConfig, ProxyRule, RoutePolicy,
};
use rilot::pipeline::defer_seconds;
use rilot::score::{apply_hysteresis, choose_zone, ZoneScore};
use rilot::state::RuntimeState;
use rilot::zones::resolve_zones;

fn zone_cfg(name: &str, region: &str, rtt_ms: u32) -> rilot::config::ZoneConfig {
    rilot::config::ZoneConfig {
        name: name.to_string(),
        app_uri: format!("http://{name}.example"),
        region: Some(region.to_string()),
        base_rtt_ms: Some(rtt_ms),
        cost_weight: None,
        max_in_flight: None,
        tags: Vec::new(),
    }
}

fn proxy_eu_us(priority_mode: &str) -> ProxyConfig {
    let mut policy = RoutePolicy::default();
    policy.priority_mode = priority_mode.to_string();
    ProxyConfig {
        app_name: "app".to_string(),
        app_uri: "http://app.example".to_string(),
        zones: vec![zone_cfg("eu", "eu", 20_000), zone_cfg("us", "us", 50_000)],
        override_file: None,
        rule: ProxyRule { path: "/api".to_string(), rule_type: "contain".to_string() },
        rewrite: "none".to_string(),
        policy,
    }
}

fn headers(pairs: &[(&str, &str)]) -> Vec<(String, String)> {
    pairs.iter().map(|(k, v)| (k.to_string(), v.to_string())).collect()
}

#[test]
fn latency_first_two_zones_no_carbon() {
    // Two zones, latency-first, no carbon data: the nearer zone wins with
    // the fallback reason and its plain round-trip estimate.
    let proxy = proxy_eu_us("latency-first");
    let carbon = CarbonProviderConfig::default();
    let zones = resolve_zones(&proxy);
    let mut st = RuntimeState::new();
    let h = headers(&[("x-user-region", "eu")]);
    let classified = classify_route(&policy_defaults(&proxy.policy), &h);
    let (decision, _refreshes, _, _) = choose_zone(&proxy, &classified, &h, &carbon, &zones, &mut st, 1000);
    let d = decision.expect("a zone is selected");
    assert_eq!(d.zone_name, "eu");
    assert_eq!(d.latency_ms, 20_000);
    assert_eq!(d.filtered_out_reason.as_deref(), Some("fallback-lowest-latency"));
    assert_eq!(d.score, 9_999_000);
}

#[test]
fn carbon_first_with_cached_signal() {
    // The cleaner, farther zone wins under carbon-first weights.
    let mut proxy = proxy_eu_us("carbon-first");
    proxy.policy.carbon_cursor_enabled = true;
    let carbon = CarbonProviderConfig::default();
    let zones = resolve_zones(&proxy);
    let mut st = RuntimeState::new();
    finish_refresh(
        &mut st,
        "eu",
        Some(CarbonSignal { current: Some(400_000), forecast_next: None }),
        1000,
        600,
    );
    finish_refresh(
        &mut st,
        "us",
        Some(CarbonSignal { current: Some(120_000), forecast_next: None }),
        1000,
        600,
    );
    let h: Vec<(String, String)> = Vec::new();
    let classified = classify_route(&policy_defaults(&proxy.policy), &h);
    let (decision, refreshes, _, _) =
        choose_zone(&proxy, &classified, &h, &carbon, &zones, &mut st, 1100);
    let d = decision.expect("a zone is selected");
    assert_eq!(d.zone_name, "us");
    assert_eq!(d.carbon_g_per_kwh, Some(120_000));
    assert!(d.filtered_out_reason.is_none());
    assert!(refreshes.is_empty(), "fresh cache entries trigger no refresh");
    // eu: carbon 1.0, latency 0.4 -> 0.78; us: carbon 0.3, latency 1.0 -> 0.41
    assert_eq!(d.score, 410);
}

#[test]
fn background_time_shift_deferral() {
    // A background route with a 20% forecast improvement over a 10%
    // threshold is marked for the greener window and deferred.
    let mut proxy = proxy_eu_us("balanced");
    proxy.policy.carbon_cursor_enabled = true;
    proxy.policy.forecasting_enabled = true;
    proxy.policy.time_shift_enabled = true;
    proxy.policy.route_class = "background".to_string();
    proxy.policy.max_defer_seconds = 2;
    proxy.policy.forecast_min_improvement_ratio = 100;
    let carbon = CarbonProviderConfig::default();
    let zones = resolve_zones(&proxy);
    let mut st = RuntimeState::new();
    for z in ["eu", "us"] {
        finish_refresh(
            &mut st,
            z,
            Some(CarbonSignal { current: Some(500_000), forecast_next: Some(400_000) }),
            1000,
            600,
        );
    }
    let h: Vec<(String, String)> = Vec::new();
    let classified = classify_route(&policy_defaults(&proxy.policy), &h);
    let (decision, _, _, _) = choose_zone(&proxy, &classified, &h, &carbon, &zones, &mut st, 1100);
    let d = decision.expect("a zone is selected");
    assert_eq!(d.filtered_out_reason.as_deref(), Some("deferred-for-greener-window"));
    assert_eq!(d.carbon_g_per_kwh, Some(400_000), "the forecast value is scored");
    assert_eq!(defer_seconds(&Some(d), &classified, &proxy.policy), Some(2));
}

#[test]
fn hysteresis_stickiness() {
    // Two decisions five seconds apart: a 0.02 gain under a 0.05 delta
    // keeps the incumbent.
    let mut proxy = proxy_eu_us("balanced");
    proxy.policy.min_switch_interval_secs = 30;
    proxy.policy.hysteresis_delta = 50;
    let zones = resolve_zones(&proxy);
    let mut st = RuntimeState::new();
    let first = ZoneScore {
        zone_idx: 0,
        zone_name: "eu".to_string(),
        app_uri: "http://eu.example".to_string(),
        score: 600,
        carbon_g_per_kwh: None,
        latency_ms: 20_000,
        error_rate: 0,
        cost: 0,
        filtered_out_reason: None,
    };
    let out1 = apply_hysteresis("/api", &proxy.policy, &zones, first, &mut st, 100);
    assert_eq!(out1.zone_name, "eu");
    let second = ZoneScore {
        zone_idx: 1,
        zone_name: "us".to_string(),
        app_uri: "http://us.example".to_string(),
        score: 580,
        carbon_g_per_kwh: None,
        latency_ms: 50_000,
        error_rate: 0,
        cost: 0,
        filtered_out_reason: None,
    };
    let out2 = apply_hysteresis("/api", &proxy.policy, &zones, second, &mut st, 105);
    assert_eq!(out2.zone_name, "eu");
    assert_eq!(out2.score, 600);
    assert_eq!(out2.filtered_out_reason.as_deref(), Some("hysteresis-sticky-zone"));
    assert_eq!(out2.latency_ms, 50_000, "probe fields stay the newcomer's");
}

#[test]
fn hysteresis_lets_a_clear_winner_switch() {
    let mut proxy = proxy_eu_us("balanced");
    proxy.policy.min_switch_interval_secs = 30;
    proxy.policy.hysteresis_delta = 50;
    let zones = resolve_zones(&proxy);
    let mut st = RuntimeState::new();
    let first = ZoneScore {
        zone_idx: 0,
        zone_name: "eu".to_string(),
        app_uri: "http://eu.example".to_string(),
        score: 600,
        carbon_g_per_kwh: None,
        latency_ms: 20_000,
        error_rate: 0,
        cost: 0,
        filtered_out_reason: None,
    };
    apply_hysteresis("/api", &proxy.policy, &zones, first, &mut st, 100);
    let second = ZoneScore {
        zone_idx: 1,
        zone_name: "us".to_string(),
        app_uri: "http://us.example".to_string(),
        score: 400,
        carbon_g_per_kwh: None,
        latency_ms: 50_000,
        error_rate: 0,
        cost: 0,
        filtered_out_reason: None,
    };
    let out2 = apply_hysteresis("/api", &proxy.policy, &zones, second, &mut st, 105);
    assert_eq!(out2.zone_name, "us", "a 0.2 gain beats the 0.05 delta");
}

#[test]
fn provider_timeout_preserves_fallback() {
    // A timed-out refresh leaves the cache alone; decisions keep using
    // the configured default intensity, and a new refresh can start.
    let mut carbon = CarbonProviderConfig::default();
    carbon.provider = "slow-mock".to_string();
    let mut st = RuntimeState::new();
    let (sig, start) = get_signal_nonblocking("eu", &carbon, &mut st, 1000);
    assert_eq!(sig.current, Some(450_000), "the configured default intensity");
    assert_eq!(sig.forecast_next, None);
    assert!(start, "a refresh must be started");
    // The provider exceeded its deadline: no outcome.
    finish_refresh(&mut st, "eu", None, 1080, 60);
    assert_eq!(st.carbon_cache.len(), 0, "the cache keeps its prior (absent) state");
    let (sig2, start2) = get_signal_nonblocking("eu", &carbon, &mut st, 1100);
    assert_eq!(sig2.current, Some(450_000));
    assert!(start2, "after settling, the next miss starts a fresh refresh");
}

#[test]
fn allowlist_prefers_listed_zones_and_degrades_gracefully() {
    let mut proxy = proxy_eu_us("latency-first");
    proxy.policy.constraints = PolicyConstraints {
        max_candidates: 8,
        zone_allowlist: vec!["us".to_string()],
        max_added_latency_ms: None,
        p95_latency_budget_ms: None,
        max_error_rate: None,
    };
    let carbon = CarbonProviderConfig::default();
    let zones = resolve_zones(&proxy);
    let mut st = RuntimeState::new();
    let h: Vec<(String, String)> = Vec::new();
    let classified = classify_route(&policy_defaults(&proxy.policy), &h);
    let (decision, _, _, _) = choose_zone(&proxy, &classified, &h, &carbon, &zones, &mut st, 50);
    assert_eq!(decision.unwrap().zone_name, "us", "only the listed zone survives");

    // An allow-list matching nothing reverts to the unfiltered set.
    proxy.policy.constraints.zone_allowlist = vec!["nowhere".to_string()];
    let mut st2 = RuntimeState::new();
    let (decision2, _, _, _) = choose_zone(&proxy, &classified, &h, &carbon, &zones, &mut st2, 50);
    assert_eq!(decision2.unwrap().zone_name, "eu");
}

#[test]
fn tag_allowlist_entries_match_zone_tags() {
    let mut proxy = proxy_eu_us("latency-first");
    proxy.zones[1].tags = vec!["gpu".to_string()];
    proxy.policy.constraints.zone_allowlist = vec!["tag:gpu".to_string()];
    let carbon = CarbonProviderConfig::default();
    let zones = resolve_zones(&proxy);
    let mut st = RuntimeState::new();
    let h: Vec<(String, String)> = Vec::new();
    let classified = classify_route(&policy_defaults(&proxy.policy), &h);
    let (decision, _, _, _) = choose_zone(&proxy, &classified, &h, &carbon, &zones, &mut st, 50);
    assert_eq!(decision.unwrap().zone_name, "us", "the tagged zone alone survives");
}

#[test]
fn candidate_budget_truncates_after_affinity_sort() {
    // With one candidate allowed and the caller in `us`, the us zone
    // heads the preselection despite its higher round-trip time.
    let mut proxy = proxy_eu_us("latency-first");
    proxy.policy.constraints.max_candidates = 1;
    let carbon = CarbonProviderConfig::default();
    let zones = resolve_zones(&proxy);
    let mut st = RuntimeState::new();
    let h = headers(&[("x-user-region", "us")]);
    let classified = classify_route(&policy_defaults(&proxy.policy), &h);
    let (decision, _, _, _) = choose_zone(&proxy, &classified, &h, &carbon, &zones, &mut st, 50);
    let d = decision.unwrap();
    assert_eq!(d.zone_name, "us");
    assert_eq!(d.latency_ms, 50_000);
}

#[test]
fn effective_weights_override_by_mode() {
    let w = PolicyWeights { w_carbon: 1, w_latency: 2, w_errors: 3, w_cost: 4 };
    let lf = rilot::score::effective_weights("latency-first", w);
    assert_eq!((lf.w_carbon, lf.w_latency, lf.w_errors, lf.w_cost), (150, 650, 200, 0));
    let cf = rilot::score::effective_weights("carbon-first", w);
    assert_eq!((cf.w_carbon, cf.w_latency, cf.w_errors, cf.w_cost), (700, 200, 100, 0));
    let other = rilot::score::effective_weights("balanced", w);
    assert_eq!((other.w_carbon, other.w_latency, other.w_errors, other.w_cost), (1, 2, 3, 4));
}

#[test]
fn capacity_constraint_filters_a_full_zone() {
    // A zone at its in-flight capacity is filtered out; the other wins
    // despite higher latency.
    let mut proxy = proxy_eu_us("latency-first");
    proxy.zones[0].max_in_flight = Some(1);
    proxy.policy.carbon_cursor_enabled = true;
    let carbon = CarbonProviderConfig::default();
    let zones = resolve_zones(&proxy);
    let mut st = RuntimeState::new();
    rilot::state::increment_in_flight(&mut st, "eu", 1);
    for z in ["eu", "us"] {
        finish_refresh(
            &mut st,
            z,
            Some(CarbonSignal { current: Some(300_000), forecast_next: None }),
            1000,
            600,
        );
    }
    let h: Vec<(String, String)> = Vec::new();
    let classified = classify_route(&policy_defaults(&proxy.policy), &h);
    let (decision, _, _, _) = choose_zone(&proxy, &classified, &h, &carbon, &zones, &mut st, 1100);
    assert_eq!(decision.unwrap().zone_name, "us");
}
