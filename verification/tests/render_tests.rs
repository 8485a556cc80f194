use rilot::metrics::render_metrics;
use rilot::pipeline::{
    build_decision_log_line, build_rollup_lines, build_target_uri, estimate_co2e_g,
    estimate_energy_joules, is_error_outcome, match_route, sanitize_energy_source,
    apply_header_mutations,
};
use rilot::score::ZoneScore;
use rilot::state::{record_metrics, RuntimeState};
use rilot::text::{escape_label, fmt_milli, fmt_milli6, fmt_micro8, fmt_nano8, str_eq, u64_to_string};

#[test]
fn metric_rendering_is_idempotent() {
    let mut st = RuntimeState::new();
    record_metrics(&mut st, "/api", "eu", 30_000, 450_000, 35_000, 4_375, false);
    record_metrics(&mut st, "/api", "us", 600_000, 120_000, 10_000, 333, true);
    let first = render_metrics(&st.metrics);
    let second = render_metrics(&st.metrics);
    assert_eq!(first, second, "no intervening request, byte-identical output");
}

#[test]
fn metric_rendering_exact_text() {
    let mut st = RuntimeState::new();
    record_metrics(&mut st, "/api", "eu", 30_000, 450_000, 35_000, 4_375, false);
    let out = render_metrics(&st.metrics);
    let expected = "# TYPE requests_total counter\n\
# TYPE errors_total counter\n\
# TYPE latency_ms_bucket counter\n\
# TYPE carbon_intensity_g_per_kwh gauge\n\
# TYPE co2e_estimated_total counter\n\
# TYPE energy_joules_estimated_total counter\n\
requests_total{route=\"/api\",zone=\"eu\"} 1\n\
errors_total{route=\"/api\",zone=\"eu\"} 0\n\
co2e_estimated_total{route=\"/api\",zone=\"eu\"} 0.00000437\n\
energy_joules_estimated_total{route=\"/api\",zone=\"eu\"} 0.03500000\n\
latency_ms_bucket{route=\"/api\",zone=\"eu\",le=\"25\"} 0\n\
latency_ms_bucket{route=\"/api\",zone=\"eu\",le=\"50\"} 1\n\
latency_ms_bucket{route=\"/api\",zone=\"eu\",le=\"100\"} 1\n\
latency_ms_bucket{route=\"/api\",zone=\"eu\",le=\"250\"} 1\n\
latency_ms_bucket{route=\"/api\",zone=\"eu\",le=\"500\"} 1\n\
latency_ms_bucket{route=\"/api\",zone=\"eu\",le=\"1000\"} 1\n\
latency_ms_bucket{route=\"/api\",zone=\"eu\",le=\"2000\"} 1\n\
carbon_intensity_g_per_kwh{zone=\"eu\"} 450.000000\n";
    assert_eq!(out, expected);
}

#[test]
fn label_values_escape_backslash_and_quote() {
    assert_eq!(escape_label("plain"), "plain");
    assert_eq!(escape_label("a\\b"), "a\\\\b");
    assert_eq!(escape_label("say \"hi\""), "say \\\"hi\\\"");
}

#[test]
fn fixed_point_rendering() {
    assert_eq!(u64_to_string(0), "0");
    assert_eq!(u64_to_string(90210), "90210");
    assert_eq!(fmt_milli(20_000), "20.000");
    assert_eq!(fmt_milli(1_234), "1.234");
    assert_eq!(fmt_milli(50), "0.050");
    assert_eq!(fmt_milli6(450_000), "450.000000");
    assert_eq!(fmt_milli6(123), "0.123000");
    assert_eq!(fmt_nano8(4_375), "0.00000437");
    assert_eq!(fmt_nano8(1_500_000_000), "1.50000000");
    assert_eq!(fmt_micro8(35_000), "0.03500000");
}

#[test]
fn rollup_sums_per_route() {
    let mut st = RuntimeState::new();
    record_metrics(&mut st, "/api", "eu", 20_000, 0, 0, 1_000_000_000, false);
    record_metrics(&mut st, "/api", "us", 40_000, 0, 0, 3_000_000_000, true);
    record_metrics(&mut st, "/other", "eu", 10_000, 0, 0, 0, false);
    let lines = build_rollup_lines(&st.metrics);
    assert_eq!(lines.len(), 2);
    assert_eq!(
        lines[0],
        "{\"route\":\"/api\",\"requests_total\":2,\"errors_total\":1,\
\"co2e_estimated_total_g\":4.00000000,\"avg_latency_ms\":30.000}"
    );
    assert_eq!(
        lines[1],
        "{\"route\":\"/other\",\"requests_total\":1,\"errors_total\":0,\
\"co2e_estimated_total_g\":0.00000000,\"avg_latency_ms\":10.000}"
    );
}

#[test]
fn decision_log_line_exact() {
    let d = ZoneScore {
        zone_idx: 0,
        zone_name: "eu".to_string(),
        app_uri: "http://eu.example".to_string(),
        score: 410,
        carbon_g_per_kwh: Some(120_000),
        latency_ms: 20_000,
        error_rate: 0,
        cost: 0,
        filtered_out_reason: None,
    };
    let line = build_decision_log_line(
        "/api",
        "flexible",
        "GET",
        200,
        &Some(d),
        21_500,
        4_375,
        false,
        &None,
    );
    assert_eq!(
        line,
        "{\"route\":\"/api\",\"class\":\"flexible\",\"method\":\"GET\",\"status\":200,\
\"selected_zone\":\"eu\",\"score\":0.410,\"reason\":null,\"carbon_g_per_kwh\":120.000,\
\"latency_ms_estimate\":20.000,\"latency_ms_observed\":21.500,\"co2e_g\":0.00000437,\
\"is_error\":false,\"energy_source\":null}"
    );
}

#[test]
fn decision_log_line_without_decision() {
    let line = build_decision_log_line(
        "/api",
        "strict-local",
        "POST",
        502,
        &None,
        5_000,
        0,
        true,
        &Some("solar".to_string()),
    );
    assert_eq!(
        line,
        "{\"route\":\"/api\",\"class\":\"strict-local\",\"method\":\"POST\",\"status\":502,\
\"selected_zone\":\"default\",\"score\":null,\"reason\":null,\"carbon_g_per_kwh\":null,\
\"latency_ms_estimate\":null,\"latency_ms_observed\":5.000,\"co2e_g\":0.00000000,\
\"is_error\":true,\"energy_source\":\"solar\"}"
    );
}

#[test]
fn target_uri_rewrite_modes() {
    assert_eq!(build_target_uri("http://up/", "/api/x?q=1", false, "/api"), "http://up/api/x?q=1");
    assert_eq!(build_target_uri("http://up/", "/api/x?q=1", true, "/api"), "http://up/x?q=1");
    assert_eq!(build_target_uri("http://up", "/other", true, "/api"), "http://up/other");
    assert_eq!(build_target_uri("http://up///", "/x", false, ""), "http://up/x");
}

#[test]
fn route_matching_rules() {
    let mk = |path: &str, rule_type: &str| rilot::config::ProxyConfig {
        app_name: "app".to_string(),
        app_uri: "http://app".to_string(),
        zones: Vec::new(),
        override_file: None,
        rule: rilot::config::ProxyRule {
            path: path.to_string(),
            rule_type: rule_type.to_string(),
        },
        rewrite: "none".to_string(),
        policy: rilot::config::RoutePolicy::default(),
    };
    let proxies = vec![mk("/exact", "exact"), mk("/api", "contain")];
    assert_eq!(match_route(&proxies, "/exact"), Some(0));
    assert_eq!(match_route(&proxies, "/exact/sub"), None);
    assert_eq!(match_route(&proxies, "/api/users"), Some(1));
    assert_eq!(match_route(&proxies, "/nope"), None);
}

#[test]
fn error_outcomes() {
    assert!(is_error_outcome(502, false));
    assert!(is_error_outcome(500, false));
    assert!(is_error_outcome(200, true));
    assert!(!is_error_outcome(200, false));
    assert!(!is_error_outcome(404, false));
}

#[test]
fn energy_and_co2e_estimates() {
    // 2000 bytes and 5 ms: 2000 * 1e-5 J + 5 * 3e-3 J = 0.035 J.
    assert_eq!(estimate_energy_joules(5_000, 2000), 35_000);
    // 0.035 J at 450 g/kWh: 0.035 / 3.6e6 * 450 g = 4375 ng.
    assert_eq!(estimate_co2e_g(35_000, 450_000), 4_375);
    assert_eq!(estimate_co2e_g(0, 450_000), 0);
    assert_eq!(estimate_co2e_g(35_000, 0), 0);
    // Both estimates clamp at the machine limit instead of wrapping.
    assert_eq!(estimate_energy_joules(u64::MAX, u64::MAX), u64::MAX);
    assert_eq!(estimate_co2e_g(u64::MAX, u64::MAX), u64::MAX);
}

#[test]
fn energy_source_sanitisation() {
    assert_eq!(sanitize_energy_source(Some("solar".to_string())), Some("solar".to_string()));
    assert_eq!(sanitize_energy_source(Some("  \t ".to_string())), None);
    assert_eq!(sanitize_energy_source(Some("".to_string())), None);
    assert_eq!(sanitize_energy_source(None), None);
    assert_eq!(
        sanitize_energy_source(Some(" wind ".to_string())),
        Some(" wind ".to_string())
    );
}

#[test]
fn header_mutations_update_then_remove() {
    let mut headers = vec![("accept".to_string(), "text/html".to_string())];
    let updates = vec![
        ("x-added".to_string(), "1".to_string()),
        ("accept".to_string(), "application/json".to_string()),
    ];
    let removals = vec!["accept".to_string()];
    apply_header_mutations(&mut headers, &updates, &removals);
    assert!(headers.iter().all(|(k, _)| k != "accept"));
    assert!(headers.iter().any(|(k, v)| k == "x-added" && v == "1"));
}

#[test]
fn str_eq_compares_contents() {
    assert!(str_eq("abc", "abc"));
    assert!(!str_eq("abc", "abd"));
    assert!(!str_eq("", "a"));
}
