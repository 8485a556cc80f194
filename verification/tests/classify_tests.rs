use rilot::classify::{bool_override, classify_route, header_or_none, policy_defaults, RoutePolicy};
use rilot::pipeline::{defer_seconds, plugin_gate};

fn headers(pairs: &[(&str, &str)]) -> Vec<(String, String)> {
    pairs.iter().map(|(k, v)| (k.to_string(), v.to_string())).collect()
}

fn defaults(class: &str) -> RoutePolicy {
    RoutePolicy {
        route_class: class.to_string(),
        carbon_cursor_enabled: true,
        forecasting_enabled: true,
        time_shift_enabled: true,
        plugin_enabled: true,
    }
}

#[test]
fn strict_local_disables_plugin_and_time_shift() {
    let defaults = RoutePolicy {
        route_class: "strict-local".to_string(),
        carbon_cursor_enabled: true,
        forecasting_enabled: true,
        time_shift_enabled: true,
        plugin_enabled: true,
    };
    let out = classify_route(&defaults, &Vec::new());
    assert!(!out.plugin_enabled);
    assert!(!out.time_shift_enabled);
}

#[test]
fn header_class_overrides_default() {
    let out = classify_route(&defaults("flexible"), &headers(&[("x-rilot-class", "background")]));
    assert_eq!(out.route_class, "background");
}

#[test]
fn empty_class_falls_back_to_default_then_flexible() {
    // An empty header value does not override a configured default.
    let out = classify_route(&defaults("batch"), &headers(&[("x-rilot-class", "")]));
    assert_eq!(out.route_class, "batch");
    // Only when both header and default are empty does `flexible` apply.
    let out2 = classify_route(&defaults(""), &Vec::new());
    assert_eq!(out2.route_class, "flexible");
    let out3 = classify_route(&defaults(""), &headers(&[("x-rilot-class", "")]));
    assert_eq!(out3.route_class, "flexible");
}

#[test]
fn affirmative_values_switch_flags_on() {
    for v in ["1", "true", "on", "yes"] {
        let h = headers(&[("x-rilot-carbon-cursor", v)]);
        assert!(bool_override(&h, "x-rilot-carbon-cursor", false), "value {v}");
    }
}

#[test]
fn negative_values_switch_flags_off() {
    for v in ["0", "false", "off", "no"] {
        let h = headers(&[("x-rilot-forecasting", v)]);
        assert!(!bool_override(&h, "x-rilot-forecasting", true), "value {v}");
    }
}

#[test]
fn other_values_preserve_the_default() {
    for v in ["maybe", "TRUE", "2", ""] {
        let h = headers(&[("x-rilot-time-shift", v)]);
        assert!(bool_override(&h, "x-rilot-time-shift", true), "value {v}");
        assert!(!bool_override(&h, "x-rilot-time-shift", false), "value {v}");
    }
    assert!(bool_override(&Vec::new(), "x-rilot-plugin", true));
}

#[test]
fn strict_local_ignores_plugin_header() {
    // A strict-local request asking for the plugin still gets none.
    let h = headers(&[("x-rilot-plugin", "true")]);
    let out = classify_route(&defaults("strict-local"), &h);
    assert!(!out.plugin_enabled);
    assert!(!out.time_shift_enabled);
    assert!(!plugin_gate(&out));
    let policy = rilot::config::RoutePolicy::default();
    assert_eq!(defer_seconds(&None, &out, &policy), None);
}

#[test]
fn header_or_none_reads_first_match() {
    let h = headers(&[("x-user-region", "eu"), ("x-user-region", "us")]);
    assert_eq!(header_or_none(&h, "x-user-region"), Some("eu".to_string()));
    assert_eq!(header_or_none(&h, "x-rilot-class"), None);
}

#[test]
fn policy_defaults_copies_the_flag_set() {
    let mut policy = rilot::config::RoutePolicy::default();
    policy.route_class = "background".to_string();
    policy.carbon_cursor_enabled = true;
    let d = policy_defaults(&policy);
    assert_eq!(d.route_class, "background");
    assert!(d.carbon_cursor_enabled);
    assert!(!d.forecasting_enabled);
}
