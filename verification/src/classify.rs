//! Route classification: the route's default policy merged with the
//! per-request override headers into an effective flag set.

use vstd::prelude::*;
use crate::table::{tbl_get, table_index};
use crate::text::str_eq;

verus! {

/// The effective policy flag set of one request.
pub struct RoutePolicy {
    pub route_class: String,
    pub carbon_cursor_enabled: bool,
    pub forecasting_enabled: bool,
    pub time_shift_enabled: bool,
    pub plugin_enabled: bool,
}

/// Header values that switch a boolean flag on.
pub open spec fn is_affirmative(v: Seq<char>) -> bool {
    v == "1"@ || v == "true"@ || v == "on"@ || v == "yes"@
}

/// Header values that switch a boolean flag off.
pub open spec fn is_negative(v: Seq<char>) -> bool {
    v == "0"@ || v == "false"@ || v == "off"@ || v == "no"@
}

/// The value a boolean flag takes under header map `h`: an affirmative
/// value of header `key` turns it on, a negative one off, anything else
/// keeps the default.
pub open spec fn spec_bool_override(h: Seq<(String, String)>, key: Seq<char>, default_value: bool) -> bool {
    match tbl_get(h, key) {
        Some(v) => if is_affirmative(v@) {
            true
        } else if is_negative(v@) {
            false
        } else {
            default_value
        },
        None => default_value,
    }
}

/// The effective route class: the `x-rilot-class` header when present
/// and non-empty, else the default; `flexible` when the chosen value is
/// still empty.
pub open spec fn spec_route_class(h: Seq<(String, String)>, default_class: Seq<char>) -> Seq<char> {
    let chosen = match tbl_get(h, "x-rilot-class"@) {
        Some(v) => if v@.len() > 0 {
            v@
        } else {
            default_class
        },
        None => default_class,
    };
    if chosen.len() == 0 {
        "flexible"@
    } else {
        chosen
    }
}

/// The effective time-shift flag: forced off for `strict-local` routes.
pub open spec fn spec_classified_time_shift(
    h: Seq<(String, String)>,
    default_class: Seq<char>,
    default_value: bool,
) -> bool {
    if spec_route_class(h, default_class) == "strict-local"@ {
        false
    } else {
        spec_bool_override(h, "x-rilot-time-shift"@, default_value)
    }
}

/// The effective plugin flag: forced off for `strict-local` routes.
pub open spec fn spec_classified_plugin(
    h: Seq<(String, String)>,
    default_class: Seq<char>,
    default_value: bool,
) -> bool {
    if spec_route_class(h, default_class) == "strict-local"@ {
        false
    } else {
        spec_bool_override(h, "x-rilot-plugin"@, default_value)
    }
}

/// The default flag set of a route, read from its configured policy.
pub fn policy_defaults(policy: &crate::config::RoutePolicy) -> (r: RoutePolicy)
    ensures
        r.route_class@ == policy.route_class@,
        r.carbon_cursor_enabled == policy.carbon_cursor_enabled,
        r.forecasting_enabled == policy.forecasting_enabled,
        r.time_shift_enabled == policy.time_shift_enabled,
        r.plugin_enabled == policy.plugin_enabled,
{
    RoutePolicy {
        route_class: policy.route_class.clone(),
        carbon_cursor_enabled: policy.carbon_cursor_enabled,
        forecasting_enabled: policy.forecasting_enabled,
        time_shift_enabled: policy.time_shift_enabled,
        plugin_enabled: policy.plugin_enabled,
    }
}

/// The first value of header `key`, if the header is present.
pub fn header_or_none(headers: &Vec<(String, String)>, key: &str) -> (r: Option<String>)
    ensures
        r == tbl_get(headers@, key@),
{
    match table_index(headers, key) {
        Some(i) => Some(headers[i].1.clone()),
        None => None,
    }
}

/// Reads a boolean flag from header `key`, keeping `default_value` unless
/// the header holds an accepted affirmative or negative value.
pub fn bool_override(headers: &Vec<(String, String)>, key: &str, default_value: bool) -> (r: bool)
    ensures
        r == spec_bool_override(headers@, key@, default_value),
{
    match table_index(headers, key) {
        Some(i) => {
            let v: &str = headers[i].1.as_str();
            if str_eq(v, "1") || str_eq(v, "true") || str_eq(v, "on") || str_eq(v, "yes") {
                true
            } else if str_eq(v, "0") || str_eq(v, "false") || str_eq(v, "off") || str_eq(v, "no") {
                false
            } else {
                default_value
            }
        },
        None => default_value,
    }
}

/// Merges the route's default policy with the request's override headers.
/// `strict-local` routes always leave with plugin execution and
/// time-shifting disabled, whatever the headers or defaults say.
pub fn classify_route(defaults: &RoutePolicy, headers: &Vec<(String, String)>) -> (r: RoutePolicy)
    ensures
        r.route_class@ == spec_route_class(headers@, defaults.route_class@),
        r.carbon_cursor_enabled == spec_bool_override(
            headers@,
            "x-rilot-carbon-cursor"@,
            defaults.carbon_cursor_enabled,
        ),
        r.forecasting_enabled == spec_bool_override(
            headers@,
            "x-rilot-forecasting"@,
            defaults.forecasting_enabled,
        ),
        r.time_shift_enabled == spec_classified_time_shift(
            headers@,
            defaults.route_class@,
            defaults.time_shift_enabled,
        ),
        r.plugin_enabled == spec_classified_plugin(
            headers@,
            defaults.route_class@,
            defaults.plugin_enabled,
        ),
        r.route_class@ == "strict-local"@ ==> !r.plugin_enabled && !r.time_shift_enabled,
{
    let mut route_class: String = match header_or_none(headers, "x-rilot-class") {
        Some(v) => if !v.as_str().is_empty() {
            v
        } else {
            defaults.route_class.clone()
        },
        None => defaults.route_class.clone(),
    };
    if route_class.as_str().is_empty() {
        route_class = "flexible".to_owned();
    }

    let carbon_cursor_enabled = bool_override(
        headers,
        "x-rilot-carbon-cursor",
        defaults.carbon_cursor_enabled,
    );
    let forecasting_enabled = bool_override(
        headers,
        "x-rilot-forecasting",
        defaults.forecasting_enabled,
    );
    let mut time_shift_enabled = bool_override(
        headers,
        "x-rilot-time-shift",
        defaults.time_shift_enabled,
    );
    let mut plugin_enabled = bool_override(headers, "x-rilot-plugin", defaults.plugin_enabled);

    if str_eq(route_class.as_str(), "strict-local") {
        plugin_enabled = false;
        time_shift_enabled = false;
    }

    RoutePolicy { route_class, carbon_cursor_enabled, forecasting_enabled, time_shift_enabled, plugin_enabled }
}

/// Strict-local lock-down: a request whose effective route class is
/// `strict-local` leaves classification with the plugin and time-shift
/// flags off, regardless of headers or defaults.
pub proof fn lemma_strict_local_lockdown(
    h: Seq<(String, String)>,
    default_class: Seq<char>,
    default_time_shift: bool,
    default_plugin: bool,
)
    requires
        spec_route_class(h, default_class) == "strict-local"@,
    ensures
        !spec_classified_time_shift(h, default_class, default_time_shift),
        !spec_classified_plugin(h, default_class, default_plugin),
{
}

/// Header override parity: an affirmative header value yields exactly
/// `true`, a negative one exactly `false`, and any other value preserves
/// the default, for every boolean policy flag read through
/// `spec_bool_override`.
pub proof fn lemma_header_override_parity(
    h: Seq<(String, String)>,
    key: Seq<char>,
    default_value: bool,
)
    ensures
        (match tbl_get(h, key) {
            Some(v) => is_affirmative(v@) ==> spec_bool_override(h, key, default_value),
            None => true,
        }),
        (match tbl_get(h, key) {
            Some(v) => is_negative(v@) ==> !spec_bool_override(h, key, default_value),
            None => true,
        }),
        (match tbl_get(h, key) {
            Some(v) => !is_affirmative(v@) && !is_negative(v@) ==> spec_bool_override(
                h,
                key,
                default_value,
            ) == default_value,
            None => spec_bool_override(h, key, default_value) == default_value,
        }),
{
    reveal_strlit("1");
    reveal_strlit("true");
    reveal_strlit("on");
    reveal_strlit("yes");
    reveal_strlit("0");
    reveal_strlit("false");
    reveal_strlit("off");
    reveal_strlit("no");
    assert("1"@.len() == 1 && "true"@.len() == 4 && "on"@.len() == 2 && "yes"@.len() == 3);
    assert("0"@.len() == 1 && "false"@.len() == 5 && "off"@.len() == 3 && "no"@.len() == 2);
    assert("1"@[0] == '1' && "0"@[0] == '0');
    assert("on"@[0] == 'o' && "no"@[0] == 'n');
    assert("yes"@[0] == 'y' && "off"@[0] == 'o');
}

} // verus!
