//! The request pipeline's decisions: route matching, the static per-route
//! candidate table, the time-shift defer and plugin gates, plugin
//! mutation handling, the forwarded URI, error classification, energy and
//! CO2e accounting, and the decision-log and rollup lines.
//!
//! The surrounding process performs the reads, sleeps, forwards and
//! writes these decisions call for.

use vstd::prelude::*;
use crate::classify::RoutePolicy as Classified;
use crate::config::{Config, ProxyRule, RoutePolicy};
use crate::score::ZoneScore;
use crate::state::{sat_u64, MetricsStore, RouteZoneEntry};
use crate::table::{table_remove, table_set, tbl_get};
use crate::text::{
    dec_digits, fmt_milli, fmt_nano8, json_escaped, push_dec, push_json_escaped, spec_fmt_milli,
    spec_fmt_nano8, str_eq, str_starts_with, trim_slashes, trim_trailing_slashes,
};
use crate::zones::{resolve_zones, resolved_zones_ok, ZoneCandidate};

verus! {

/// Whether a rule matches a request path: an `exact` rule matches the
/// path verbatim, any other rule type matches every path that begins
/// with the rule's path.
pub open spec fn spec_rule_matches(rule: ProxyRule, path: Seq<char>) -> bool {
    if rule.rule_type@ == "exact"@ {
        path == rule.path@
    } else {
        rule.path@.len() <= path.len() && path.take(rule.path@.len() as int) == rule.path@
    }
}

/// The first of the first `n` routes whose rule matches `path`.
pub open spec fn spec_match_route(
    proxies: Seq<crate::config::ProxyConfig>,
    path: Seq<char>,
    n: int,
) -> Option<int>
    decreases n,
{
    if n <= 0 {
        None
    } else {
        match spec_match_route(proxies, path, n - 1) {
            Some(i) => Some(i),
            None => if spec_rule_matches(proxies[n - 1].rule, path) {
                Some(n - 1)
            } else {
                None
            },
        }
    }
}

/// Finds the route serving `path`: the first matching rule wins.
pub fn match_route(proxies: &Vec<crate::config::ProxyConfig>, path: &str) -> (r: Option<usize>)
    ensures
        match r {
            Some(i) => spec_match_route(proxies@, path@, proxies@.len() as int) == Some(i as int)
                && i < proxies@.len(),
            None => spec_match_route(proxies@, path@, proxies@.len() as int) is None,
        },
{
    let n: usize = proxies.len();
    let mut i: usize = 0;
    while i < n
        invariant
            n == proxies@.len(),
            i <= n,
            spec_match_route(proxies@, path@, i as int) is None,
        decreases n - i,
    {
        proof {
            reveal_strlit("exact");
        }
        let rule = &proxies[i].rule;
        let hit: bool = if str_eq(rule.rule_type.as_str(), "exact") {
            str_eq(path, rule.path.as_str())
        } else {
            str_starts_with(path, rule.path.as_str())
        };
        if hit {
            proof {
                lemma_match_route_stable(proxies@, path@, i as int, proxies@.len() as int);
            }
            return Some(i);
        }
        i = i + 1;
    }
    None
}

proof fn lemma_match_route_stable(
    proxies: Seq<crate::config::ProxyConfig>,
    path: Seq<char>,
    i: int,
    m: int,
)
    requires
        0 <= i < m <= proxies.len(),
        spec_match_route(proxies, path, i) is None,
        spec_rule_matches(proxies[i].rule, path),
    ensures
        spec_match_route(proxies, path, m) == Some(i),
    decreases m,
{
    if m > i + 1 {
        lemma_match_route_stable(proxies, path, i, m - 1);
    }
}

/// The last of the first `n` routes whose rule path is `k`, if any.
pub open spec fn spec_last_route_for(
    proxies: Seq<crate::config::ProxyConfig>,
    k: Seq<char>,
    n: int,
) -> Option<int>
    decreases n,
{
    if n <= 0 {
        None
    } else if proxies[n - 1].rule.path@ == k {
        Some(n - 1)
    } else {
        spec_last_route_for(proxies, k, n - 1)
    }
}

/// Builds the static per-route candidate table, one entry per configured
/// route path, resolved once at startup.  Each path maps to the resolved
/// zones of the last configured route of that path.
pub fn build_static_state(config: &Config) -> (r: Vec<(String, Vec<ZoneCandidate>)>)
    ensures
        forall|k: Seq<char>|
            match #[trigger] tbl_get(r@, k) {
                Some(zv) => {
                    &&& spec_last_route_for(config.proxies@, k, config.proxies@.len() as int)
                        is Some
                    &&& resolved_zones_ok(
                        zv@,
                        config.proxies@[spec_last_route_for(
                            config.proxies@,
                            k,
                            config.proxies@.len() as int,
                        ).unwrap()],
                    )
                },
                None => spec_last_route_for(config.proxies@, k, config.proxies@.len() as int)
                    is None,
            },
{
    let n: usize = config.proxies.len();
    let mut out: Vec<(String, Vec<ZoneCandidate>)> = Vec::new();
    let mut i: usize = 0;
    while i < n
        invariant
            n == config.proxies@.len(),
            i <= n,
            forall|k: Seq<char>|
                match #[trigger] tbl_get(out@, k) {
                    Some(zv) => {
                        &&& spec_last_route_for(config.proxies@, k, i as int) is Some
                        &&& resolved_zones_ok(
                            zv@,
                            config.proxies@[spec_last_route_for(
                                config.proxies@,
                                k,
                                i as int,
                            ).unwrap()],
                        )
                    },
                    None => spec_last_route_for(config.proxies@, k, i as int) is None,
                },
        decreases n - i,
    {
        let proxy = &config.proxies[i];
        let zones = resolve_zones(proxy);
        table_set(&mut out, proxy.rule.path.as_str(), zones);
        i = i + 1;
    }
    out
}

/// How long a decision defers the request, in seconds: the configured
/// deferral when the decision was marked for a greener window, time
/// shifting is on and a deferral is configured; otherwise nothing.
pub open spec fn spec_defer_seconds(
    decision: Option<ZoneScore>,
    cls: Classified,
    policy: RoutePolicy,
) -> Option<u64> {
    match decision {
        Some(d) => match d.filtered_out_reason {
            Some(s) => if s@ == "deferred-for-greener-window"@ && cls.time_shift_enabled
                && policy.max_defer_seconds > 0 {
                Some(policy.max_defer_seconds)
            } else {
                None
            },
            None => None,
        },
        None => None,
    }
}

/// Decides the time-shift deferral of one request.
pub fn defer_seconds(decision: &Option<ZoneScore>, cls: &Classified, policy: &RoutePolicy) -> (r:
    Option<u64>)
    ensures
        r == spec_defer_seconds(*decision, *cls, *policy),
        !cls.time_shift_enabled ==> r is None,
{
    match decision {
        Some(d) => match &d.filtered_out_reason {
            Some(s) => {
                if str_eq(s.as_str(), "deferred-for-greener-window") && cls.time_shift_enabled
                    && policy.max_defer_seconds > 0 {
                    Some(policy.max_defer_seconds)
                } else {
                    None
                }
            },
            None => None,
        },
        None => None,
    }
}

/// Whether the plugin runs for this request: only when enabled by the
/// effective policy, and never for `strict-local` routes.
pub fn plugin_gate(cls: &Classified) -> (r: bool)
    ensures
        r == (cls.plugin_enabled && cls.route_class@ != "strict-local"@),
        cls.route_class@ == "strict-local"@ ==> !r,
{
    cls.plugin_enabled && !str_eq(cls.route_class.as_str(), "strict-local")
}

/// ASCII whitespace, the characters the energy-source check strips.
pub open spec fn is_blank(c: char) -> bool {
    c == ' ' || c == '\t' || c == '\n' || c == '\r'
}

/// A plugin-supplied energy-source label is accepted only when it holds
/// a non-blank character.
pub open spec fn spec_source_accepted(s: Seq<char>) -> bool {
    exists|i: int| 0 <= i < s.len() && !is_blank(#[trigger] s[i])
}

/// Validates a plugin-supplied energy-source label: blank labels are
/// dropped.
pub fn sanitize_energy_source(source: Option<String>) -> (r: Option<String>)
    ensures
        match source {
            Some(s) => if spec_source_accepted(s@) {
                r is Some && r.unwrap()@ == s@
            } else {
                r is None
            },
            None => r is None,
        },
{
    match source {
        Some(s) => {
            let n: usize = s.as_str().unicode_len();
            let mut i: usize = 0;
            while i < n
                invariant
                    source == Some(s),
                    n == s@.len(),
                    i <= n,
                    forall|j: int| 0 <= j < i ==> is_blank(#[trigger] s@[j]),
                decreases n - i,
            {
                let c = s.as_str().get_char(i);
                if !(c == ' ' || c == '\t' || c == '\n' || c == '\r') {
                    proof {
                        assert(!is_blank(s@[i as int]));
                    }
                    return Some(s);
                }
                i = i + 1;
            }
            None
        },
        None => None,
    }
}

/// The value the last of the first `n` updates stores under `k`, if any.
pub open spec fn spec_last_update(
    updates: Seq<(String, String)>,
    n: int,
    k: Seq<char>,
) -> Option<String>
    decreases n,
{
    if n <= 0 {
        None
    } else if updates[n - 1].0@ == k {
        Some(updates[n - 1].1)
    } else {
        spec_last_update(updates, n - 1, k)
    }
}

/// Whether one of the removals names `k`.
pub open spec fn spec_removed(removals: Seq<String>, k: Seq<char>) -> bool {
    exists|j: int| 0 <= j < removals.len() && #[trigger] removals[j]@ == k
}

/// Applies the plugin's header mutations: every update is stored under
/// its name (the last update of a name wins), then every removal deletes
/// its name.  A name both updated and removed ends removed; every other
/// header keeps its value.
pub fn apply_header_mutations(
    headers: &mut Vec<(String, String)>,
    updates: &Vec<(String, String)>,
    removals: &Vec<String>,
)
    ensures
        forall|k: Seq<char>|
            #![trigger tbl_get(final(headers)@, k)]
            tbl_get(final(headers)@, k) == (if spec_removed(removals@, k) {
                None
            } else {
                match spec_last_update(updates@, updates@.len() as int, k) {
                    Some(v) => Some(v),
                    None => tbl_get(old(headers)@, k),
                }
            }),
{
    let un: usize = updates.len();
    let mut i: usize = 0;
    while i < un
        invariant
            un == updates@.len(),
            i <= un,
            forall|k: Seq<char>|
                #![trigger tbl_get(headers@, k)]
                tbl_get(headers@, k) == (match spec_last_update(updates@, i as int, k) {
                    Some(v) => Some(v),
                    None => tbl_get(old(headers)@, k),
                }),
        decreases un - i,
    {
        let value: String = updates[i].1.clone();
        proof {
            assert(value == updates@[i as int].1);
        }
        table_set(headers, updates[i].0.as_str(), value);
        i = i + 1;
    }
    let rn: usize = removals.len();
    let mut t: usize = 0;
    let ghost mid = headers@;
    while t < rn
        invariant
            rn == removals@.len(),
            t <= rn,
            forall|k: Seq<char>|
                #![trigger tbl_get(headers@, k)]
                tbl_get(headers@, k) == (if exists|j: int|
                    0 <= j < t && #[trigger] removals@[j]@ == k {
                    None
                } else {
                    tbl_get(mid, k)
                }),
        decreases rn - t,
    {
        table_remove(headers, removals[t].as_str());
        t = t + 1;
    }
}

/// The path-and-query actually forwarded: under `strip` rewriting the
/// route's path prefix is removed when present.
pub open spec fn spec_rewritten_path(pq: Seq<char>, strip: bool, prefix: Seq<char>) -> Seq<char> {
    if strip && prefix.len() <= pq.len() && pq.take(prefix.len() as int) == prefix {
        pq.skip(prefix.len() as int)
    } else {
        pq
    }
}

/// The forwarded URI: the upstream base, trailing slashes trimmed, then
/// the (possibly rewritten) path and query.
pub open spec fn spec_target_uri(
    base: Seq<char>,
    pq: Seq<char>,
    strip: bool,
    prefix: Seq<char>,
) -> Seq<char> {
    trim_slashes(base) + spec_rewritten_path(pq, strip, prefix)
}

/// Builds the URI a request is forwarded to.
pub fn build_target_uri(base: &str, path_and_query: &str, strip: bool, prefix: &str) -> (r: String)
    ensures
        r@ == spec_target_uri(base@, path_and_query@, strip, prefix@),
{
    let trimmed: &str = trim_trailing_slashes(base);
    let mut out: String = trimmed.to_owned();
    if strip && str_starts_with(path_and_query, prefix) {
        let n: usize = path_and_query.unicode_len();
        let pn: usize = prefix.unicode_len();
        let rest: &str = path_and_query.substring_char(pn, n);
        proof {
            assert(rest@ =~= path_and_query@.skip(prefix@.len() as int));
        }
        out.append(rest);
    } else {
        out.append(path_and_query);
    }
    out
}

/// Whether the outcome counts as an error: the upstream could not be
/// reached, or answered with a server-error status.
pub fn is_error_outcome(status: u16, connect_failed: bool) -> (r: bool)
    ensures
        r == (connect_failed || (500 <= status < 600)),
{
    connect_failed || (500 <= status && status < 600)
}

/// The estimated request energy in microjoules: ten per body byte plus
/// three per thousandth of a millisecond spent, clamped to the machine
/// limit.
pub fn estimate_energy_joules(latency_ms: u64, bytes: u64) -> (r: u64)
    ensures
        r == sat_u64(bytes * 10 + latency_ms * 3),
{
    let wide: u128 = (bytes as u128) * 10 + (latency_ms as u128) * 3;
    if wide > 0xffffffffffffffffu128 {
        u64::MAX
    } else {
        wide as u64
    }
}

/// The estimated CO2e in nanograms: the energy in microjoules times the
/// intensity in thousandths of a g/kWh, over 3.6e6, clamped.
pub fn estimate_co2e_g(energy_uj: u64, carbon_g_per_kwh: u64) -> (r: u64)
    ensures
        r == sat_u64(energy_uj * carbon_g_per_kwh / 3600000),
{
    proof {
        vstd::arithmetic::mul::lemma_mul_upper_bound(
            energy_uj as int,
            0xffffffffffffffff,
            carbon_g_per_kwh as int,
            0xffffffffffffffff,
        );
        assert(energy_uj * carbon_g_per_kwh / 3600000 <= energy_uj * carbon_g_per_kwh) by (
        nonlinear_arith)
            requires
                energy_uj >= 0,
                carbon_g_per_kwh >= 0,
        ;
    }
    let wide: u128 = (energy_uj as u128) * (carbon_g_per_kwh as u128) / 3600000;
    if wide > 0xffffffffffffffffu128 {
        u64::MAX
    } else {
        wide as u64
    }
}

/// A JSON string literal: the value escaped, in double quotes.
pub open spec fn jq(s: Seq<char>) -> Seq<char> {
    seq!['"'] + json_escaped(s) + seq!['"']
}

fn push_json_str(out: &mut String, s: &str)
    ensures
        final(out)@ == old(out)@ + jq(s@),
{
    proof {
        reveal_strlit("\"");
        assert("\""@ =~= seq!['"']);
    }
    out.append("\"");
    push_json_escaped(out, s);
    out.append("\"");
    proof {
        assert(final(out)@ =~= old(out)@ + jq(s@));
    }
}

/// An optional fixed-point value as a JSON number, `null` when absent.
pub open spec fn opt_milli_json(v: Option<u64>) -> Seq<char> {
    match v {
        Some(x) => spec_fmt_milli(x as nat),
        None => "null"@,
    }
}

/// One decision-log line: a JSON object with the route, the effective
/// class, the method and status, the selected zone (`default` when no
/// decision was made), the score, reason and carbon intensity of the
/// decision, the estimated and observed latency, the CO2e estimate, the
/// error flag and the plugin-reported energy source.
pub open spec fn spec_decision_log_line(
    route: Seq<char>,
    class: Seq<char>,
    method: Seq<char>,
    status: nat,
    decision: Option<ZoneScore>,
    latency_ms_observed: nat,
    co2e_ng: nat,
    is_error: bool,
    source: Option<String>,
) -> Seq<char> {
    "{\"route\":"@ + jq(route) + ",\"class\":"@ + jq(class) + ",\"method\":"@ + jq(method)
        + ",\"status\":"@ + dec_digits(status) + ",\"selected_zone\":"@ + jq(
        match decision {
            Some(d) => d.zone_name@,
            None => "default"@,
        },
    ) + ",\"score\":"@ + (match decision {
        Some(d) => spec_fmt_milli(d.score as nat),
        None => "null"@,
    }) + ",\"reason\":"@ + (match decision {
        Some(d) => match d.filtered_out_reason {
            Some(s) => jq(s@),
            None => "null"@,
        },
        None => "null"@,
    }) + ",\"carbon_g_per_kwh\":"@ + (match decision {
        Some(d) => opt_milli_json(d.carbon_g_per_kwh),
        None => "null"@,
    }) + ",\"latency_ms_estimate\":"@ + (match decision {
        Some(d) => spec_fmt_milli(d.latency_ms as nat),
        None => "null"@,
    }) + ",\"latency_ms_observed\":"@ + spec_fmt_milli(latency_ms_observed) + ",\"co2e_g\":"@
        + spec_fmt_nano8(co2e_ng) + ",\"is_error\":"@ + (if is_error {
        "true"@
    } else {
        "false"@
    }) + ",\"energy_source\":"@ + (match source {
        Some(s) => jq(s@),
        None => "null"@,
    }) + "}"@
}

/// Builds the decision-log line of one handled request.
#[verifier::rlimit(30)]
pub fn build_decision_log_line(
    route: &str,
    class: &str,
    method: &str,
    status: u16,
    decision: &Option<ZoneScore>,
    latency_ms_observed: u64,
    co2e_ng: u64,
    is_error: bool,
    source: &Option<String>,
) -> (r: String)
    ensures
        r@ == spec_decision_log_line(
            route@,
            class@,
            method@,
            status as nat,
            *decision,
            latency_ms_observed as nat,
            co2e_ng as nat,
            is_error,
            *source,
        ),
{
    proof {
        reveal_strlit("{\"route\":");
        reveal_strlit(",\"class\":");
        reveal_strlit(",\"method\":");
        reveal_strlit(",\"status\":");
        reveal_strlit(",\"selected_zone\":");
        reveal_strlit(",\"score\":");
        reveal_strlit(",\"reason\":");
        reveal_strlit(",\"carbon_g_per_kwh\":");
        reveal_strlit(",\"latency_ms_estimate\":");
        reveal_strlit(",\"latency_ms_observed\":");
        reveal_strlit(",\"co2e_g\":");
        reveal_strlit(",\"is_error\":");
        reveal_strlit(",\"energy_source\":");
        reveal_strlit("}");
        reveal_strlit("null");
        reveal_strlit("true");
        reveal_strlit("false");
        reveal_strlit("default");
    }
    let mut out: String = "{\"route\":".to_owned();
    push_json_str(&mut out, route);
    out.append(",\"class\":");
    push_json_str(&mut out, class);
    out.append(",\"method\":");
    push_json_str(&mut out, method);
    out.append(",\"status\":");
    push_dec(&mut out, status as u64);
    out.append(",\"selected_zone\":");
    match decision {
        Some(d) => push_json_str(&mut out, d.zone_name.as_str()),
        None => push_json_str(&mut out, "default"),
    }
    out.append(",\"score\":");
    match decision {
        Some(d) => {
            let v = fmt_milli(d.score);
            out.append(v.as_str());
        },
        None => out.append("null"),
    }
    out.append(",\"reason\":");
    match decision {
        Some(d) => match &d.filtered_out_reason {
            Some(s) => push_json_str(&mut out, s.as_str()),
            None => out.append("null"),
        },
        None => out.append("null"),
    }
    out.append(",\"carbon_g_per_kwh\":");
    match decision {
        Some(d) => match d.carbon_g_per_kwh {
            Some(c) => {
                let v = fmt_milli(c);
                out.append(v.as_str());
            },
            None => out.append("null"),
        },
        None => out.append("null"),
    }
    out.append(",\"latency_ms_estimate\":");
    match decision {
        Some(d) => {
            let v = fmt_milli(d.latency_ms);
            out.append(v.as_str());
        },
        None => out.append("null"),
    }
    out.append(",\"latency_ms_observed\":");
    let vo = fmt_milli(latency_ms_observed);
    out.append(vo.as_str());
    out.append(",\"co2e_g\":");
    let vc = fmt_nano8(co2e_ng);
    out.append(vc.as_str());
    out.append(",\"is_error\":");
    if is_error {
        out.append("true");
    } else {
        out.append("false");
    }
    out.append(",\"energy_source\":");
    match source {
        Some(s) => push_json_str(&mut out, s.as_str()),
        None => out.append("null"),
    }
    out.append("}");
    proof {
        assert(out@ =~= spec_decision_log_line(
            route@,
            class@,
            method@,
            status as nat,
            *decision,
            latency_ms_observed as nat,
            co2e_ng as nat,
            is_error,
            *source,
        ));
    }
    out
}

/// The distinct routes among the first `n` metrics rows, in first
/// appearance order.
pub open spec fn routes_upto(s: Seq<RouteZoneEntry>, n: int) -> Seq<Seq<char>>
    decreases n,
{
    if n <= 0 {
        Seq::empty()
    } else {
        let p = routes_upto(s, n - 1);
        if p.contains(s[n - 1].route@) {
            p
        } else {
            p.push(s[n - 1].route@)
        }
    }
}

/// The requests of a route summed over its first `n` rows, clamped.
pub open spec fn rollup_reqs(s: Seq<RouteZoneEntry>, route: Seq<char>, n: int) -> int
    decreases n,
{
    if n <= 0 {
        0
    } else {
        let p = rollup_reqs(s, route, n - 1);
        if s[n - 1].route@ == route {
            sat_u64(p + s[n - 1].m.requests_total)
        } else {
            p
        }
    }
}

/// The errors of a route summed over its first `n` rows, clamped.
pub open spec fn rollup_errs(s: Seq<RouteZoneEntry>, route: Seq<char>, n: int) -> int
    decreases n,
{
    if n <= 0 {
        0
    } else {
        let p = rollup_errs(s, route, n - 1);
        if s[n - 1].route@ == route {
            sat_u64(p + s[n - 1].m.errors_total)
        } else {
            p
        }
    }
}

/// The CO2e of a route summed over its first `n` rows, clamped.
pub open spec fn rollup_co2e(s: Seq<RouteZoneEntry>, route: Seq<char>, n: int) -> int
    decreases n,
{
    if n <= 0 {
        0
    } else {
        let p = rollup_co2e(s, route, n - 1);
        if s[n - 1].route@ == route {
            sat_u64(p + s[n - 1].m.co2e_estimated_total_ng)
        } else {
            p
        }
    }
}

/// The latency sum of a route over its first `n` rows, clamped.
pub open spec fn rollup_lat(s: Seq<RouteZoneEntry>, route: Seq<char>, n: int) -> int
    decreases n,
{
    if n <= 0 {
        0
    } else {
        let p = rollup_lat(s, route, n - 1);
        if s[n - 1].route@ == route {
            sat_u64(p + s[n - 1].m.latency_sum_ms)
        } else {
            p
        }
    }
}

/// One rollup line: the route's summed totals and its average latency
/// across all zones, as a JSON object.
pub open spec fn spec_rollup_line(s: Seq<RouteZoneEntry>, route: Seq<char>) -> Seq<char> {
    let n = s.len() as int;
    let reqs = rollup_reqs(s, route, n);
    let avg = if reqs > 0 {
        rollup_lat(s, route, n) / reqs
    } else {
        0
    };
    "{\"route\":"@ + jq(route) + ",\"requests_total\":"@ + dec_digits(reqs as nat)
        + ",\"errors_total\":"@ + dec_digits(rollup_errs(s, route, n) as nat)
        + ",\"co2e_estimated_total_g\":"@ + spec_fmt_nano8(rollup_co2e(s, route, n) as nat)
        + ",\"avg_latency_ms\":"@ + spec_fmt_milli(avg as nat) + "}"@
}

/// Builds one rollup line per route seen in the metrics store, in first
/// appearance order.
pub fn build_rollup_lines(ms: &MetricsStore) -> (r: Vec<String>)
    ensures
        r@.len() == routes_upto(ms.route_zone@, ms.route_zone@.len() as int).len(),
        forall|k: int|
            0 <= k < r@.len() ==> #[trigger] r@[k]@ == spec_rollup_line(
                ms.route_zone@,
                routes_upto(ms.route_zone@, ms.route_zone@.len() as int)[k],
            ),
{
    let s = &ms.route_zone;
    let n: usize = s.len();
    let mut seen: Vec<String> = Vec::new();
    let mut lines: Vec<String> = Vec::new();
    let mut i: usize = 0;
    while i < n
        invariant
            n == s@.len(),
            i <= n,
            seen@.len() == routes_upto(s@, i as int).len(),
            forall|k: int|
                0 <= k < seen@.len() ==> #[trigger] seen@[k]@ == routes_upto(s@, i as int)[k],
            lines@.len() == seen@.len(),
            forall|k: int|
                0 <= k < lines@.len() ==> #[trigger] lines@[k]@ == spec_rollup_line(
                    s@,
                    routes_upto(s@, i as int)[k],
                ),
        decreases n - i,
    {
        let route: &str = s[i].route.as_str();
        let found: bool = crate::table::names_has(&seen, route);
        proof {
            if found {
                let k = choose|k: int| 0 <= k < seen@.len() && seen@[k]@ == route@;
                assert(routes_upto(s@, i as int)[k] == route@);
                assert(routes_upto(s@, i as int).contains(route@));
            } else {
                if routes_upto(s@, i as int).contains(route@) {
                    let k = choose|k: int|
                        0 <= k < routes_upto(s@, i as int).len() && routes_upto(s@, i as int)[k]
                            == route@;
                    assert(seen@[k]@ == route@);
                }
            }
        }
        if !found {
            let mut reqs: u64 = 0;
            let mut errs: u64 = 0;
            let mut co2e: u64 = 0;
            let mut lat: u64 = 0;
            let mut j: usize = 0;
            while j < n
                invariant
                    n == s@.len(),
                    j <= n,
                    i < n,
                    route@ == s@[i as int].route@,
                    reqs == rollup_reqs(s@, route@, j as int),
                    errs == rollup_errs(s@, route@, j as int),
                    co2e == rollup_co2e(s@, route@, j as int),
                    lat == rollup_lat(s@, route@, j as int),
                decreases n - j,
            {
                if str_eq(s[j].route.as_str(), route) {
                    reqs = reqs.saturating_add(s[j].m.requests_total);
                    errs = errs.saturating_add(s[j].m.errors_total);
                    co2e = co2e.saturating_add(s[j].m.co2e_estimated_total_ng);
                    lat = lat.saturating_add(s[j].m.latency_sum_ms);
                }
                j = j + 1;
            }
            let avg: u64 = if reqs > 0 {
                lat / reqs
            } else {
                0
            };
            proof {
                reveal_strlit("{\"route\":");
                reveal_strlit(",\"requests_total\":");
                reveal_strlit(",\"errors_total\":");
                reveal_strlit(",\"co2e_estimated_total_g\":");
                reveal_strlit(",\"avg_latency_ms\":");
                reveal_strlit("}");
            }
            let mut line: String = "{\"route\":".to_owned();
            push_json_str(&mut line, route);
            line.append(",\"requests_total\":");
            push_dec(&mut line, reqs);
            line.append(",\"errors_total\":");
            push_dec(&mut line, errs);
            line.append(",\"co2e_estimated_total_g\":");
            let vc = fmt_nano8(co2e);
            line.append(vc.as_str());
            line.append(",\"avg_latency_ms\":");
            let va = fmt_milli(avg);
            line.append(va.as_str());
            line.append("}");
            proof {
                assert(line@ =~= spec_rollup_line(s@, route@));
            }
            lines.push(line);
            seen.push(s[i].route.clone());
            proof {
                assert(routes_upto(s@, i + 1) =~= routes_upto(s@, i as int).push(route@));
            }
        } else {
            proof {
                assert(routes_upto(s@, i + 1) =~= routes_upto(s@, i as int));
            }
        }
        i = i + 1;
    }
    lines
}

} // verus!
