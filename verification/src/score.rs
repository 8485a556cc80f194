//! The scoring engine: per-candidate constraint checks, the normalised
//! multi-factor score, carbon choice with time-shift deferral, hysteresis,
//! and the zone decision that composes them.
//!
//! Scores are in thousandths of a score unit.  Each dimension is
//! normalised against the candidate-set maximum (floored to keep the
//! division meaningful), as a fraction in millionths, then weighted.

use vstd::prelude::*;
use crate::classify::RoutePolicy as Classified;
use crate::config::{CarbonProviderConfig, PolicyConstraints, PolicyWeights, ProxyConfig, RoutePolicy};
use crate::carbon::{
    get_signal_nonblocking, spec_cache_fresh, spec_refresh_outstanding, spec_static_current,
    spec_static_forecast, CarbonSignal,
};
use crate::state::{
    current_error_rate, current_in_flight, last_decision_for, set_last_decision, spec_error_rate,
    spec_in_flight, state_wf, RuntimeState,
};
use crate::table::tbl_get;
use crate::text::{spec_fmt_milli, str_eq, fmt_milli, push_dec, dec_digits};
use crate::zones::{estimate_latency_ms, spec_latency, ZoneCandidate};

verus! {

/// The score a fallback selection carries: a large sentinel, in
/// thousandths.
pub const FALLBACK_SCORE: u64 = 9999000;

/// A scored candidate, or the zone a decision emits.  All fixed-point
/// fields are in thousandths of their unit; `zone_idx` points into the
/// route's candidate list.
pub struct ZoneScore {
    pub zone_idx: usize,
    pub zone_name: String,
    pub app_uri: String,
    pub score: u64,
    pub carbon_g_per_kwh: Option<u64>,
    pub latency_ms: u64,
    pub error_rate: u64,
    pub cost: u64,
    pub filtered_out_reason: Option<String>,
}

/// One candidate's assembled inputs during a decision.
pub struct CandidateRow {
    pub zone_idx: usize,
    pub carbon: Option<u64>,
    pub latency_ms: u64,
    pub error_rate: u64,
    pub cost: u64,
    pub reason: Option<String>,
}

/// The weights a priority mode imposes: `latency-first` and
/// `carbon-first` override the configured weights, anything else keeps
/// them.  Values in thousandths.
pub fn effective_weights(priority_mode: &str, default_weights: PolicyWeights) -> (r: PolicyWeights)
    ensures
        priority_mode@ == "latency-first"@ ==> r.w_carbon == 150 && r.w_latency == 650
            && r.w_errors == 200 && r.w_cost == 0,
        priority_mode@ == "carbon-first"@ ==> r.w_carbon == 700 && r.w_latency == 200
            && r.w_errors == 100 && r.w_cost == 0,
        priority_mode@ != "latency-first"@ && priority_mode@ != "carbon-first"@ ==> r
            == default_weights,
{
    proof {
        reveal_strlit("latency-first");
        reveal_strlit("carbon-first");
        assert("latency-first"@.len() == 13 && "carbon-first"@.len() == 12);
    }
    if str_eq(priority_mode, "latency-first") {
        PolicyWeights { w_carbon: 150, w_latency: 650, w_errors: 200, w_cost: 0 }
    } else if str_eq(priority_mode, "carbon-first") {
        PolicyWeights { w_carbon: 700, w_latency: 200, w_errors: 100, w_cost: 0 }
    } else {
        default_weights
    }
}

/// The constraint verdict on one candidate, checked in order: added
/// latency over the best candidate, the absolute latency budget, the
/// error-rate bound, then the in-flight capacity.  The reason names the
/// bound that failed.
pub open spec fn spec_constraint_reason(
    c: PolicyConstraints,
    z: ZoneCandidate,
    latency: int,
    err: int,
    best_lat: int,
    in_flight: int,
) -> Option<Seq<char>> {
    if c.max_added_latency_ms is Some && latency > best_lat + c.max_added_latency_ms.unwrap() {
        Some("added-latency>"@ + spec_fmt_milli(c.max_added_latency_ms.unwrap() as nat))
    } else if c.p95_latency_budget_ms is Some && latency > c.p95_latency_budget_ms.unwrap() {
        Some("latency>"@ + spec_fmt_milli(c.p95_latency_budget_ms.unwrap() as nat))
    } else if c.max_error_rate is Some && err > c.max_error_rate.unwrap() {
        Some("error-rate>"@ + spec_fmt_milli(c.max_error_rate.unwrap() as nat))
    } else if z.max_in_flight is Some && in_flight >= z.max_in_flight.unwrap() {
        Some("capacity>"@ + dec_digits(z.max_in_flight.unwrap() as nat))
    } else {
        None
    }
}

/// Checks the policy constraints against one candidate.
pub fn apply_constraints(
    c: &PolicyConstraints,
    z: &ZoneCandidate,
    latency_ms: u64,
    error_rate: u64,
    best_latency_ms: u64,
    in_flight: usize,
) -> (r: Option<String>)
    ensures
        match spec_constraint_reason(
            *c,
            *z,
            latency_ms as int,
            error_rate as int,
            best_latency_ms as int,
            in_flight as int,
        ) {
            Some(s) => r is Some && r.unwrap()@ == s,
            None => r is None,
        },
{
    if let Some(max_added) = c.max_added_latency_ms {
        if (latency_ms as u128) > (best_latency_ms as u128) + (max_added as u128) {
            let mut s: String = "added-latency>".to_owned();
            let v = fmt_milli(max_added);
            s.append(v.as_str());
            return Some(s);
        }
    }
    if let Some(budget) = c.p95_latency_budget_ms {
        if latency_ms > budget {
            let mut s: String = "latency>".to_owned();
            let v = fmt_milli(budget);
            s.append(v.as_str());
            return Some(s);
        }
    }
    if let Some(max_err) = c.max_error_rate {
        if error_rate > max_err {
            let mut s: String = "error-rate>".to_owned();
            let v = fmt_milli(max_err);
            s.append(v.as_str());
            return Some(s);
        }
    }
    if let Some(limit) = z.max_in_flight {
        if in_flight >= limit {
            let mut s: String = "capacity>".to_owned();
            let mut t: String = String::new();
            push_dec(&mut t, limit as u64);
            s.append(t.as_str());
            proof {
                assert(dec_digits(limit as nat) == dec_digits((limit as u64) as nat));
            }
            return Some(s);
        }
    }
    None
}

/// A dimension normalised against its candidate-set maximum, as a
/// fraction in millionths.
pub open spec fn spec_ratio(x: int, mx: int) -> int {
    x * 1000000 / mx
}

/// The score of one candidate, in thousandths: the weighted sum of the
/// normalised carbon, latency, error and cost dimensions.  A candidate
/// without a carbon value is neutral there: its carbon term equals its
/// carbon weight.
pub open spec fn spec_score(
    w: PolicyWeights,
    carbon: Option<u64>,
    latency: int,
    err: int,
    cost: int,
    max_carbon: int,
    max_latency: int,
    max_error: int,
    max_cost: int,
) -> int {
    let n_carbon = spec_ratio(
        match carbon {
            Some(cv) => cv as int,
            None => max_carbon,
        },
        max_carbon,
    );
    let n_latency = spec_ratio(latency, max_latency);
    let n_errors = spec_ratio(err, max_error);
    let n_cost = spec_ratio(cost, max_cost);
    (w.w_carbon * n_carbon + w.w_latency * n_latency + w.w_errors * n_errors + w.w_cost * n_cost)
        / 1000000
}

fn ratio_exec(x: u64, mx: u64) -> (r: u64)
    requires
        1 <= mx,
        x <= mx,
    ensures
        r == spec_ratio(x as int, mx as int),
        r <= 1000000,
{
    let wide: u128 = (x as u128) * 1000000 / (mx as u128);
    proof {
        assert(x * 1000000 / (mx as int) <= 1000000) by (nonlinear_arith)
            requires
                1 <= mx,
                x <= mx,
        ;
        assert(x * 1000000 >= 0) by (nonlinear_arith)
            requires
                x >= 0,
        ;
    }
    wide as u64
}

fn compute_score(
    w: &PolicyWeights,
    carbon: Option<u64>,
    latency_ms: u64,
    error_rate: u64,
    cost: u64,
    max_carbon: u64,
    max_latency: u64,
    max_error: u64,
    max_cost: u64,
) -> (r: u64)
    requires
        1 <= max_carbon,
        1 <= max_latency,
        1 <= max_error,
        1 <= max_cost,
        carbon is Some ==> carbon.unwrap() <= max_carbon,
        latency_ms <= max_latency,
        error_rate <= max_error,
        cost <= max_cost,
    ensures
        r == spec_score(
            *w,
            carbon,
            latency_ms as int,
            error_rate as int,
            cost as int,
            max_carbon as int,
            max_latency as int,
            max_error as int,
            max_cost as int,
        ),
{
    let carbon_num: u64 = match carbon {
        Some(cv) => cv,
        None => max_carbon,
    };
    let n_carbon: u64 = ratio_exec(carbon_num, max_carbon);
    let n_latency: u64 = ratio_exec(latency_ms, max_latency);
    let n_errors: u64 = ratio_exec(error_rate, max_error);
    let n_cost: u64 = ratio_exec(cost, max_cost);
    proof {
        vstd::arithmetic::mul::lemma_mul_upper_bound(
            w.w_carbon as int,
            0xffffffff,
            n_carbon as int,
            1000000,
        );
        vstd::arithmetic::mul::lemma_mul_upper_bound(
            w.w_latency as int,
            0xffffffff,
            n_latency as int,
            1000000,
        );
        vstd::arithmetic::mul::lemma_mul_upper_bound(
            w.w_errors as int,
            0xffffffff,
            n_errors as int,
            1000000,
        );
        vstd::arithmetic::mul::lemma_mul_upper_bound(
            w.w_cost as int,
            0xffffffff,
            n_cost as int,
            1000000,
        );
    }
    let t1: u64 = (w.w_carbon as u64) * n_carbon;
    let t2: u64 = (w.w_latency as u64) * n_latency;
    let t3: u64 = (w.w_errors as u64) * n_errors;
    let t4: u64 = (w.w_cost as u64) * n_cost;
    let total: u128 = (t1 as u128) + (t2 as u128) + (t3 as u128) + (t4 as u128);
    let scaled: u128 = total / 1000000;
    scaled as u64
}

/// The caller's region, read from the `x-user-region` header; empty when
/// absent.
pub open spec fn spec_user_region(h: Seq<(String, String)>) -> Seq<char> {
    match tbl_get(h, "x-user-region"@) {
        Some(v) => v@,
        None => Seq::empty(),
    }
}

/// Whether the forecast improves on the current intensity by at least
/// `ratio` thousandths: `(cur - next) / cur >= ratio / 1000`, compared
/// exactly by cross-multiplication; zero improvement when `cur` is zero.
pub open spec fn spec_improvement_ge(cur: int, next: int, ratio: int) -> bool {
    if cur > 0 {
        (cur - next) * 1000 >= ratio * cur
    } else {
        0 >= ratio
    }
}

/// Whether the background time-shift deferral marks this candidate: the
/// cursor, forecasting and time-shift are all on, the route class is
/// `background`, the forecast window is open, both signal parts are known
/// and the improvement reaches the configured ratio.
pub open spec fn spec_deferral(cls: Classified, policy: RoutePolicy, sig: CarbonSignal) -> bool {
    &&& cls.carbon_cursor_enabled
    &&& cls.forecasting_enabled
    &&& cls.time_shift_enabled
    &&& cls.route_class@ == "background"@
    &&& policy.forecast_window_minutes > 0
    &&& sig.current is Some
    &&& sig.forecast_next is Some
    &&& spec_improvement_ge(
        sig.current.unwrap() as int,
        sig.forecast_next.unwrap() as int,
        policy.forecast_min_improvement_ratio as int,
    )
}

/// The carbon value a candidate is scored on: none when the cursor is
/// off; under an open forecast window for background time-shifted routes
/// the forecast when both parts are known; otherwise the current value.
pub open spec fn spec_chosen_carbon(cls: Classified, policy: RoutePolicy, sig: CarbonSignal) -> Option<
    u64,
> {
    if !cls.carbon_cursor_enabled {
        None
    } else if cls.forecasting_enabled && cls.time_shift_enabled && cls.route_class@
        == "background"@ && policy.forecast_window_minutes > 0 {
        if sig.current is Some && sig.forecast_next is Some {
            sig.forecast_next
        } else {
            sig.current
        }
    } else {
        sig.current
    }
}

fn improvement_ge_exec(cur: u64, next: u64, ratio: u64) -> (r: bool)
    ensures
        r == spec_improvement_ge(cur as int, next as int, ratio as int),
{
    if cur > 0 {
        if next <= cur {
            proof {
                vstd::arithmetic::mul::lemma_mul_upper_bound(
                    ratio as int,
                    0xffffffffffffffff,
                    cur as int,
                    0xffffffffffffffff,
                );
            }
            ((cur - next) as u128) * 1000 >= (ratio as u128) * (cur as u128)
        } else {
            proof {
                assert((cur - next) * 1000 < 0);
                assert(ratio * cur >= 0) by (nonlinear_arith)
                    requires
                        ratio >= 0,
                        cur >= 0,
                ;
            }
            false
        }
    } else {
        ratio == 0
    }
}

/// The carbon maximum over the first `n` rows, floored at one g/kWh
/// (1000 thousandths); rows without a carbon value do not count.
pub open spec fn spec_max_carbon(rows: Seq<CandidateRow>, n: int) -> int
    decreases n,
{
    if n <= 0 {
        1000
    } else {
        let p = spec_max_carbon(rows, n - 1);
        match rows[n - 1].carbon {
            Some(c) => if c > p {
                c as int
            } else {
                p
            },
            None => p,
        }
    }
}

/// The latency maximum over the first `n` rows, floored at one
/// millisecond.
pub open spec fn spec_max_latency(rows: Seq<CandidateRow>, n: int) -> int
    decreases n,
{
    if n <= 0 {
        1000
    } else {
        let p = spec_max_latency(rows, n - 1);
        if rows[n - 1].latency_ms > p {
            rows[n - 1].latency_ms as int
        } else {
            p
        }
    }
}

/// The error-rate maximum over the first `n` rows, floored at one
/// thousandth.
pub open spec fn spec_max_error(rows: Seq<CandidateRow>, n: int) -> int
    decreases n,
{
    if n <= 0 {
        1
    } else {
        let p = spec_max_error(rows, n - 1);
        if rows[n - 1].error_rate > p {
            rows[n - 1].error_rate as int
        } else {
            p
        }
    }
}

/// The cost maximum over the first `n` rows, floored at one thousandth.
pub open spec fn spec_max_cost(rows: Seq<CandidateRow>, n: int) -> int
    decreases n,
{
    if n <= 0 {
        1
    } else {
        let p = spec_max_cost(rows, n - 1);
        if rows[n - 1].cost > p {
            rows[n - 1].cost as int
        } else {
            p
        }
    }
}

/// Whether any of the first `n` rows carries a carbon value.
pub open spec fn spec_has_carbon(rows: Seq<CandidateRow>, n: int) -> bool
    decreases n,
{
    if n <= 0 {
        false
    } else {
        spec_has_carbon(rows, n - 1) || rows[n - 1].carbon is Some
    }
}

/// The least latency estimate among the first `n` preselected candidates
/// (`n` at least one).
pub open spec fn spec_best_latency(
    zones: Seq<ZoneCandidate>,
    pre: Seq<usize>,
    user: Seq<char>,
    n: int,
) -> int
    decreases n,
{
    if n <= 1 {
        spec_latency(user, zones[pre[0] as int])
    } else {
        let p = spec_best_latency(zones, pre, user, n - 1);
        let l = spec_latency(user, zones[pre[n - 1] as int]);
        if l < p {
            l
        } else {
            p
        }
    }
}

/// A candidate stays selectable when it passed the constraints or was
/// only marked for greener-window deferral.
pub open spec fn spec_eligible(row: CandidateRow) -> bool {
    match row.reason {
        Some(s) => s@ == "deferred-for-greener-window"@,
        None => true,
    }
}

/// The eligible row of least score among the first `n`, the earliest of
/// equals.
pub open spec fn spec_best_eligible(rows: Seq<CandidateRow>, scores: Seq<u64>, n: int) -> Option<
    int,
>
    decreases n,
{
    if n <= 0 {
        None
    } else {
        let p = spec_best_eligible(rows, scores, n - 1);
        if spec_eligible(rows[n - 1]) {
            match p {
                None => Some(n - 1),
                Some(b) => if (scores[n - 1] as int) < scores[b] {
                    Some(n - 1)
                } else {
                    p
                },
            }
        } else {
            p
        }
    }
}

/// The row of least latency among the first `n` (`n` at least one), the
/// earliest of equals.
pub open spec fn spec_lowest_latency_idx(rows: Seq<CandidateRow>, n: int) -> int
    decreases n,
{
    if n <= 1 {
        0
    } else {
        let p = spec_lowest_latency_idx(rows, n - 1);
        if (rows[n - 1].latency_ms as int) < rows[p].latency_ms {
            n - 1
        } else {
            p
        }
    }
}

/// The first zone of that name among the first `n`, if any.
pub open spec fn spec_zone_idx_by_name(zones: Seq<ZoneCandidate>, name: Seq<char>, n: int) -> Option<
    int,
>
    decreases n,
{
    if n <= 0 {
        None
    } else {
        match spec_zone_idx_by_name(zones, name, n - 1) {
            Some(i) => Some(i),
            None => if zones[n - 1].name@ == name {
                Some(n - 1)
            } else {
                None
            },
        }
    }
}

fn find_zone_by_name(zones: &Vec<ZoneCandidate>, name: &str) -> (r: Option<usize>)
    ensures
        match r {
            Some(i) => spec_zone_idx_by_name(zones@, name@, zones@.len() as int) == Some(i as int)
                && i < zones@.len() && zones@[i as int].name@ == name@,
            None => spec_zone_idx_by_name(zones@, name@, zones@.len() as int) is None,
        },
{
    let n: usize = zones.len();
    let mut i: usize = 0;
    while i < n
        invariant
            n == zones@.len(),
            i <= n,
            spec_zone_idx_by_name(zones@, name@, i as int) is None,
        decreases n - i,
    {
        if str_eq(zones[i].name.as_str(), name) {
            proof {
                assert forall|m: int| i + 1 <= m <= n implies spec_zone_idx_by_name(
                    zones@,
                    name@,
                    m,
                ) == Some(i as int) by {
                    lemma_zone_idx_stable(zones@, name@, i as int, m);
                }
            }
            return Some(i);
        }
        i = i + 1;
    }
    None
}

proof fn lemma_zone_idx_stable(zones: Seq<ZoneCandidate>, name: Seq<char>, i: int, m: int)
    requires
        0 <= i < m <= zones.len(),
        spec_zone_idx_by_name(zones, name, i) is None,
        zones[i].name@ == name,
    ensures
        spec_zone_idx_by_name(zones, name, m) == Some(i),
    decreases m,
{
    if m > i + 1 {
        lemma_zone_idx_stable(zones, name, i, m - 1);
    }
}

/// Whether the previous decision of the route sticks: it is recent, the
/// newcomer's score gain is below the hysteresis delta, it names a
/// different zone, and that zone still resolves.
pub open spec fn spec_sticky_applies(
    st: RuntimeState,
    route: Seq<char>,
    policy: RoutePolicy,
    zones: Seq<ZoneCandidate>,
    cand_zone: Seq<char>,
    cand_score: int,
    now: int,
) -> bool {
    match tbl_get(st.last_decision_by_route@, route) {
        Some(last) => {
            let interval = if now >= last.at {
                now - last.at
            } else {
                0
            };
            &&& interval < policy.min_switch_interval_secs
            &&& last.score - cand_score < policy.hysteresis_delta
            &&& last.zone@ != cand_zone
            &&& spec_zone_idx_by_name(zones, last.zone@, zones.len() as int) is Some
        },
        None => false,
    }
}

/// What hysteresis makes of a candidate: when the previous decision
/// sticks, the incumbent zone is emitted with the sticky reason and the
/// candidate's probe fields, and the last decision is untouched;
/// otherwise the candidate passes through and becomes the last decision.
pub open spec fn spec_hysteresis_rel(
    route: Seq<char>,
    policy: RoutePolicy,
    zones: Seq<ZoneCandidate>,
    st0: RuntimeState,
    st1: RuntimeState,
    now: int,
    cand: ZoneScore,
    r: ZoneScore,
) -> bool {
    if spec_sticky_applies(st0, route, policy, zones, cand.zone_name@, cand.score as int, now) {
        let last = tbl_get(st0.last_decision_by_route@, route).unwrap();
        let li = spec_zone_idx_by_name(zones, last.zone@, zones.len() as int).unwrap();
        &&& r.zone_idx == li
        &&& r.zone_name@ == last.zone@
        &&& r.app_uri == zones[li].app_uri
        &&& r.score == last.score
        &&& r.carbon_g_per_kwh == cand.carbon_g_per_kwh
        &&& r.latency_ms == cand.latency_ms
        &&& r.error_rate == cand.error_rate
        &&& r.cost == cand.cost
        &&& r.filtered_out_reason is Some
        &&& r.filtered_out_reason.unwrap()@ == "hysteresis-sticky-zone"@
        &&& st1.last_decision_by_route@ == st0.last_decision_by_route@
    } else {
        &&& r == cand
        &&& match tbl_get(st1.last_decision_by_route@, route) {
            Some(l) => l.zone@ == cand.zone_name@ && l.score == cand.score && l.at == now,
            None => false,
        }
        &&& forall|k2: Seq<char>|
            k2 != route ==> tbl_get(st1.last_decision_by_route@, k2) == tbl_get(
                st0.last_decision_by_route@,
                k2,
            )
    }
}

/// Passes a candidate through the per-route hysteresis gate and keeps
/// the last-decision record current.
pub fn apply_hysteresis(
    route: &str,
    policy: &RoutePolicy,
    zones: &Vec<ZoneCandidate>,
    cand: ZoneScore,
    st: &mut RuntimeState,
    now: u64,
) -> (r: ZoneScore)
    requires
        state_wf(*old(st)),
    ensures
        state_wf(*final(st)),
        spec_hysteresis_rel(route@, *policy, zones@, *old(st), *final(st), now as int, cand, r),
        (cand.zone_idx as int) < zones@.len() ==> (r.zone_idx as int) < zones@.len(),
        final(st).metrics == old(st).metrics,
        final(st).zone_stats == old(st).zone_stats,
        final(st).zone_in_flight == old(st).zone_in_flight,
        final(st).carbon_cache == old(st).carbon_cache,
        final(st).refresh_in_flight == old(st).refresh_in_flight,
        final(st).decision_counter == old(st).decision_counter,
{
    let mut last_zone: String = String::new();
    let mut last_score: u64 = 0;
    let mut last_at: u64 = 0;
    let mut have_last: bool = false;
    match last_decision_for(st, route) {
        Some(last) => {
            last_zone = last.zone.clone();
            last_score = last.score;
            last_at = last.at;
            have_last = true;
        },
        None => {},
    }
    if have_last {
        let interval: u64 = if now >= last_at {
            now - last_at
        } else {
            0
        };
        let gain_small: bool = (last_score as u128) < (cand.score as u128) + (
        policy.hysteresis_delta as u128);
        if interval < policy.min_switch_interval_secs && gain_small && !str_eq(
            last_zone.as_str(),
            cand.zone_name.as_str(),
        ) {
            if let Some(li) = find_zone_by_name(zones, last_zone.as_str()) {
                let z = &zones[li];
                return ZoneScore {
                    zone_idx: li,
                    zone_name: z.name.clone(),
                    app_uri: z.app_uri.clone(),
                    score: last_score,
                    carbon_g_per_kwh: cand.carbon_g_per_kwh,
                    latency_ms: cand.latency_ms,
                    error_rate: cand.error_rate,
                    cost: cand.cost,
                    filtered_out_reason: Some("hysteresis-sticky-zone".to_owned()),
                };
            }
        }
    }
    set_last_decision(st, route, cand.zone_name.as_str(), cand.score, now);
    cand
}

/// The signal the non-blocking cache read yields for a zone: the cache
/// entry when fresh, else the configuration fallback.
pub open spec fn spec_signal_for(
    st: RuntimeState,
    cfg: CarbonProviderConfig,
    z: Seq<char>,
    now: int,
) -> CarbonSignal {
    if spec_cache_fresh(st, z, now) {
        crate::carbon::spec_cached_signal(st, z)
    } else {
        CarbonSignal {
            current: spec_static_current(cfg, z),
            forecast_next: spec_static_forecast(cfg, z),
        }
    }
}

/// The effective weights of a route policy.
pub open spec fn spec_effective_weights(policy: RoutePolicy) -> PolicyWeights {
    if policy.priority_mode@ == "latency-first"@ {
        PolicyWeights { w_carbon: 150, w_latency: 650, w_errors: 200, w_cost: 0 }
    } else if policy.priority_mode@ == "carbon-first"@ {
        PolicyWeights { w_carbon: 700, w_latency: 200, w_errors: 100, w_cost: 0 }
    } else {
        policy.weights
    }
}

/// What one assembled candidate row holds, as a function of the zone, the
/// initial state, the configuration and the classified policy.
pub open spec fn spec_row_ok(
    row: CandidateRow,
    zones: Seq<ZoneCandidate>,
    idx: int,
    st0: RuntimeState,
    cfg: CarbonProviderConfig,
    cls: Classified,
    policy: RoutePolicy,
    user: Seq<char>,
    best_lat: int,
    now: int,
) -> bool {
    let z = zones[idx];
    let sig = spec_signal_for(st0, cfg, z.name@, now);
    &&& row.zone_idx == idx
    &&& row.carbon == spec_chosen_carbon(cls, policy, sig)
    &&& row.latency_ms == spec_latency(user, z)
    &&& row.error_rate == spec_error_rate(st0.zone_stats@, z.name@)
    &&& row.cost == z.cost_weight
    &&& if spec_deferral(cls, policy, sig) {
        row.reason is Some && row.reason.unwrap()@ == "deferred-for-greener-window"@
    } else {
        match spec_constraint_reason(
            policy.constraints,
            z,
            spec_latency(user, z),
            spec_error_rate(st0.zone_stats@, z.name@),
            best_lat,
            spec_in_flight(st0.zone_in_flight@, z.name@),
        ) {
            Some(s) => row.reason is Some && row.reason.unwrap()@ == s,
            None => row.reason is None,
        }
    }
}

/// Whether `k` names one of the first `upto` preselected zones whose
/// cache entry was stale.
pub open spec fn stale_pre_name(
    zones: Seq<ZoneCandidate>,
    pre: Seq<usize>,
    k: Seq<char>,
    st0: RuntimeState,
    now: int,
    upto: int,
) -> bool {
    exists|i: int|
        0 <= i < upto && zones[#[trigger] pre[i] as int].name@ == k && !spec_cache_fresh(
            st0,
            k,
            now,
        )
}

/// The refresh bookkeeping a decision performs: every stale preselected
/// zone ends with a refresh outstanding; the returned names are exactly
/// the stale preselected zones that had none outstanding, each once; and
/// no other zone's mark changes.
pub open spec fn spec_refreshes_ok(
    zones: Seq<ZoneCandidate>,
    pre: Seq<usize>,
    st0: RuntimeState,
    st1: RuntimeState,
    refreshes: Seq<String>,
    now: int,
) -> bool {
    &&& forall|j: int|
        0 <= j < refreshes.len() ==> !spec_refresh_outstanding(
            st0.refresh_in_flight@,
            #[trigger] refreshes[j]@,
        ) && stale_pre_name(zones, pre, refreshes[j]@, st0, now, pre.len() as int)
    &&& forall|i: int|
        0 <= i < pre.len() && !spec_cache_fresh(st0, zones[#[trigger] pre[i] as int].name@, now)
            ==> spec_refresh_outstanding(st1.refresh_in_flight@, zones[pre[i] as int].name@)
    &&& forall|i: int|
        0 <= i < pre.len() && !spec_cache_fresh(st0, zones[#[trigger] pre[i] as int].name@, now)
            && !spec_refresh_outstanding(st0.refresh_in_flight@, zones[pre[i] as int].name@)
            ==> exists|j: int| 0 <= j < refreshes.len() && refreshes[j]@ == zones[pre[i] as int].name@
    &&& forall|k: Seq<char>|
        !stale_pre_name(zones, pre, k, st0, now, pre.len() as int) ==> tbl_get(
            #[trigger] st1.refresh_in_flight@,
            k,
        ) == tbl_get(st0.refresh_in_flight@, k)
    &&& forall|j1: int, j2: int|
        0 <= j1 < j2 < refreshes.len() ==> refreshes[j1]@ != refreshes[j2]@
}

/// Whether `cand` carries a row's probe fields, the given score, and the
/// given reason (the row's own when none overrides it).
pub open spec fn spec_cand_of_row(
    cand: ZoneScore,
    zones: Seq<ZoneCandidate>,
    row: CandidateRow,
    score: int,
    reason_override: Option<Seq<char>>,
) -> bool {
    &&& cand.zone_idx == row.zone_idx
    &&& (row.zone_idx as int) < zones.len()
    &&& cand.zone_name@ == zones[row.zone_idx as int].name@
    &&& cand.app_uri == zones[row.zone_idx as int].app_uri
    &&& cand.score == score
    &&& cand.carbon_g_per_kwh == row.carbon
    &&& cand.latency_ms == row.latency_ms
    &&& cand.error_rate == row.error_rate
    &&& cand.cost == row.cost
    &&& match reason_override {
        Some(s) => cand.filtered_out_reason is Some && cand.filtered_out_reason.unwrap()@ == s,
        None => match row.reason {
            Some(s) => cand.filtered_out_reason is Some && cand.filtered_out_reason.unwrap()@
                == s@,
            None => cand.filtered_out_reason is None,
        },
    }
}

/// A decision emitted a candidate built from `row` with the given score
/// and reason, passed through hysteresis.
pub open spec fn spec_emitted(
    route: Seq<char>,
    policy: RoutePolicy,
    zones: Seq<ZoneCandidate>,
    st0: RuntimeState,
    st1: RuntimeState,
    now: int,
    row: CandidateRow,
    score: int,
    reason_override: Option<Seq<char>>,
    result: ZoneScore,
) -> bool {
    exists|cand: ZoneScore|
        #[trigger] spec_cand_of_row(cand, zones, row, score, reason_override)
            && spec_hysteresis_rel(route, policy, zones, st0, st1, now, cand, result)
}

/// The whole decision of `choose_zone`, relating the initial state, the
/// final state, the result and the refresh list through the assembled
/// rows and scores.
pub open spec fn spec_choice_ok(
    proxy: ProxyConfig,
    cls: Classified,
    headers: Seq<(String, String)>,
    cfg: CarbonProviderConfig,
    st0: RuntimeState,
    st1: RuntimeState,
    zones: Seq<ZoneCandidate>,
    now: int,
    rows: Seq<CandidateRow>,
    scores: Seq<u64>,
    result: Option<ZoneScore>,
    refreshes: Seq<String>,
) -> bool {
    let user = spec_user_region(headers);
    let pre = crate::zones::spec_preselect(
        zones,
        proxy.policy.constraints.zone_allowlist@,
        proxy.policy.constraints.max_candidates as int,
        user,
    );
    let best_lat = spec_best_latency(zones, pre, user, pre.len() as int);
    let n = rows.len() as int;
    let route = proxy.rule.path@;
    &&& rows.len() == pre.len()
    &&& n >= 1
    &&& forall|j: int|
        0 <= j < n ==> spec_row_ok(
            #[trigger] rows[j],
            zones,
            pre[j] as int,
            st0,
            cfg,
            cls,
            proxy.policy,
            user,
            best_lat,
            now,
        )
    &&& spec_refreshes_ok(zones, pre, st0, st1, refreshes, now)
    &&& st1.carbon_cache == st0.carbon_cache
    &&& st1.metrics == st0.metrics
    &&& st1.zone_stats == st0.zone_stats
    &&& st1.zone_in_flight == st0.zone_in_flight
    &&& st1.decision_counter == st0.decision_counter
    &&& if !cls.carbon_cursor_enabled || !spec_has_carbon(rows, n) {
        result is Some && spec_emitted(
            route,
            proxy.policy,
            zones,
            st0,
            st1,
            now,
            rows[spec_lowest_latency_idx(rows, n)],
            FALLBACK_SCORE as int,
            Some("fallback-lowest-latency"@),
            result.unwrap(),
        )
    } else {
        let w = spec_effective_weights(proxy.policy);
        &&& scores.len() == n
        &&& forall|j: int|
            0 <= j < n ==> #[trigger] scores[j] == spec_score(
                w,
                rows[j].carbon,
                rows[j].latency_ms as int,
                rows[j].error_rate as int,
                rows[j].cost as int,
                spec_max_carbon(rows, n),
                spec_max_latency(rows, n),
                spec_max_error(rows, n),
                spec_max_cost(rows, n),
            )
        &&& match spec_best_eligible(rows, scores, n) {
            Some(b) => result is Some && spec_emitted(
                route,
                proxy.policy,
                zones,
                st0,
                st1,
                now,
                rows[b],
                scores[b] as int,
                None,
                result.unwrap(),
            ),
            None => if proxy.policy.fail_safe_lowest_latency {
                result is Some && spec_emitted(
                    route,
                    proxy.policy,
                    zones,
                    st0,
                    st1,
                    now,
                    rows[spec_lowest_latency_idx(rows, n)],
                    FALLBACK_SCORE as int,
                    Some("fallback-lowest-latency"@),
                    result.unwrap(),
                )
            } else {
                result is None && st1.last_decision_by_route@ == st0.last_decision_by_route@
            },
        }
    }
}

proof fn lemma_max_bounds(rows: Seq<CandidateRow>, n: int)
    requires
        0 <= n <= rows.len(),
    ensures
        1000 <= spec_max_carbon(rows, n) <= u64::MAX,
        1000 <= spec_max_latency(rows, n) <= u64::MAX,
        1 <= spec_max_error(rows, n) <= u64::MAX,
        1 <= spec_max_cost(rows, n) <= u64::MAX,
        forall|j: int|
            0 <= j < n && #[trigger] rows[j].carbon is Some ==> rows[j].carbon.unwrap()
                <= spec_max_carbon(rows, n),
        forall|j: int| 0 <= j < n ==> #[trigger] rows[j].latency_ms <= spec_max_latency(rows, n),
        forall|j: int| 0 <= j < n ==> #[trigger] rows[j].error_rate <= spec_max_error(rows, n),
        forall|j: int| 0 <= j < n ==> #[trigger] rows[j].cost <= spec_max_cost(rows, n),
    decreases n,
{
    if n > 0 {
        lemma_max_bounds(rows, n - 1);
    }
}

fn reason_clone(reason: &Option<String>) -> (r: Option<String>)
    ensures
        match reason {
            Some(s) => r is Some && r.unwrap()@ == s@,
            None => r is None,
        },
{
    match reason {
        Some(s) => Some(s.clone()),
        None => None,
    }
}

/// Chooses the upstream zone of one request: preselects the candidates,
/// reads each zone's carbon signal without blocking, applies the
/// constraints and the time-shift deferral, scores and selects under the
/// effective weights (or falls back to lowest latency when carbon-aware
/// selection is off or starved), and passes the pick through hysteresis.
/// The second result lists the zones whose provider refresh the caller
/// must start.
pub fn choose_zone(
    proxy: &ProxyConfig,
    classified: &Classified,
    headers: &Vec<(String, String)>,
    carbon_cfg: &CarbonProviderConfig,
    zones: &Vec<ZoneCandidate>,
    st: &mut RuntimeState,
    now: u64,
) -> (r: (Option<ZoneScore>, Vec<String>, Ghost<Seq<CandidateRow>>, Ghost<Seq<u64>>))
    requires
        state_wf(*old(st)),
    ensures
        state_wf(*final(st)),
        zones@.len() == 0 ==> r.0 is None && r.1@.len() == 0 && *final(st) == *old(st),
        zones@.len() > 0 ==> spec_choice_ok(
            *proxy,
            *classified,
            headers@,
            *carbon_cfg,
            *old(st),
            *final(st),
            zones@,
            now as int,
            r.2@,
            r.3@,
            r.0,
            r.1@,
        ),
        match r.0 {
            Some(zs) => (zs.zone_idx as int) < zones@.len(),
            None => true,
        },
{
    if zones.len() == 0 {
        return (None, Vec::new(), Ghost(Seq::empty()), Ghost(Seq::empty()));
    }
    let user: String = match crate::classify::header_or_none(headers, "x-user-region") {
        Some(v) => v,
        None => String::new(),
    };
    proof {
        assert(user@ == spec_user_region(headers@));
    }
    let pre = crate::zones::preselect_candidates(zones, &proxy.policy.constraints, user.as_str());
    let m: usize = pre.len();

    let mut best_lat: u64 = estimate_latency_ms(user.as_str(), &zones[pre[0]]);
    let mut k: usize = 1;
    while k < m
        invariant
            m == pre@.len(),
            1 <= k <= m,
            forall|j: int| 0 <= j < m ==> (pre@[j] as int) < zones@.len(),
            best_lat == spec_best_latency(zones@, pre@, user@, k as int),
        decreases m - k,
    {
        let l = estimate_latency_ms(user.as_str(), &zones[pre[k]]);
        if l < best_lat {
            best_lat = l;
        }
        k = k + 1;
    }

    let ghost st0 = *st;
    let ghost zs = zones@;
    let ghost userv = user@;
    let ghost nowi = now as int;
    let mut rows: Vec<CandidateRow> = Vec::new();
    let mut refreshes: Vec<String> = Vec::new();
    let mut i: usize = 0;
    while i < m
        invariant
            state_wf(*st),
            m == pre@.len(),
            i <= m,
            zs == zones@,
            userv == user@,
            nowi == now as int,
            forall|j: int| 0 <= j < m ==> (pre@[j] as int) < zs.len(),
            best_lat == spec_best_latency(zs, pre@, userv, m as int),
            st.carbon_cache == st0.carbon_cache,
            st.metrics == st0.metrics,
            st.zone_stats == st0.zone_stats,
            st.zone_in_flight == st0.zone_in_flight,
            st.last_decision_by_route == st0.last_decision_by_route,
            st.decision_counter == st0.decision_counter,
            rows@.len() == i,
            forall|j: int|
                0 <= j < i ==> spec_row_ok(
                    #[trigger] rows@[j],
                    zs,
                    pre@[j] as int,
                    st0,
                    *carbon_cfg,
                    *classified,
                    proxy.policy,
                    userv,
                    best_lat as int,
                    nowi,
                ),
            // a mark set in the initial state stays set
            forall|kk: Seq<char>|
                spec_refresh_outstanding(st0.refresh_in_flight@, kk)
                    ==> spec_refresh_outstanding(#[trigger] st.refresh_in_flight@, kk),
            // stale processed zones are marked
            forall|t: int|
                0 <= t < i && !spec_cache_fresh(st0, zs[#[trigger] pre@[t] as int].name@, nowi)
                    ==> spec_refresh_outstanding(st.refresh_in_flight@, zs[pre@[t] as int].name@),
            // untouched marks
            forall|kk: Seq<char>|
                !stale_pre_name(zs, pre@, kk, st0, nowi, i as int) ==> tbl_get(
                    #[trigger] st.refresh_in_flight@,
                    kk,
                ) == tbl_get(st0.refresh_in_flight@, kk),
            // the refresh list holds stale processed zones that had no mark
            forall|j: int|
                0 <= j < refreshes@.len() ==> !spec_refresh_outstanding(
                    st0.refresh_in_flight@,
                    #[trigger] refreshes@[j]@,
                ) && stale_pre_name(zs, pre@, refreshes@[j]@, st0, nowi, i as int),
            // and covers them
            forall|t: int|
                0 <= t < i && !spec_cache_fresh(st0, zs[#[trigger] pre@[t] as int].name@, nowi)
                    && !spec_refresh_outstanding(
                    st0.refresh_in_flight@,
                    zs[pre@[t] as int].name@,
                ) ==> exists|j: int|
                    0 <= j < refreshes@.len() && refreshes@[j]@ == zs[pre@[t] as int].name@,
            // each listed zone is marked now
            forall|j: int|
                0 <= j < refreshes@.len() ==> spec_refresh_outstanding(
                    st.refresh_in_flight@,
                    #[trigger] refreshes@[j]@,
                ),
            // and listed once
            forall|j1: int, j2: int|
                0 <= j1 < j2 < refreshes@.len() ==> refreshes@[j1]@ != refreshes@[j2]@,
        decreases m - i,
    {
        let idx: usize = pre[i];
        let z = &zones[idx];
        let ghost name = z.name@;
        let ghost st_before = *st;
        let ghost refreshes0 = refreshes@;
        let (sig, need) = get_signal_nonblocking(z.name.as_str(), carbon_cfg, st, now);
        proof {
            assert(spec_cache_fresh(st_before, name, nowi) == spec_cache_fresh(st0, name, nowi));
            assert(sig == spec_signal_for(st0, *carbon_cfg, name, nowi));
        }
        if need {
            refreshes.push(z.name.clone());
        }
        proof {
            assert forall|t: int|
                0 <= t < i + 1 && !spec_cache_fresh(st0, zs[#[trigger] pre@[t] as int].name@, nowi)
                    && !spec_refresh_outstanding(
                    st0.refresh_in_flight@,
                    zs[pre@[t] as int].name@,
                ) implies exists|j: int|
                0 <= j < refreshes@.len() && refreshes@[j]@ == zs[pre@[t] as int].name@ by {
                if t < i {
                    let j = choose|j: int|
                        0 <= j < refreshes0.len() && refreshes0[j]@ == zs[pre@[t] as int].name@;
                    assert(refreshes@[j]@ == zs[pre@[t] as int].name@);
                } else {
                    if !spec_cache_fresh(st0, name, nowi) && !spec_refresh_outstanding(
                        st0.refresh_in_flight@,
                        name,
                    ) {
                        if need {
                            let j = refreshes@.len() - 1;
                            assert(refreshes@[j]@ == name);
                        } else {
                            assert(spec_refresh_outstanding(st_before.refresh_in_flight@, name));
                            assert(tbl_get(st_before.refresh_in_flight@, name) != tbl_get(
                                st0.refresh_in_flight@,
                                name,
                            ));
                            assert(stale_pre_name(zs, pre@, name, st0, nowi, i as int));
                            let t2 = choose|t2: int|
                                0 <= t2 < i && zs[#[trigger] pre@[t2] as int].name@ == name
                                    && !spec_cache_fresh(st0, name, nowi);
                            let j = choose|j: int|
                                0 <= j < refreshes0.len() && refreshes0[j]@ == zs[pre@[t2] as int].name@;
                            assert(refreshes@[j]@ == zs[pre@[t] as int].name@);
                        }
                    }
                }
            }
        }
        let latency: u64 = estimate_latency_ms(user.as_str(), z);
        let err: u64 = current_error_rate(st, z.name.as_str());
        let infl: usize = current_in_flight(st, z.name.as_str());
        let mut reason: Option<String> = apply_constraints(
            &proxy.policy.constraints,
            z,
            latency,
            err,
            best_lat,
            infl,
        );
        let in_window: bool = classified.carbon_cursor_enabled && classified.forecasting_enabled
            && classified.time_shift_enabled && str_eq(
            classified.route_class.as_str(),
            "background",
        ) && proxy.policy.forecast_window_minutes > 0;
        let carbon: Option<u64>;
        if !classified.carbon_cursor_enabled {
            carbon = None;
        } else if in_window {
            match (sig.current, sig.forecast_next) {
                (Some(cur), Some(nxt)) => {
                    if improvement_ge_exec(cur, nxt, proxy.policy.forecast_min_improvement_ratio) {
                        reason = Some("deferred-for-greener-window".to_owned());
                    }
                    carbon = Some(nxt);
                },
                _ => {
                    carbon = sig.current;
                },
            }
        } else {
            carbon = sig.current;
        }
        rows.push(CandidateRow {
            zone_idx: idx,
            carbon,
            latency_ms: latency,
            error_rate: err,
            cost: z.cost_weight,
            reason,
        });
        proof {
            assert(spec_row_ok(
                rows@[i as int],
                zs,
                pre@[i as int] as int,
                st0,
                *carbon_cfg,
                *classified,
                proxy.policy,
                userv,
                best_lat as int,
                nowi,
            ));
        }
        i = i + 1;
    }

    let ghost st1 = *st;
    let n: usize = m;

    let mut has_carbon: bool = false;
    let mut mc: u64 = 1000;
    let mut ml: u64 = 1000;
    let mut me: u64 = 1;
    let mut mcost: u64 = 1;
    let mut t: usize = 0;
    while t < n
        invariant
            n == rows@.len(),
            t <= n,
            has_carbon == spec_has_carbon(rows@, t as int),
            mc == spec_max_carbon(rows@, t as int),
            ml == spec_max_latency(rows@, t as int),
            me == spec_max_error(rows@, t as int),
            mcost == spec_max_cost(rows@, t as int),
        decreases n - t,
    {
        match rows[t].carbon {
            Some(c) => {
                has_carbon = true;
                if c > mc {
                    mc = c;
                }
            },
            None => {},
        }
        if rows[t].latency_ms > ml {
            ml = rows[t].latency_ms;
        }
        if rows[t].error_rate > me {
            me = rows[t].error_rate;
        }
        if rows[t].cost > mcost {
            mcost = rows[t].cost;
        }
        t = t + 1;
    }

    if !classified.carbon_cursor_enabled || !has_carbon {
        let fb = lowest_latency_index(&rows);
        let row = &rows[fb];
        let zi: usize = row.zone_idx;
        let cand = ZoneScore {
            zone_idx: zi,
            zone_name: zones[zi].name.clone(),
            app_uri: zones[zi].app_uri.clone(),
            score: FALLBACK_SCORE,
            carbon_g_per_kwh: row.carbon,
            latency_ms: row.latency_ms,
            error_rate: row.error_rate,
            cost: row.cost,
            filtered_out_reason: Some("fallback-lowest-latency".to_owned()),
        };
        proof {
            assert(spec_cand_of_row(
                cand,
                zs,
                rows@[fb as int],
                FALLBACK_SCORE as int,
                Some("fallback-lowest-latency"@),
            ));
        }
        let res = apply_hysteresis(proxy.rule.path.as_str(), &proxy.policy, zones, cand, st, now);
        proof {
            assert(spec_choice_ok(
                *proxy,
                *classified,
                headers@,
                *carbon_cfg,
                st0,
                *st,
                zs,
                nowi,
                rows@,
                Seq::<u64>::empty(),
                Some(res),
                refreshes@,
            ));
        }
        let ghost grows = rows@;
        return (Some(res), refreshes, Ghost(grows), Ghost(Seq::empty()));
    }

    let weights = effective_weights(proxy.policy.priority_mode.as_str(), proxy.policy.weights);
    proof {
        assert(weights == spec_effective_weights(proxy.policy));
        lemma_max_bounds(rows@, n as int);
    }
    let mut scores: Vec<u64> = Vec::new();
    let mut t2: usize = 0;
    while t2 < n
        invariant
            n == rows@.len(),
            t2 <= n,
            scores@.len() == t2,
            weights == spec_effective_weights(proxy.policy),
            mc == spec_max_carbon(rows@, n as int),
            ml == spec_max_latency(rows@, n as int),
            me == spec_max_error(rows@, n as int),
            mcost == spec_max_cost(rows@, n as int),
            1000 <= mc && 1000 <= ml && 1 <= me && 1 <= mcost,
            forall|j: int|
                0 <= j < n && #[trigger] rows@[j].carbon is Some ==> rows@[j].carbon.unwrap()
                    <= mc,
            forall|j: int| 0 <= j < n ==> #[trigger] rows@[j].latency_ms <= ml,
            forall|j: int| 0 <= j < n ==> #[trigger] rows@[j].error_rate <= me,
            forall|j: int| 0 <= j < n ==> #[trigger] rows@[j].cost <= mcost,
            forall|j: int|
                0 <= j < t2 ==> #[trigger] scores@[j] == spec_score(
                    weights,
                    rows@[j].carbon,
                    rows@[j].latency_ms as int,
                    rows@[j].error_rate as int,
                    rows@[j].cost as int,
                    mc as int,
                    ml as int,
                    me as int,
                    mcost as int,
                ),
        decreases n - t2,
    {
        let s = compute_score(
            &weights,
            rows[t2].carbon,
            rows[t2].latency_ms,
            rows[t2].error_rate,
            rows[t2].cost,
            mc,
            ml,
            me,
            mcost,
        );
        scores.push(s);
        t2 = t2 + 1;
    }

    let mut best: Option<usize> = None;
    let mut t3: usize = 0;
    while t3 < n
        invariant
            n == rows@.len(),
            n == scores@.len(),
            t3 <= n,
            match best {
                Some(b) => spec_best_eligible(rows@, scores@, t3 as int) == Some(b as int) && b
                    < n,
                None => spec_best_eligible(rows@, scores@, t3 as int) is None,
            },
        decreases n - t3,
    {
        let eligible: bool = match &rows[t3].reason {
            Some(s) => str_eq(s.as_str(), "deferred-for-greener-window"),
            None => true,
        };
        if eligible {
            match best {
                Some(b) => {
                    if scores[t3] < scores[b] {
                        best = Some(t3);
                    }
                },
                None => {
                    best = Some(t3);
                },
            }
        }
        t3 = t3 + 1;
    }

    match best {
        Some(b) => {
            let row = &rows[b];
            let zi: usize = row.zone_idx;
            let cand = ZoneScore {
                zone_idx: zi,
                zone_name: zones[zi].name.clone(),
                app_uri: zones[zi].app_uri.clone(),
                score: scores[b],
                carbon_g_per_kwh: row.carbon,
                latency_ms: row.latency_ms,
                error_rate: row.error_rate,
                cost: row.cost,
                filtered_out_reason: reason_clone(&row.reason),
            };
            proof {
                assert(spec_cand_of_row(cand, zs, rows@[b as int], scores@[b as int] as int, None));
            }
            let res = apply_hysteresis(
                proxy.rule.path.as_str(),
                &proxy.policy,
                zones,
                cand,
                st,
                now,
            );
            proof {
                assert(spec_choice_ok(
                    *proxy,
                    *classified,
                    headers@,
                    *carbon_cfg,
                    st0,
                    *st,
                    zs,
                    nowi,
                    rows@,
                    scores@,
                    Some(res),
                    refreshes@,
                ));
            }
            let ghost grows = rows@;
            let ghost gscores = scores@;
            (Some(res), refreshes, Ghost(grows), Ghost(gscores))
        },
        None => {
            if proxy.policy.fail_safe_lowest_latency {
                let fb = lowest_latency_index(&rows);
                let row = &rows[fb];
                let zi: usize = row.zone_idx;
                let cand = ZoneScore {
                    zone_idx: zi,
                    zone_name: zones[zi].name.clone(),
                    app_uri: zones[zi].app_uri.clone(),
                    score: FALLBACK_SCORE,
                    carbon_g_per_kwh: row.carbon,
                    latency_ms: row.latency_ms,
                    error_rate: row.error_rate,
                    cost: row.cost,
                    filtered_out_reason: Some("fallback-lowest-latency".to_owned()),
                };
                proof {
                    assert(spec_cand_of_row(
                        cand,
                        zs,
                        rows@[fb as int],
                        FALLBACK_SCORE as int,
                        Some("fallback-lowest-latency"@),
                    ));
                }
                let res = apply_hysteresis(
                    proxy.rule.path.as_str(),
                    &proxy.policy,
                    zones,
                    cand,
                    st,
                    now,
                );
                proof {
                    assert(spec_choice_ok(
                        *proxy,
                        *classified,
                        headers@,
                        *carbon_cfg,
                        st0,
                        *st,
                        zs,
                        nowi,
                        rows@,
                        scores@,
                        Some(res),
                        refreshes@,
                    ));
                }
                let ghost grows = rows@;
                let ghost gscores = scores@;
                (Some(res), refreshes, Ghost(grows), Ghost(gscores))
            } else {
                proof {
                    assert(spec_choice_ok(
                        *proxy,
                        *classified,
                        headers@,
                        *carbon_cfg,
                        st0,
                        *st,
                        zs,
                        nowi,
                        rows@,
                        scores@,
                        None::<ZoneScore>,
                        refreshes@,
                    ));
                }
                let ghost grows = rows@;
                let ghost gscores = scores@;
                (None, refreshes, Ghost(grows), Ghost(gscores))
            }
        },
    }
}

/// Fallback determinism: when no candidate carries a carbon value (or
/// the carbon cursor is off), the decision falls to the lowest-latency
/// fallback, and the row it emits is the one of least latency estimate,
/// the earliest in preselection order among equals.
pub proof fn lemma_fallback_determinism(rows: Seq<CandidateRow>, n: int)
    requires
        1 <= n <= rows.len(),
    ensures
        0 <= spec_lowest_latency_idx(rows, n) < n,
        forall|j: int|
            0 <= j < n ==> rows[spec_lowest_latency_idx(rows, n)].latency_ms
                <= #[trigger] rows[j].latency_ms,
        forall|j: int|
            0 <= j < spec_lowest_latency_idx(rows, n) ==> rows[spec_lowest_latency_idx(
                rows,
                n,
            )].latency_ms < #[trigger] rows[j].latency_ms,
    decreases n,
{
    if n > 1 {
        lemma_fallback_determinism(rows, n - 1);
    }
}

/// Fallback determinism, emission side: when a decision emits the
/// lowest-latency fallback row and the previous decision of the route
/// does not stick, the result is exactly that row's zone, with the
/// fallback reason and the sentinel score.
pub proof fn lemma_fallback_emission(
    route: Seq<char>,
    policy: RoutePolicy,
    zones: Seq<ZoneCandidate>,
    st0: RuntimeState,
    st1: RuntimeState,
    now: int,
    row: CandidateRow,
    result: ZoneScore,
)
    requires
        spec_emitted(
            route,
            policy,
            zones,
            st0,
            st1,
            now,
            row,
            FALLBACK_SCORE as int,
            Some("fallback-lowest-latency"@),
            result,
        ),
        !spec_sticky_applies(
            st0,
            route,
            policy,
            zones,
            zones[row.zone_idx as int].name@,
            FALLBACK_SCORE as int,
            now,
        ),
    ensures
        result.zone_idx == row.zone_idx,
        result.zone_name@ == zones[row.zone_idx as int].name@,
        result.score == FALLBACK_SCORE,
        result.carbon_g_per_kwh == row.carbon,
        result.latency_ms == row.latency_ms,
        result.filtered_out_reason is Some,
        result.filtered_out_reason.unwrap()@ == "fallback-lowest-latency"@,
{
    let cand = choose|cand: ZoneScore|
        #[trigger] spec_cand_of_row(
            cand,
            zones,
            row,
            FALLBACK_SCORE as int,
            Some("fallback-lowest-latency"@),
        ) && spec_hysteresis_rel(route, policy, zones, st0, st1, now, cand, result);
    assert(!spec_sticky_applies(st0, route, policy, zones, cand.zone_name@, cand.score as int, now));
    assert(result == cand);
}

fn lowest_latency_index(rows: &Vec<CandidateRow>) -> (r: usize)
    requires
        rows@.len() >= 1,
    ensures
        r as int == spec_lowest_latency_idx(rows@, rows@.len() as int),
        (r as int) < rows@.len(),
{
    let n: usize = rows.len();
    let mut best: usize = 0;
    let mut t: usize = 1;
    while t < n
        invariant
            n == rows@.len(),
            1 <= t <= n,
            best as int == spec_lowest_latency_idx(rows@, t as int),
            best < n,
        decreases n - t,
    {
        if rows[t].latency_ms < rows[best].latency_ms {
            best = t;
        }
        t = t + 1;
    }
    best
}

} // verus!
