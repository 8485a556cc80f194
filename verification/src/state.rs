//! The process-wide runtime state: per-zone counters and in-flight gauge,
//! per-(route, zone) metrics with the cumulative latency histogram, the
//! carbon cache, the refresh single-flight marks, the per-route last
//! decision, and the decision-log counter.
//!
//! Every map is a name-keyed table (`crate::table`); `state_wf` is the
//! well-formedness invariant that `new` establishes and every mutator
//! preserves.

use vstd::prelude::*;
use crate::table::{tbl_distinct, tbl_get, table_get_copy, table_index, table_set};

verus! {

/// Monotone per-zone counters since process start.
#[derive(Clone, Copy)]
pub struct ZoneRuntimeStats {
    pub requests: u64,
    pub errors: u64,
}

/// A cached carbon signal and the second it expires at.
/// Intensities are in thousandths of a gram per kWh.
#[derive(Clone, Copy)]
pub struct CachedCarbon {
    pub current: Option<u64>,
    pub forecast_next: Option<u64>,
    pub expires_at: u64,
}

/// The most recent selection of a route, used for hysteresis.
pub struct LastDecision {
    pub zone: String,
    pub score: u64,
    pub at: u64,
}

/// Per-(route, zone) aggregates.  Latency sums are in thousandths of a
/// millisecond, energy in microjoules, CO2e in nanograms.  The histogram
/// is cumulative: bucket `i` counts every sample at most its bound.
#[derive(Clone, Copy)]
pub struct RouteZoneMetrics {
    pub requests_total: u64,
    pub errors_total: u64,
    pub co2e_estimated_total_ng: u64,
    pub energy_estimated_total_uj: u64,
    pub latency_sum_ms: u64,
    pub latency_count: u64,
    pub latency_buckets: [u64; 7],
}

/// One row of the metrics store.
pub struct RouteZoneEntry {
    pub route: String,
    pub zone: String,
    pub m: RouteZoneMetrics,
}

/// The metrics store: per-(route, zone) aggregates and the last seen
/// intensity per zone.
pub struct MetricsStore {
    pub route_zone: Vec<RouteZoneEntry>,
    pub carbon_intensity_g_per_kwh: Vec<(String, u64)>,
}

/// All mutable shared state of the proxy process.
pub struct RuntimeState {
    pub metrics: MetricsStore,
    pub zone_stats: Vec<(String, ZoneRuntimeStats)>,
    pub zone_in_flight: Vec<(String, usize)>,
    pub carbon_cache: Vec<(String, CachedCarbon)>,
    pub refresh_in_flight: Vec<(String, bool)>,
    pub last_decision_by_route: Vec<(String, LastDecision)>,
    pub decision_counter: u64,
}

/// Addition clamped to `u64`.
pub open spec fn sat_u64(x: int) -> int {
    if x > u64::MAX {
        u64::MAX as int
    } else {
        x
    }
}

/// The upper bound of histogram bucket `i`, in thousandths of a
/// millisecond: 25, 50, 100, 250, 500, 1000, 2000 ms.
pub open spec fn spec_bucket_bound(i: int) -> int {
    if i == 0 {
        25000
    } else if i == 1 {
        50000
    } else if i == 2 {
        100000
    } else if i == 3 {
        250000
    } else if i == 4 {
        500000
    } else if i == 5 {
        1000000
    } else {
        2000000
    }
}

/// The upper bound of histogram bucket `i`.
pub fn bucket_bound(i: usize) -> (r: u64)
    requires
        i < 7,
    ensures
        r == spec_bucket_bound(i as int),
{
    if i == 0 {
        25000
    } else if i == 1 {
        50000
    } else if i == 2 {
        100000
    } else if i == 3 {
        250000
    } else if i == 4 {
        500000
    } else if i == 5 {
        1000000
    } else {
        2000000
    }
}

/// The cumulative histogram after one sample of `latency`: every bucket
/// whose bound admits the sample grows by one.
pub open spec fn spec_bump_buckets(b: Seq<u64>, latency: int) -> Seq<u64> {
    Seq::new(
        b.len(),
        |i: int|
            if latency <= spec_bucket_bound(i) {
                sat_u64(b[i] + 1) as u64
            } else {
                b[i]
            },
    )
}

/// The first metrics row for `(route, zone)`, scanning left to right.
pub open spec fn rz_get(s: Seq<RouteZoneEntry>, route: Seq<char>, zone: Seq<char>) -> Option<
    RouteZoneMetrics,
>
    decreases s.len(),
{
    if s.len() == 0 {
        None
    } else if s[0].route@ == route && s[0].zone@ == zone {
        Some(s[0].m)
    } else {
        rz_get(s.drop_first(), route, zone)
    }
}

/// No two metrics rows share a (route, zone) pair.
pub open spec fn rz_distinct(s: Seq<RouteZoneEntry>) -> bool {
    forall|i: int, j: int|
        0 <= i < j < s.len() ==> !(s[i].route@ == s[j].route@ && s[i].zone@ == s[j].zone@)
}

proof fn lemma_rz_get_first(s: Seq<RouteZoneEntry>, route: Seq<char>, zone: Seq<char>, i: int)
    requires
        0 <= i < s.len(),
        s[i].route@ == route && s[i].zone@ == zone,
        forall|j: int| 0 <= j < i ==> !(s[j].route@ == route && s[j].zone@ == zone),
    ensures
        rz_get(s, route, zone) == Some(s[i].m),
    decreases i,
{
    if i > 0 {
        lemma_rz_get_first(s.drop_first(), route, zone, i - 1);
    }
}

proof fn lemma_rz_get_none(s: Seq<RouteZoneEntry>, route: Seq<char>, zone: Seq<char>)
    requires
        forall|j: int| 0 <= j < s.len() ==> !(s[j].route@ == route && s[j].zone@ == zone),
    ensures
        rz_get(s, route, zone) is None,
    decreases s.len(),
{
    if s.len() > 0 {
        lemma_rz_get_none(s.drop_first(), route, zone);
    }
}

proof fn lemma_rz_get_some_of_key(s: Seq<RouteZoneEntry>, route: Seq<char>, zone: Seq<char>)
    requires
        exists|j: int| 0 <= j < s.len() && s[j].route@ == route && s[j].zone@ == zone,
    ensures
        rz_get(s, route, zone) is Some,
    decreases s.len(),
{
    if !(s[0].route@ == route && s[0].zone@ == zone) {
        let j = choose|j: int| 0 <= j < s.len() && s[j].route@ == route && s[j].zone@ == zone;
        assert(s.drop_first()[j - 1].route@ == route && s.drop_first()[j - 1].zone@ == zone);
        lemma_rz_get_some_of_key(s.drop_first(), route, zone);
    }
}

proof fn lemma_rz_get_update(
    s: Seq<RouteZoneEntry>,
    i: int,
    x: RouteZoneEntry,
    r2: Seq<char>,
    z2: Seq<char>,
)
    requires
        0 <= i < s.len(),
        x.route@ == s[i].route@ && x.zone@ == s[i].zone@,
        !(r2 == s[i].route@ && z2 == s[i].zone@),
    ensures
        rz_get(s.update(i, x), r2, z2) == rz_get(s, r2, z2),
    decreases i,
{
    if i == 0 {
        assert(s.update(0, x).drop_first() =~= s.drop_first());
    } else {
        if s[0].route@ == r2 && s[0].zone@ == z2 {
        } else {
            assert(s.update(i, x).drop_first() =~= s.drop_first().update(i - 1, x));
            lemma_rz_get_update(s.drop_first(), i - 1, x, r2, z2);
        }
    }
}

proof fn lemma_rz_get_push(s: Seq<RouteZoneEntry>, x: RouteZoneEntry, r2: Seq<char>, z2: Seq<char>)
    ensures
        rz_get(s, r2, z2) is Some ==> rz_get(s.push(x), r2, z2) == rz_get(s, r2, z2),
        rz_get(s, r2, z2) is None && x.route@ == r2 && x.zone@ == z2 ==> rz_get(s.push(x), r2, z2)
            == Some(x.m),
        rz_get(s, r2, z2) is None && !(x.route@ == r2 && x.zone@ == z2) ==> rz_get(
            s.push(x),
            r2,
            z2,
        ) is None,
    decreases s.len(),
{
    if s.len() == 0 {
        assert(s.push(x)[0] == x);
        assert(s.push(x).drop_first() =~= Seq::<RouteZoneEntry>::empty());
        assert(rz_get(Seq::<RouteZoneEntry>::empty(), r2, z2) is None);
        if x.route@ == r2 && x.zone@ == z2 {
            assert(rz_get(s.push(x), r2, z2) == Some(x.m));
        } else {
            assert(rz_get(s.push(x), r2, z2) == rz_get(s.push(x).drop_first(), r2, z2));
        }
    } else {
        assert(s.push(x)[0] == s[0]);
        assert(s.push(x).drop_first() =~= s.drop_first().push(x));
        lemma_rz_get_push(s.drop_first(), x, r2, z2);
        if s[0].route@ == r2 && s[0].zone@ == z2 {
            assert(rz_get(s, r2, z2) == Some(s[0].m));
        } else {
            assert(rz_get(s, r2, z2) == rz_get(s.drop_first(), r2, z2));
            assert(rz_get(s.push(x), r2, z2) == rz_get(s.drop_first().push(x), r2, z2));
        }
    }
}

/// The position of the first metrics row for `(route, zone)`, if any.
fn rz_index(t: &Vec<RouteZoneEntry>, route: &str, zone: &str) -> (r: Option<usize>)
    ensures
        match r {
            Some(i) => 0 <= i < t@.len() && t@[i as int].route@ == route@ && t@[i as int].zone@
                == zone@ && rz_get(t@, route@, zone@) == Some(t@[i as int].m) && forall|j: int|
                0 <= j < i ==> !(t@[j].route@ == route@ && t@[j].zone@ == zone@),
            None => rz_get(t@, route@, zone@) is None,
        },
{
    let n: usize = t.len();
    let mut i: usize = 0;
    while i < n
        invariant
            n == t@.len(),
            i <= n,
            forall|j: int| 0 <= j < i ==> !(t@[j].route@ == route@ && t@[j].zone@ == zone@),
        decreases n - i,
    {
        if crate::text::str_eq(t[i].route.as_str(), route) && crate::text::str_eq(
            t[i].zone.as_str(),
            zone,
        ) {
            proof {
                lemma_rz_get_first(t@, route@, zone@, i as int);
            }
            return Some(i);
        }
        i = i + 1;
    }
    proof {
        lemma_rz_get_none(t@, route@, zone@);
    }
    None
}

/// Stores `m` under `(route, zone)`, replacing the first row of that pair
/// or appending a new one.  Every other pair keeps its row.
fn rz_set(t: &mut Vec<RouteZoneEntry>, route: &str, zone: &str, m: RouteZoneMetrics)
    ensures
        rz_get(final(t)@, route@, zone@) == Some(m),
        forall|r2: Seq<char>, z2: Seq<char>|
            !(r2 == route@ && z2 == zone@) ==> rz_get(final(t)@, r2, z2) == rz_get(old(t)@, r2, z2),
        rz_distinct(old(t)@) ==> rz_distinct(final(t)@),
{
    let idx = rz_index(t, route, zone);
    match idx {
        Some(i) => {
            let ghost s0 = t@;
            let rk: String = route.to_owned();
            let zk: String = zone.to_owned();
            t[i] = RouteZoneEntry { route: rk, zone: zk, m };
            proof {
                assert(t@ =~= s0.update(i as int, t@[i as int]));
                lemma_rz_get_first(t@, route@, zone@, i as int);
                assert forall|r2: Seq<char>, z2: Seq<char>|
                    !(r2 == route@ && z2 == zone@) implies rz_get(t@, r2, z2) == rz_get(
                    s0,
                    r2,
                    z2,
                ) by {
                    lemma_rz_get_update(s0, i as int, t@[i as int], r2, z2);
                }
                assert(forall|j: int|
                    0 <= j < t@.len() ==> t@[j].route@ == s0[j].route@ && t@[j].zone@
                        == s0[j].zone@);
            }
        },
        None => {
            let ghost s0 = t@;
            let rk: String = route.to_owned();
            let zk: String = zone.to_owned();
            t.push(RouteZoneEntry { route: rk, zone: zk, m });
            proof {
                assert forall|r2: Seq<char>, z2: Seq<char>|
                    !(r2 == route@ && z2 == zone@) implies rz_get(t@, r2, z2) == rz_get(
                    s0,
                    r2,
                    z2,
                ) by {
                    lemma_rz_get_push(s0, t@.last(), r2, z2);
                }
                lemma_rz_get_push(s0, t@.last(), route@, zone@);
                assert forall|j: int|
                    0 <= j < s0.len() implies !(s0[j].route@ == route@ && s0[j].zone@
                    == zone@) by {
                    if s0[j].route@ == route@ && s0[j].zone@ == zone@ {
                        lemma_rz_get_some_of_key(s0, route@, zone@);
                    }
                }
                assert(forall|j: int| 0 <= j < s0.len() ==> t@[j] == s0[j]);
            }
        },
    }
}

/// Per-zone counters are coherent: errors never exceed requests.
pub open spec fn stats_wf(s: Seq<(String, ZoneRuntimeStats)>) -> bool {
    forall|k: Seq<char>|
        match #[trigger] tbl_get(s, k) {
            Some(z) => z.errors <= z.requests,
            None => true,
        }
}

/// One metrics row is coherent: errors never exceed requests, and the
/// cumulative histogram is non-decreasing across bucket index.
pub open spec fn rzm_wf(m: RouteZoneMetrics) -> bool {
    &&& m.errors_total <= m.requests_total
    &&& m.latency_buckets@.len() == 7
    &&& forall|i: int, j: int|
        0 <= i <= j < 7 ==> m.latency_buckets@[i] <= m.latency_buckets@[j]
}

/// Every metrics row is coherent.
pub open spec fn metrics_wf(s: Seq<RouteZoneEntry>) -> bool {
    forall|r: Seq<char>, z: Seq<char>|
        match #[trigger] rz_get(s, r, z) {
            Some(m) => rzm_wf(m),
            None => true,
        }
}

/// Well-formedness of the whole runtime state: coherent counters and
/// metrics, and each table a map (no duplicated key).
pub open spec fn state_wf(st: RuntimeState) -> bool {
    &&& stats_wf(st.zone_stats@)
    &&& metrics_wf(st.metrics.route_zone@)
    &&& rz_distinct(st.metrics.route_zone@)
    &&& tbl_distinct(st.metrics.carbon_intensity_g_per_kwh@)
    &&& tbl_distinct(st.zone_stats@)
    &&& tbl_distinct(st.zone_in_flight@)
    &&& tbl_distinct(st.carbon_cache@)
    &&& tbl_distinct(st.refresh_in_flight@)
    &&& tbl_distinct(st.last_decision_by_route@)
}

impl RuntimeState {
    /// The empty state a process starts from.
    pub fn new() -> (r: RuntimeState)
        ensures
            state_wf(r),
            r.metrics.route_zone@.len() == 0,
            r.metrics.carbon_intensity_g_per_kwh@.len() == 0,
            r.zone_stats@.len() == 0,
            r.zone_in_flight@.len() == 0,
            r.carbon_cache@.len() == 0,
            r.refresh_in_flight@.len() == 0,
            r.last_decision_by_route@.len() == 0,
            r.decision_counter == 0,
    {
        RuntimeState {
            metrics: MetricsStore { route_zone: Vec::new(), carbon_intensity_g_per_kwh: Vec::new() },
            zone_stats: Vec::new(),
            zone_in_flight: Vec::new(),
            carbon_cache: Vec::new(),
            refresh_in_flight: Vec::new(),
            last_decision_by_route: Vec::new(),
            decision_counter: 0,
        }
    }
}

/// The error rate of a zone in thousandths: `errors * 1000 / requests`,
/// zero when the zone has no samples.
pub open spec fn spec_error_rate(s: Seq<(String, ZoneRuntimeStats)>, zone: Seq<char>) -> int {
    match tbl_get(s, zone) {
        Some(z) => if z.requests == 0 {
            0
        } else {
            z.errors * 1000 / (z.requests as int)
        },
        None => 0,
    }
}

/// Reads the error rate of `zone`, in thousandths of one.
pub fn current_error_rate(st: &RuntimeState, zone: &str) -> (r: u64)
    requires
        state_wf(*st),
    ensures
        r == spec_error_rate(st.zone_stats@, zone@),
        r <= 1000,
{
    match table_get_copy(&st.zone_stats, zone) {
        Some(z) => {
            if z.requests == 0 {
                0
            } else {
                let wide: u128 = (z.errors as u128) * 1000 / (z.requests as u128);
                proof {
                    assert((z.errors * 1000) / (z.requests as int) <= 1000) by (nonlinear_arith)
                        requires
                            z.errors <= z.requests,
                            z.requests > 0,
                    ;
                }
                wide as u64
            }
        },
        None => 0,
    }
}

/// The in-flight gauge of a zone; zero when unknown.
pub open spec fn spec_in_flight(s: Seq<(String, usize)>, zone: Seq<char>) -> int {
    match tbl_get(s, zone) {
        Some(v) => v as int,
        None => 0,
    }
}

/// Reads the number of requests currently forwarded to `zone`.
pub fn current_in_flight(st: &RuntimeState, zone: &str) -> (r: usize)
    ensures
        r == spec_in_flight(st.zone_in_flight@, zone@),
{
    match table_get_copy(&st.zone_in_flight, zone) {
        Some(v) => v,
        None => 0,
    }
}

/// The gauge after applying `delta`, clamped to `[0, usize::MAX]`.
pub open spec fn spec_apply_delta(v: int, delta: int) -> int {
    if v + delta > usize::MAX {
        usize::MAX as int
    } else if v + delta < 0 {
        0
    } else {
        v + delta
    }
}

/// Adjusts the in-flight gauge of `zone` by `delta`, saturating at zero
/// and at the machine limit.  Touches nothing else.
pub fn increment_in_flight(st: &mut RuntimeState, zone: &str, delta: i32)
    requires
        state_wf(*old(st)),
    ensures
        state_wf(*final(st)),
        spec_in_flight(final(st).zone_in_flight@, zone@) == spec_apply_delta(
            spec_in_flight(old(st).zone_in_flight@, zone@),
            delta as int,
        ),
        forall|k2: Seq<char>|
            k2 != zone@ ==> tbl_get(final(st).zone_in_flight@, k2) == tbl_get(
                old(st).zone_in_flight@,
                k2,
            ),
        final(st).metrics == old(st).metrics,
        final(st).zone_stats == old(st).zone_stats,
        final(st).carbon_cache == old(st).carbon_cache,
        final(st).refresh_in_flight == old(st).refresh_in_flight,
        final(st).last_decision_by_route == old(st).last_decision_by_route,
        final(st).decision_counter == old(st).decision_counter,
{
    let old_v: usize = current_in_flight(st, zone);
    let new_v: usize = if delta >= 0 {
        old_v.saturating_add(delta as usize)
    } else {
        let mag: usize = (-(delta as i64)) as usize;
        old_v.saturating_sub(mag)
    };
    table_set(&mut st.zone_in_flight, zone, new_v);
}

/// Applies a sequence of gauge deltas in order.
pub open spec fn apply_deltas(v: int, ds: Seq<int>) -> int
    decreases ds.len(),
{
    if ds.len() == 0 {
        v
    } else {
        apply_deltas(spec_apply_delta(v, ds[0]), ds.drop_first())
    }
}

/// The net balance of a history of gauge deltas.
pub open spec fn sum_deltas(ds: Seq<int>) -> int
    decreases ds.len(),
{
    if ds.len() == 0 {
        0
    } else {
        ds[0] + sum_deltas(ds.drop_first())
    }
}

/// In-flight balance: the gauge never goes below zero, and for a history
/// of unit increments and decrements whose running balance stays within
/// the machine limit, the gauge equals increments minus decrements.
pub proof fn lemma_in_flight_balance(v: int, ds: Seq<int>)
    requires
        0 <= v <= usize::MAX,
        forall|i: int| 0 <= i < ds.len() ==> ds[i] == 1 || ds[i] == -1,
        forall|i: int|
            0 <= i < ds.len() ==> 0 <= #[trigger] apply_deltas(v, ds.take(i)) + ds[i]
                <= usize::MAX,
    ensures
        apply_deltas(v, ds) >= 0,
        apply_deltas(v, ds) == v + sum_deltas(ds),
    decreases ds.len(),
{
    if ds.len() > 0 {
        assert(ds.take(0) =~= Seq::<int>::empty());
        assert(apply_deltas(v, ds.take(0)) == v);
        let v1 = spec_apply_delta(v, ds[0]);
        assert(v1 == v + ds[0]);
        assert forall|i: int|
            0 <= i < ds.drop_first().len() implies 0 <= #[trigger] apply_deltas(
            v1,
            ds.drop_first().take(i),
        ) + ds.drop_first()[i] <= usize::MAX by {
            assert(ds.take(i + 1).drop_first() =~= ds.drop_first().take(i));
            assert(ds.take(i + 1)[0] == ds[0]);
            assert(apply_deltas(v, ds.take(i + 1)) == apply_deltas(v1, ds.drop_first().take(i)));
        }
        lemma_in_flight_balance(v1, ds.drop_first());
    }
}

/// In-flight balance, per request: away from the machine limit, the
/// increment before the upstream forward and the decrement after it
/// cancel exactly, and the gauge never goes below zero.
pub proof fn lemma_in_flight_round_trip(v: int)
    requires
        0 <= v < usize::MAX,
    ensures
        spec_apply_delta(spec_apply_delta(v, 1), -1) == v,
        spec_apply_delta(v, 1) >= 0,
        spec_apply_delta(v, -1) >= 0,
{
}

/// The counters of a zone after one more request.
pub open spec fn spec_bump_stats(s: ZoneRuntimeStats, is_error: bool) -> ZoneRuntimeStats {
    ZoneRuntimeStats {
        requests: sat_u64(s.requests + 1) as u64,
        errors: if is_error {
            sat_u64(s.errors + 1) as u64
        } else {
            s.errors
        },
    }
}

/// How one sample changes a metrics row: every counter grows (clamped),
/// and the histogram counts the sample in every bucket it fits.
pub open spec fn rzm_bumped(
    om: RouteZoneMetrics,
    nm: RouteZoneMetrics,
    latency: int,
    energy_uj: int,
    co2e_ng: int,
    is_error: bool,
) -> bool {
    &&& nm.requests_total == sat_u64(om.requests_total + 1)
    &&& nm.errors_total == (if is_error {
        sat_u64(om.errors_total + 1)
    } else {
        om.errors_total as int
    })
    &&& nm.co2e_estimated_total_ng == sat_u64(om.co2e_estimated_total_ng + co2e_ng)
    &&& nm.energy_estimated_total_uj == sat_u64(om.energy_estimated_total_uj + energy_uj)
    &&& nm.latency_sum_ms == sat_u64(om.latency_sum_ms + latency)
    &&& nm.latency_count == sat_u64(om.latency_count + 1)
    &&& nm.latency_buckets@ == spec_bump_buckets(om.latency_buckets@, latency)
}

/// A metrics row with nothing recorded yet.
pub open spec fn rzm_zero(m: RouteZoneMetrics) -> bool {
    &&& m.requests_total == 0
    &&& m.errors_total == 0
    &&& m.co2e_estimated_total_ng == 0
    &&& m.energy_estimated_total_uj == 0
    &&& m.latency_sum_ms == 0
    &&& m.latency_count == 0
    &&& m.latency_buckets@.len() == 7
    &&& forall|i: int| 0 <= i < 7 ==> m.latency_buckets@[i] == 0
}

/// What `record_metrics` leaves under `(route, zone)`: the previous row
/// bumped by the sample, starting from an all-zero row when absent.
pub open spec fn spec_recorded(
    om: Option<RouteZoneMetrics>,
    nm: RouteZoneMetrics,
    latency: int,
    energy_uj: int,
    co2e_ng: int,
    is_error: bool,
) -> bool {
    match om {
        Some(m) => rzm_bumped(m, nm, latency, energy_uj, co2e_ng, is_error),
        None => exists|z: RouteZoneMetrics|
            rzm_zero(z) && rzm_bumped(z, nm, latency, energy_uj, co2e_ng, is_error),
    }
}

fn bump_metrics(om: RouteZoneMetrics, latency_ms: u64, energy_uj: u64, co2e_ng: u64, is_error: bool) -> (nm:
    RouteZoneMetrics)
    ensures
        rzm_bumped(om, nm, latency_ms as int, energy_uj as int, co2e_ng as int, is_error),
{
    let mut buckets: [u64; 7] = om.latency_buckets;
    let mut i: usize = 0;
    while i < 7
        invariant
            i <= 7,
            buckets@.len() == 7,
            forall|j: int|
                0 <= j < i ==> buckets@[j] == spec_bump_buckets(om.latency_buckets@, latency_ms as int)[j],
            forall|j: int| i <= j < 7 ==> buckets@[j] == om.latency_buckets@[j],
        decreases 7 - i,
    {
        if latency_ms <= bucket_bound(i) {
            buckets[i] = buckets[i].saturating_add(1);
        }
        i = i + 1;
    }
    proof {
        assert(buckets@ =~= spec_bump_buckets(om.latency_buckets@, latency_ms as int));
    }
    RouteZoneMetrics {
        requests_total: om.requests_total.saturating_add(1),
        errors_total: if is_error {
            om.errors_total.saturating_add(1)
        } else {
            om.errors_total
        },
        co2e_estimated_total_ng: om.co2e_estimated_total_ng.saturating_add(co2e_ng),
        energy_estimated_total_uj: om.energy_estimated_total_uj.saturating_add(energy_uj),
        latency_sum_ms: om.latency_sum_ms.saturating_add(latency_ms),
        latency_count: om.latency_count.saturating_add(1),
        latency_buckets: buckets,
    }
}

proof fn lemma_bumped_preserves_wf(
    om: RouteZoneMetrics,
    nm: RouteZoneMetrics,
    latency: int,
    energy_uj: int,
    co2e_ng: int,
    is_error: bool,
)
    requires
        rzm_wf(om),
        rzm_bumped(om, nm, latency, energy_uj, co2e_ng, is_error),
    ensures
        rzm_wf(nm),
{
    assert forall|i: int, j: int| 0 <= i <= j < 7 implies nm.latency_buckets@[i]
        <= nm.latency_buckets@[j] by {
        assert(spec_bucket_bound(i) <= spec_bucket_bound(j));
        assert(nm.latency_buckets@[i] == spec_bump_buckets(om.latency_buckets@, latency)[i]);
        assert(nm.latency_buckets@[j] == spec_bump_buckets(om.latency_buckets@, latency)[j]);
    }
}

/// Records the outcome of one forwarded request: bumps the metrics row of
/// `(route, zone)`, stores the intensity last used for `zone`, and bumps
/// the zone's counters.  Latency is in thousandths of a millisecond,
/// intensity in thousandths of a g/kWh, energy in microjoules, CO2e in
/// nanograms.
pub fn record_metrics(
    st: &mut RuntimeState,
    route: &str,
    zone: &str,
    latency_ms: u64,
    carbon_g_per_kwh: u64,
    energy_uj: u64,
    co2e_ng: u64,
    is_error: bool,
)
    requires
        state_wf(*old(st)),
    ensures
        state_wf(*final(st)),
        match rz_get(final(st).metrics.route_zone@, route@, zone@) {
            Some(nm) => spec_recorded(
                rz_get(old(st).metrics.route_zone@, route@, zone@),
                nm,
                latency_ms as int,
                energy_uj as int,
                co2e_ng as int,
                is_error,
            ),
            None => false,
        },
        forall|r2: Seq<char>, z2: Seq<char>|
            !(r2 == route@ && z2 == zone@) ==> rz_get(final(st).metrics.route_zone@, r2, z2)
                == rz_get(old(st).metrics.route_zone@, r2, z2),
        tbl_get(final(st).metrics.carbon_intensity_g_per_kwh@, zone@) == Some(carbon_g_per_kwh),
        forall|k2: Seq<char>|
            k2 != zone@ ==> tbl_get(final(st).metrics.carbon_intensity_g_per_kwh@, k2) == tbl_get(
                old(st).metrics.carbon_intensity_g_per_kwh@,
                k2,
            ),
        tbl_get(final(st).zone_stats@, zone@) == Some(
            spec_bump_stats(
                match tbl_get(old(st).zone_stats@, zone@) {
                    Some(s) => s,
                    None => ZoneRuntimeStats { requests: 0, errors: 0 },
                },
                is_error,
            ),
        ),
        forall|k2: Seq<char>|
            k2 != zone@ ==> tbl_get(final(st).zone_stats@, k2) == tbl_get(old(st).zone_stats@, k2),
        final(st).zone_in_flight == old(st).zone_in_flight,
        final(st).carbon_cache == old(st).carbon_cache,
        final(st).refresh_in_flight == old(st).refresh_in_flight,
        final(st).last_decision_by_route == old(st).last_decision_by_route,
        final(st).decision_counter == old(st).decision_counter,
{
    table_set(&mut st.metrics.carbon_intensity_g_per_kwh, zone, carbon_g_per_kwh);

    let om: RouteZoneMetrics = match rz_index(&st.metrics.route_zone, route, zone) {
        Some(i) => st.metrics.route_zone[i].m,
        None => RouteZoneMetrics {
            requests_total: 0,
            errors_total: 0,
            co2e_estimated_total_ng: 0,
            energy_estimated_total_uj: 0,
            latency_sum_ms: 0,
            latency_count: 0,
            latency_buckets: [0, 0, 0, 0, 0, 0, 0],
        },
    };
    let ghost old_rz = rz_get(st.metrics.route_zone@, route@, zone@);
    proof {
        if old_rz is None {
            assert(rzm_zero(om));
        }
    }
    let nm = bump_metrics(om, latency_ms, energy_uj, co2e_ng, is_error);
    rz_set(&mut st.metrics.route_zone, route, zone, nm);

    let os: ZoneRuntimeStats = match table_get_copy(&st.zone_stats, zone) {
        Some(s) => s,
        None => ZoneRuntimeStats { requests: 0, errors: 0 },
    };
    let ns = ZoneRuntimeStats {
        requests: os.requests.saturating_add(1),
        errors: if is_error {
            os.errors.saturating_add(1)
        } else {
            os.errors
        },
    };
    table_set(&mut st.zone_stats, zone, ns);

    proof {
        if old_rz is Some {
            lemma_bumped_preserves_wf(
                old_rz.unwrap(),
                nm,
                latency_ms as int,
                energy_uj as int,
                co2e_ng as int,
                is_error,
            );
        } else {
            assert(rzm_wf(om));
            lemma_bumped_preserves_wf(
                om,
                nm,
                latency_ms as int,
                energy_uj as int,
                co2e_ng as int,
                is_error,
            );
        }
        assert forall|r2: Seq<char>, z2: Seq<char>|
            match #[trigger] rz_get(final(st).metrics.route_zone@, r2, z2) {
                Some(m) => rzm_wf(m),
                None => true,
            } by {
            if !(r2 == route@ && z2 == zone@) {
                assert(rz_get(final(st).metrics.route_zone@, r2, z2) == rz_get(
                    old(st).metrics.route_zone@,
                    r2,
                    z2,
                ));
            }
        }
        assert forall|k: Seq<char>|
            match #[trigger] tbl_get(final(st).zone_stats@, k) {
                Some(z) => z.errors <= z.requests,
                None => true,
            } by {
            if k != zone@ {
                assert(tbl_get(final(st).zone_stats@, k) == tbl_get(old(st).zone_stats@, k));
            }
        }
    }
}

/// Histogram monotonicity: in a well-formed state, the cumulative bucket
/// counts of every (route, zone) row are non-decreasing across bucket
/// index.
pub proof fn lemma_histogram_monotone(st: RuntimeState, route: Seq<char>, zone: Seq<char>)
    requires
        state_wf(st),
    ensures
        match rz_get(st.metrics.route_zone@, route, zone) {
            Some(m) => forall|i: int, j: int|
                0 <= i <= j < 7 ==> m.latency_buckets@[i] <= m.latency_buckets@[j],
            None => true,
        },
{
}

/// The sampling modulus for a rate in thousandths: the nearest integer to
/// `1000 / rate`, never less than one.
pub open spec fn spec_sample_modulus(rate: int) -> int {
    let n = (2000 + rate) / (2 * rate);
    if n < 1 {
        1
    } else {
        n
    }
}

/// Decides whether this decision is logged.  A rate of zero logs nothing,
/// a rate of one (1000 thousandths) or more logs everything; in between,
/// every Nth decision is logged, counted by the decision counter.
pub fn should_log_decision(st: &mut RuntimeState, sample_rate: u64) -> (r: bool)
    requires
        state_wf(*old(st)),
    ensures
        state_wf(*final(st)),
        sample_rate == 0 ==> r == false && *final(st) == *old(st),
        sample_rate >= 1000 ==> r == true && *final(st) == *old(st),
        0 < sample_rate < 1000 ==> {
            &&& final(st).decision_counter == sat_u64(old(st).decision_counter + 1)
            &&& r == (final(st).decision_counter as int % spec_sample_modulus(sample_rate as int)
                == 0)
        },
        final(st).metrics == old(st).metrics,
        final(st).zone_stats == old(st).zone_stats,
        final(st).zone_in_flight == old(st).zone_in_flight,
        final(st).carbon_cache == old(st).carbon_cache,
        final(st).refresh_in_flight == old(st).refresh_in_flight,
        final(st).last_decision_by_route == old(st).last_decision_by_route,
{
    if sample_rate == 0 {
        return false;
    }
    if sample_rate >= 1000 {
        return true;
    }
    st.decision_counter = st.decision_counter.saturating_add(1);
    let n: u64 = (2000 + sample_rate) / (2 * sample_rate);
    let n: u64 = if n < 1 {
        1
    } else {
        n
    };
    st.decision_counter % n == 0
}

/// The last decision recorded for `route`, if any.
pub fn last_decision_for<'a>(st: &'a RuntimeState, route: &str) -> (r: Option<&'a LastDecision>)
    ensures
        match r {
            Some(l) => tbl_get(st.last_decision_by_route@, route@) == Some(*l),
            None => tbl_get(st.last_decision_by_route@, route@) is None,
        },
{
    match table_index(&st.last_decision_by_route, route) {
        Some(i) => Some(&st.last_decision_by_route[i].1),
        None => None,
    }
}

/// Records the decision emitted for `route`.
pub fn set_last_decision(st: &mut RuntimeState, route: &str, zone: &str, score: u64, at: u64)
    requires
        state_wf(*old(st)),
    ensures
        state_wf(*final(st)),
        match tbl_get(final(st).last_decision_by_route@, route@) {
            Some(l) => l.zone@ == zone@ && l.score == score && l.at == at,
            None => false,
        },
        forall|k2: Seq<char>|
            k2 != route@ ==> tbl_get(final(st).last_decision_by_route@, k2) == tbl_get(
                old(st).last_decision_by_route@,
                k2,
            ),
        final(st).metrics == old(st).metrics,
        final(st).zone_stats == old(st).zone_stats,
        final(st).zone_in_flight == old(st).zone_in_flight,
        final(st).carbon_cache == old(st).carbon_cache,
        final(st).refresh_in_flight == old(st).refresh_in_flight,
        final(st).decision_counter == old(st).decision_counter,
{
    let z: String = zone.to_owned();
    table_set(&mut st.last_decision_by_route, route, LastDecision { zone: z, score, at });
}

} // verus!
