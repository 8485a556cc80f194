//! The carbon-signal cache: per-zone cached intensity with a TTL, a
//! configuration-derived fallback on miss, and a single-flight refresh
//! discipline.  The decision path never blocks on the provider: on a miss
//! it reports that a refresh should be started, and the surrounding
//! process performs the provider call and hands the outcome back to
//! `finish_refresh`.

use vstd::prelude::*;
use crate::config::CarbonProviderConfig;
use crate::state::{sat_u64, state_wf, CachedCarbon, RuntimeState};
use crate::table::{tbl_get, table_get_copy, table_set};

verus! {

/// A carbon signal: current intensity and next-interval forecast, both in
/// thousandths of a gram per kWh, either possibly unknown.
#[derive(Clone, Copy)]
pub struct CarbonSignal {
    pub current: Option<u64>,
    pub forecast_next: Option<u64>,
}

/// The static current intensity a zone falls back to: the configured
/// per-zone value, else the configured default.  Never absent.
pub open spec fn spec_static_current(cfg: CarbonProviderConfig, zone: Seq<char>) -> Option<u64> {
    match tbl_get(cfg.zone_current@, zone) {
        Some(v) => Some(v),
        None => Some(cfg.default_carbon_intensity),
    }
}

/// The static forecast of a zone, when configured.
pub open spec fn spec_static_forecast(cfg: CarbonProviderConfig, zone: Seq<char>) -> Option<u64> {
    tbl_get(cfg.zone_forecast_next@, zone)
}

/// Whether the cache holds an unexpired entry for `zone` at `now`.
pub open spec fn spec_cache_fresh(st: RuntimeState, zone: Seq<char>, now: int) -> bool {
    match tbl_get(st.carbon_cache@, zone) {
        Some(e) => now <= e.expires_at,
        None => false,
    }
}

/// The signal held by the cache entry of `zone`.
pub open spec fn spec_cached_signal(st: RuntimeState, zone: Seq<char>) -> CarbonSignal {
    match tbl_get(st.carbon_cache@, zone) {
        Some(e) => CarbonSignal { current: e.current, forecast_next: e.forecast_next },
        None => CarbonSignal { current: None, forecast_next: None },
    }
}

/// Whether a provider refresh is outstanding for `zone`.
pub open spec fn spec_refresh_outstanding(s: Seq<(String, bool)>, zone: Seq<char>) -> bool {
    tbl_get(s, zone) == Some(true)
}

/// The cache TTL in seconds: the configured minutes, canonicalised to
/// seconds, clamped to the machine limit.
pub fn cache_ttl_secs(cfg: &CarbonProviderConfig) -> (r: u64)
    ensures
        r == sat_u64(cfg.cache_ttl_minutes * 60),
{
    if cfg.cache_ttl_minutes > u64::MAX / 60 {
        u64::MAX
    } else {
        cfg.cache_ttl_minutes * 60
    }
}

/// The signal the configuration alone gives a zone, used as the cache
/// fallback and as the basis of the provider hook.
pub fn provider_static_signal(cfg: &CarbonProviderConfig, zone: &str) -> (r: CarbonSignal)
    ensures
        r.current == spec_static_current(*cfg, zone@),
        r.forecast_next == spec_static_forecast(*cfg, zone@),
{
    let current: u64 = match table_get_copy(&cfg.zone_current, zone) {
        Some(v) => v,
        None => cfg.default_carbon_intensity,
    };
    let forecast_next = table_get_copy(&cfg.zone_forecast_next, zone);
    CarbonSignal { current: Some(current), forecast_next }
}

/// Reads the carbon signal of `zone` without ever blocking.  On an
/// unexpired cache entry the entry is returned and nothing changes.  On a
/// miss or an expired entry the configuration fallback is returned, and
/// the second component says whether the caller must start a provider
/// refresh: true only when no refresh was outstanding for the zone, which
/// this call then marks outstanding (single-flight).
pub fn get_signal_nonblocking(zone: &str, cfg: &CarbonProviderConfig, st: &mut RuntimeState, now: u64) -> (r:
    (CarbonSignal, bool))
    requires
        state_wf(*old(st)),
    ensures
        state_wf(*final(st)),
        spec_cache_fresh(*old(st), zone@, now as int) ==> r.0 == spec_cached_signal(
            *old(st),
            zone@,
        ) && r.1 == false && *final(st) == *old(st),
        !spec_cache_fresh(*old(st), zone@, now as int) ==> {
            &&& r.0.current == spec_static_current(*cfg, zone@)
            &&& r.0.forecast_next == spec_static_forecast(*cfg, zone@)
            &&& r.1 == !spec_refresh_outstanding(old(st).refresh_in_flight@, zone@)
            &&& spec_refresh_outstanding(final(st).refresh_in_flight@, zone@)
            &&& forall|k2: Seq<char>|
                k2 != zone@ ==> tbl_get(final(st).refresh_in_flight@, k2) == tbl_get(
                    old(st).refresh_in_flight@,
                    k2,
                )
            &&& final(st).carbon_cache == old(st).carbon_cache
            &&& final(st).metrics == old(st).metrics
            &&& final(st).zone_stats == old(st).zone_stats
            &&& final(st).zone_in_flight == old(st).zone_in_flight
            &&& final(st).last_decision_by_route == old(st).last_decision_by_route
            &&& final(st).decision_counter == old(st).decision_counter
        },
        spec_refresh_outstanding(old(st).refresh_in_flight@, zone@) ==> r.1 == false,
{
    match table_get_copy(&st.carbon_cache, zone) {
        Some(e) if now <= e.expires_at => {
            (CarbonSignal { current: e.current, forecast_next: e.forecast_next }, false)
        },
        _ => {
            let already: bool = match table_get_copy(&st.refresh_in_flight, zone) {
                Some(b) => b,
                None => false,
            };
            if !already {
                table_set(&mut st.refresh_in_flight, zone, true);
            }
            let signal = provider_static_signal(cfg, zone);
            (signal, !already)
        },
    }
}

/// Settles an outstanding refresh of `zone`.  A successful provider
/// outcome replaces the cache entry with one expiring `cache_ttl_secs`
/// after `now`; a timeout or error leaves the cache as it was.  Either
/// way the zone's refresh is no longer outstanding.
pub fn finish_refresh(
    st: &mut RuntimeState,
    zone: &str,
    outcome: Option<CarbonSignal>,
    now: u64,
    ttl_secs: u64,
)
    requires
        state_wf(*old(st)),
    ensures
        state_wf(*final(st)),
        !spec_refresh_outstanding(final(st).refresh_in_flight@, zone@),
        forall|k2: Seq<char>|
            k2 != zone@ ==> tbl_get(final(st).refresh_in_flight@, k2) == tbl_get(
                old(st).refresh_in_flight@,
                k2,
            ),
        match outcome {
            Some(sig) => tbl_get(final(st).carbon_cache@, zone@) == Some(
                CachedCarbon {
                    current: sig.current,
                    forecast_next: sig.forecast_next,
                    expires_at: sat_u64(now + ttl_secs) as u64,
                },
            ) && forall|k2: Seq<char>|
                k2 != zone@ ==> tbl_get(final(st).carbon_cache@, k2) == tbl_get(
                    old(st).carbon_cache@,
                    k2,
                ),
            None => final(st).carbon_cache == old(st).carbon_cache,
        },
        final(st).metrics == old(st).metrics,
        final(st).zone_stats == old(st).zone_stats,
        final(st).zone_in_flight == old(st).zone_in_flight,
        final(st).last_decision_by_route == old(st).last_decision_by_route,
        final(st).decision_counter == old(st).decision_counter,
{
    table_set(&mut st.refresh_in_flight, zone, false);
    match outcome {
        Some(sig) => {
            let entry = CachedCarbon {
                current: sig.current,
                forecast_next: sig.forecast_next,
                expires_at: now.saturating_add(ttl_secs),
            };
            table_set(&mut st.carbon_cache, zone, entry);
        },
        None => {},
    }
}

/// One step of the refresh discipline of a single zone, as the state
/// machine the flag realises: a begin starts a refresh only when none is
/// outstanding, a finish settles the outstanding one.
pub enum RefreshStep {
    Begin,
    Finish,
}

/// The number of outstanding refreshes after a history of steps, starting
/// from none.
pub open spec fn outstanding_after(ops: Seq<RefreshStep>) -> int
    decreases ops.len(),
{
    if ops.len() == 0 {
        0
    } else {
        let before = outstanding_after(ops.drop_last());
        match ops.last() {
            RefreshStep::Begin => if before == 0 {
                1
            } else {
                before
            },
            RefreshStep::Finish => 0,
        }
    }
}

/// Single-flight refresh: under the discipline that a begin starts a
/// provider call only when no refresh is outstanding for the zone, the
/// number of outstanding provider refreshes of that zone never exceeds
/// one, whatever the history of begins and finishes.
pub proof fn lemma_single_flight(ops: Seq<RefreshStep>)
    ensures
        0 <= outstanding_after(ops) <= 1,
    decreases ops.len(),
{
    if ops.len() > 0 {
        lemma_single_flight(ops.drop_last());
    }
}

} // verus!
