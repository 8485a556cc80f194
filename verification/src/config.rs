//! Typed configuration of the proxy.  Built once at startup and never
//! mutated afterwards.
//!
//! Real-valued settings are carried as unsigned integers counting
//! thousandths of the unit named by the field: weights and rates in
//! thousandths of one, round-trip times and latency bounds in thousandths
//! of a millisecond, carbon intensities in thousandths of a gram per kWh.

use vstd::prelude::*;

verus! {

/// A request-matching rule: `exact` matches the path verbatim, any other
/// rule type matches every path that begins with `path`.
#[derive(Clone)]
pub struct ProxyRule {
    pub path: String,
    pub rule_type: String,
}

/// One configured upstream zone of a route.
#[derive(Clone)]
pub struct ZoneConfig {
    pub name: String,
    pub app_uri: String,
    pub region: Option<String>,
    /// Thousandths of a millisecond.
    pub base_rtt_ms: Option<u32>,
    /// Thousandths of the dimensionless cost weight.
    pub cost_weight: Option<u64>,
    pub max_in_flight: Option<usize>,
    pub tags: Vec<String>,
}

/// The four scoring weights, each in thousandths.  They need not sum to
/// one; scoring normalises each dimension separately.
#[derive(Clone, Copy)]
pub struct PolicyWeights {
    pub w_carbon: u32,
    pub w_latency: u32,
    pub w_errors: u32,
    pub w_cost: u32,
}

/// Candidate-set constraints.  Latency bounds are in thousandths of a
/// millisecond, the error-rate bound in thousandths of one.
#[derive(Clone)]
pub struct PolicyConstraints {
    pub max_candidates: usize,
    pub zone_allowlist: Vec<String>,
    pub max_added_latency_ms: Option<u64>,
    pub p95_latency_budget_ms: Option<u64>,
    pub max_error_rate: Option<u64>,
}

/// Route-wide policy toggles and tunables.
#[derive(Clone)]
pub struct RoutePolicy {
    pub carbon_cursor_enabled: bool,
    pub route_class: String,
    pub priority_mode: String,
    pub constraints: PolicyConstraints,
    pub weights: PolicyWeights,
    pub forecasting_enabled: bool,
    pub time_shift_enabled: bool,
    pub forecast_window_minutes: u32,
    /// Thousandths of one; a fraction in `[0, 1]`.
    pub forecast_min_improvement_ratio: u64,
    pub max_defer_seconds: u64,
    pub fail_safe_lowest_latency: bool,
    /// Thousandths of a score unit.
    pub hysteresis_delta: u64,
    pub min_switch_interval_secs: u64,
    pub plugin_enabled: bool,
    pub plugin_timeout_ms: u64,
}

/// Carbon-signal provider settings.  The cache TTL is configured in
/// minutes and enforced in seconds (`cache_ttl_minutes * 60`).
#[derive(Clone)]
pub struct CarbonProviderConfig {
    pub provider: String,
    pub cache_ttl_minutes: u64,
    /// Thousandths of a gram per kWh.
    pub default_carbon_intensity: u64,
    /// Thousandths of a gram per kWh.
    pub carbon_safe_threshold_g_per_kwh: u64,
    /// Static per-zone current intensity, thousandths of a gram per kWh.
    pub zone_current: Vec<(String, u64)>,
    /// Static per-zone next-interval forecast, thousandths of a gram per kWh.
    pub zone_forecast_next: Vec<(String, u64)>,
    pub provider_timeout_ms: u64,
    pub electricitymap_base_url: String,
    pub electricitymap_api_key: Option<String>,
    pub electricitymap_api_token_header: String,
    pub electricitymap_zone_map: Vec<(String, String)>,
    pub electricitymap_disable_estimations: bool,
    pub electricitymap_local_fixture: Option<String>,
    pub electricitymap_local_live_reload: bool,
}

/// Metrics exposition and decision-log settings.  The sample rate is in
/// thousandths of one.
#[derive(Clone)]
pub struct MetricsConfig {
    pub enabled: bool,
    pub path: String,
    pub decision_log_sample_rate: u64,
    pub rollup_interval_secs: u64,
}

/// One proxied route: its matching rule, upstream zones and policy.
#[derive(Clone)]
pub struct ProxyConfig {
    pub app_name: String,
    pub app_uri: String,
    pub zones: Vec<ZoneConfig>,
    pub override_file: Option<String>,
    pub rule: ProxyRule,
    pub rewrite: String,
    pub policy: RoutePolicy,
}

/// The whole configuration: the routes, the carbon provider and metrics.
#[derive(Clone)]
pub struct Config {
    pub proxies: Vec<ProxyConfig>,
    pub carbon: CarbonProviderConfig,
    pub metrics: MetricsConfig,
}

pub fn default_rule_type() -> (r: String)
    ensures
        r@ == "contain"@,
{
    let r: String = "contain".to_owned();
    r
}

pub fn default_rewrite_mode() -> (r: String)
    ensures
        r@ == "none"@,
{
    let r: String = "none".to_owned();
    r
}

pub fn default_false() -> (r: bool)
    ensures
        r == false,
{
    false
}

pub fn default_true() -> (r: bool)
    ensures
        r == true,
{
    true
}

pub fn default_route_class() -> (r: String)
    ensures
        r@ == "flexible"@,
{
    let r: String = "flexible".to_owned();
    r
}

pub fn default_priority_mode() -> (r: String)
    ensures
        r@ == "balanced"@,
{
    let r: String = "balanced".to_owned();
    r
}

/// Half, in thousandths.
pub fn default_w_carbon() -> (r: u32)
    ensures
        r == 500,
{
    500
}

/// 0.35, in thousandths.
pub fn default_w_latency() -> (r: u32)
    ensures
        r == 350,
{
    350
}

/// 0.15, in thousandths.
pub fn default_w_errors() -> (r: u32)
    ensures
        r == 150,
{
    150
}

pub fn default_forecast_minutes() -> (r: u32)
    ensures
        r == 30,
{
    30
}

/// One tenth, in thousandths.
pub fn default_forecast_threshold() -> (r: u64)
    ensures
        r == 100,
{
    100
}

pub fn default_defer_seconds() -> (r: u64)
    ensures
        r == 0,
{
    0
}

/// 0.05 score units, in thousandths.
pub fn default_hysteresis_delta() -> (r: u64)
    ensures
        r == 50,
{
    50
}

pub fn default_min_switch_interval_secs() -> (r: u64)
    ensures
        r == 30,
{
    30
}

pub fn default_carbon_provider() -> (r: String)
    ensures
        r@ == "mock"@,
{
    let r: String = "mock".to_owned();
    r
}

pub fn default_cache_ttl_minutes() -> (r: u64)
    ensures
        r == 1,
{
    1
}

/// 450 g/kWh, in thousandths of a gram per kWh.
pub fn default_default_carbon_intensity() -> (r: u64)
    ensures
        r == 450000,
{
    450000
}

/// 300 g/kWh, in thousandths of a gram per kWh.
pub fn default_carbon_safe_threshold_g_per_kwh() -> (r: u64)
    ensures
        r == 300000,
{
    300000
}

pub fn default_metrics_path() -> (r: String)
    ensures
        r@ == "/metrics"@,
{
    let r: String = "/metrics".to_owned();
    r
}

pub fn default_plugin_timeout_ms() -> (r: u64)
    ensures
        r == 25,
{
    25
}

pub fn default_provider_timeout_ms() -> (r: u64)
    ensures
        r == 75,
{
    75
}

/// One percent, in thousandths.
pub fn default_decision_log_sample_rate() -> (r: u64)
    ensures
        r == 10,
{
    10
}

pub fn default_rollup_interval_secs() -> (r: u64)
    ensures
        r == 60,
{
    60
}

pub fn default_max_candidates() -> (r: usize)
    ensures
        r == 8,
{
    8
}

pub fn default_electricitymap_base_url() -> (r: String)
    ensures
        r@ == "https://api.electricitymap.org"@,
{
    let r: String = "https://api.electricitymap.org".to_owned();
    r
}

pub fn default_electricitymap_api_token_header() -> (r: String)
    ensures
        r@ == "auth-token"@,
{
    let r: String = "auth-token".to_owned();
    r
}

impl Default for PolicyWeights {
    /// The balanced weight set: carbon 0.5, latency 0.35, errors 0.15,
    /// cost 0, in thousandths.
    fn default() -> (r: Self)
        ensures
            r.w_carbon == 500 && r.w_latency == 350 && r.w_errors == 150 && r.w_cost == 0,
    {
        PolicyWeights { w_carbon: default_w_carbon(), w_latency: default_w_latency(), w_errors: default_w_errors(), w_cost: 0 }
    }
}

impl Default for PolicyConstraints {
    fn default() -> (r: Self)
        ensures
            r.max_candidates == 8,
            r.zone_allowlist@.len() == 0,
            r.max_added_latency_ms is None,
            r.p95_latency_budget_ms is None,
            r.max_error_rate is None,
    {
        PolicyConstraints {
            max_candidates: default_max_candidates(),
            zone_allowlist: Vec::new(),
            max_added_latency_ms: None,
            p95_latency_budget_ms: None,
            max_error_rate: None,
        }
    }
}

impl Default for RoutePolicy {
    fn default() -> (r: Self)
        ensures
            r.carbon_cursor_enabled == false,
            r.route_class@ == "flexible"@,
            r.priority_mode@ == "balanced"@,
            r.constraints.max_candidates == 8,
            r.constraints.zone_allowlist@.len() == 0,
            r.constraints.max_added_latency_ms is None,
            r.constraints.p95_latency_budget_ms is None,
            r.constraints.max_error_rate is None,
            r.weights.w_carbon == 500 && r.weights.w_latency == 350 && r.weights.w_errors == 150
                && r.weights.w_cost == 0,
            r.forecasting_enabled == false,
            r.time_shift_enabled == false,
            r.forecast_window_minutes == 30,
            r.forecast_min_improvement_ratio == 100,
            r.max_defer_seconds == 0,
            r.fail_safe_lowest_latency == true,
            r.hysteresis_delta == 50,
            r.min_switch_interval_secs == 30,
            r.plugin_enabled == true,
            r.plugin_timeout_ms == 25,
    {
        RoutePolicy {
            carbon_cursor_enabled: default_false(),
            route_class: default_route_class(),
            priority_mode: default_priority_mode(),
            constraints: PolicyConstraints::default(),
            weights: PolicyWeights::default(),
            forecasting_enabled: default_false(),
            time_shift_enabled: default_false(),
            forecast_window_minutes: default_forecast_minutes(),
            forecast_min_improvement_ratio: default_forecast_threshold(),
            max_defer_seconds: default_defer_seconds(),
            fail_safe_lowest_latency: default_true(),
            hysteresis_delta: default_hysteresis_delta(),
            min_switch_interval_secs: default_min_switch_interval_secs(),
            plugin_enabled: default_true(),
            plugin_timeout_ms: default_plugin_timeout_ms(),
        }
    }
}

impl Default for CarbonProviderConfig {
    fn default() -> (r: Self)
        ensures
            r.provider@ == "mock"@,
            r.cache_ttl_minutes == 1,
            r.default_carbon_intensity == 450000,
            r.carbon_safe_threshold_g_per_kwh == 300000,
            r.zone_current@.len() == 0,
            r.zone_forecast_next@.len() == 0,
            r.provider_timeout_ms == 75,
            r.electricitymap_base_url@ == "https://api.electricitymap.org"@,
            r.electricitymap_api_key is None,
            r.electricitymap_api_token_header@ == "auth-token"@,
            r.electricitymap_zone_map@.len() == 0,
            r.electricitymap_disable_estimations == false,
            r.electricitymap_local_fixture is None,
            r.electricitymap_local_live_reload == false,
    {
        CarbonProviderConfig {
            provider: default_carbon_provider(),
            cache_ttl_minutes: default_cache_ttl_minutes(),
            default_carbon_intensity: default_default_carbon_intensity(),
            carbon_safe_threshold_g_per_kwh: default_carbon_safe_threshold_g_per_kwh(),
            zone_current: Vec::new(),
            zone_forecast_next: Vec::new(),
            provider_timeout_ms: default_provider_timeout_ms(),
            electricitymap_base_url: default_electricitymap_base_url(),
            electricitymap_api_key: None,
            electricitymap_api_token_header: default_electricitymap_api_token_header(),
            electricitymap_zone_map: Vec::new(),
            electricitymap_disable_estimations: false,
            electricitymap_local_fixture: None,
            electricitymap_local_live_reload: default_false(),
        }
    }
}

impl Default for MetricsConfig {
    fn default() -> (r: Self)
        ensures
            r.enabled == true,
            r.path@ == "/metrics"@,
            r.decision_log_sample_rate == 10,
            r.rollup_interval_secs == 60,
    {
        MetricsConfig {
            enabled: default_true(),
            path: default_metrics_path(),
            decision_log_sample_rate: default_decision_log_sample_rate(),
            rollup_interval_secs: default_rollup_interval_secs(),
        }
    }
}

} // verus!
