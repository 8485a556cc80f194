//! Carbon-aware routing engine for the rilot reverse proxy.
//!
//! The crate holds the decision logic of the proxy: route classification,
//! zone resolution and preselection, the carbon-signal cache with
//! single-flight refresh, multi-factor scoring with hysteresis, in-flight
//! and error bookkeeping, and the rendering of metrics, rollup and decision
//! log lines.  The surrounding process (HTTP transports, timers, the plugin
//! sandbox, configuration files) hands the engine plain values and performs
//! the actions it decides on.
//!
//! Real-valued quantities (weights, carbon intensity in g/kWh, latency in
//! ms, error rates, scores) are carried as unsigned integers counting
//! thousandths of the named unit, so every computation here is exact integer
//! arithmetic.  Energy is counted in microjoules and CO2e in nanograms.

pub mod carbon;

pub mod classify;

pub mod config;

pub mod metrics;

pub mod pipeline;

pub mod score;

pub mod state;

pub mod table;

pub mod text;

pub mod zones;
