//! Operator's toolbox for a backend service.
//!
//! The heart of the crate is a scenario-based integration-test harness: an
//! orchestrator that drives an ordered list of remote procedure calls against
//! a service, threads fixture state between steps, validates response
//! invariants that depend on who made each call, and aggregates structured
//! pass/fail reports.  Around it stand the smaller operator commands: pruning
//! an old message store, collecting host metrics, and extracting metrics
//! embedded in log lines into a local database.
use vstd::prelude::*;

pub mod clock;
pub mod db;
pub mod fixtures;
pub mod metrics;
pub mod model_run;
pub mod mqtt_store;
pub mod report;
pub mod rpc;
pub mod runner;
pub mod scenarios;
pub mod service_model;
pub mod steps;
pub mod strings;
pub mod webserver_logs;

verus! {

/// Options for the integration-test command: where the service listens and
/// the credentials the transport presents.
pub struct IntegrationTestsOpts {
    pub url: String,
    pub key_name: String,
    pub key_value: String,
}

impl IntegrationTestsOpts {
    pub fn new(url: String, key_name: String, key_value: String) -> (r: IntegrationTestsOpts)
        ensures
            r.url@ == url@,
            r.key_name@ == key_name@,
            r.key_value@ == key_value@,
    {
        IntegrationTestsOpts { url, key_name, key_value }
    }
}

/// Options for pruning the message store: the database file, the age bound in
/// days, and whether to vacuum afterwards.
pub struct CleanMqttStoreDbOpts {
    pub db_path: String,
    pub days: u8,
    pub vacuum: bool,
}

impl CleanMqttStoreDbOpts {
    pub fn new(db_path: String, days: u8, vacuum: bool) -> (r: CleanMqttStoreDbOpts)
        ensures
            r.db_path@ == db_path@,
            r.days == days,
            r.vacuum == vacuum,
    {
        CleanMqttStoreDbOpts { db_path, days, vacuum }
    }
}

/// Options for the host-metrics collector: the sampling period and the
/// coordinates of the time-series sink.
pub struct CollectMetricsOpts {
    pub sleep_ms: u64,
    pub influx_url: String,
    pub influx_key: String,
    pub influx_org: String,
}

impl CollectMetricsOpts {
    pub fn new(sleep_ms: u64, influx_url: String, influx_key: String, influx_org: String) -> (r:
        CollectMetricsOpts)
        ensures
            r.sleep_ms == sleep_ms,
            r.influx_url@ == influx_url@,
            r.influx_key@ == influx_key@,
            r.influx_org@ == influx_org@,
    {
        CollectMetricsOpts { sleep_ms, influx_url, influx_key, influx_org }
    }
}

/// Options for the log-metric extractor: the database the rows land in.
pub struct ParseWebserverLogsOpts {
    pub db_path: String,
}

impl ParseWebserverLogsOpts {
    pub fn new(db_path: String) -> (r: ParseWebserverLogsOpts)
        ensures
            r.db_path@ == db_path@,
    {
        ParseWebserverLogsOpts { db_path }
    }
}

} // verus!
