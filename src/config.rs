use vstd::prelude::*;

verus! {

/// Settings of the query service; each has a default.
pub struct Config {
    pub actix_client_shutdown_ms: u64,
    pub actix_client_timeout_ms: u64,
    pub actix_shutdown_timeout_s: u64,
    pub actix_keepalive_seconds: u64,
    pub actix_num_workers: usize,
    pub web_app_server: String,
    /// How many matched members one query resolves at most.
    pub max_matches: usize,
}

pub fn actix_client_shutdown_ms() -> (r: u64)
    ensures
        r == 5000,
{
    5000
}

pub fn actix_client_timeout_ms() -> (r: u64)
    ensures
        r == 5000,
{
    5000
}

pub fn actix_shutdown_timeout_s() -> (r: u64)
    ensures
        r == 30,
{
    30
}

pub fn actix_keepalive_seconds() -> (r: u64)
    ensures
        r == 5,
{
    5
}

pub fn actix_num_workers() -> (r: usize)
    ensures
        r == 4,
{
    4
}

pub fn web_app_server() -> (r: String)
    ensures
        r@ == "127.0.0.1:8080"@,
{
    "127.0.0.1:8080".to_owned()
}

pub fn max_matches() -> (r: usize)
    ensures
        r == 1000,
{
    1000
}

impl Config {
    /// The configuration with every setting at its default.
    pub fn defaults() -> (r: Self)
        ensures
            r.actix_client_shutdown_ms == 5000,
            r.actix_client_timeout_ms == 5000,
            r.actix_shutdown_timeout_s == 30,
            r.actix_keepalive_seconds == 5,
            r.actix_num_workers == 4,
            r.web_app_server@ == "127.0.0.1:8080"@,
            r.max_matches == 1000,
    {
        Config {
            actix_client_shutdown_ms: actix_client_shutdown_ms(),
            actix_client_timeout_ms: actix_client_timeout_ms(),
            actix_shutdown_timeout_s: actix_shutdown_timeout_s(),
            actix_keepalive_seconds: actix_keepalive_seconds(),
            actix_num_workers: actix_num_workers(),
            web_app_server: web_app_server(),
            max_matches: max_matches(),
        }
    }
}

/// Settings of the ingestion worker.
pub struct WorkerConfig {
    pub async_worker_interval_sec: u32,
    /// The time to live of detail records, in seconds.
    pub redis_expiration_key_time_limit_sec: u32,
}

pub fn async_worker_interval_sec() -> (r: u32)
    ensures
        r == 300,
{
    300
}

pub fn redis_expiration_key_time_limit_sec() -> (r: u32)
    ensures
        r == 3600,
{
    3600
}

impl WorkerConfig {
    /// The configuration with every setting at its default.
    pub fn defaults() -> (r: Self)
        ensures
            r.async_worker_interval_sec == 300,
            r.redis_expiration_key_time_limit_sec == 3600,
    {
        WorkerConfig {
            async_worker_interval_sec: async_worker_interval_sec(),
            redis_expiration_key_time_limit_sec: redis_expiration_key_time_limit_sec(),
        }
    }
}

} // verus!
