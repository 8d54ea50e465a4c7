use std::collections::HashSet;
use std::time::Duration;
use vstd::prelude::*;
use vstd::string::StringExecFns;

use crate::utils::{duration_from_secs, duration_nanos};

verus! {

#[verifier::external_type_specification]
#[verifier::external_body]
pub struct ExQuota(governor::Quota);

#[verifier::external_type_specification]
#[verifier::external_body]
pub struct ExLevelFilter(tui_logger::LevelFilter);

/// `LevelFilter::Info` (the log crate's, as tui_logger re-exports it). Nothing is stated of
/// the value: the level type is opaque here, and only the log widget reads it.
#[verifier::external_body]
fn level_filter_info() -> tui_logger::LevelFilter {
    tui_logger::LevelFilter::Info
}

/// The settings of the engine.
pub struct EngineConfig {
    pub downloader_request_timeout: Duration,
    pub downloader_connection_timeout: Duration,
    pub downloader_delay: Duration,
    pub downloader_request_quota: Option<governor::Quota>,
    pub store_cookies: bool,
    pub user_agent: Option<String>,
    /// Status codes of the 4xx and 5xx classes whose responses are kept anyway.
    pub http_error_allow_codes: HashSet<u16>,
    pub concurrent_limit: usize,
    pub pipeline_worker_threads: usize,
    pub spider_manager_worker_threads: usize,
    pub tui_stats_interval: Duration,
    /// Shutdown when: no active requests AND scheduler is empty AND idle timeout
    pub idle_timeout: Duration,
    pub tui_logger_level: tui_logger::LevelFilter,
    pub show_tui: bool,
}

impl Default for EngineConfig {
    /// Three-second request and connection timeouts, no delay and no quota, cookies kept,
    /// the user agent "IronSpider/0.0.1", no allowed error codes, 32 concurrent requests,
    /// four pipeline and four spider workers, a one-second stats interval and idle timeout,
    /// no TUI.
    fn default() -> (c: Self)
        ensures
            duration_nanos(c.downloader_request_timeout) == 3_000_000_000,
            duration_nanos(c.downloader_connection_timeout) == 3_000_000_000,
            duration_nanos(c.downloader_delay) == 0,
            c.downloader_request_quota is None,
            c.store_cookies,
            c.user_agent matches Some(ua) && ua@ == "IronSpider/0.0.1"@,
            c.http_error_allow_codes@ == Set::<u16>::empty(),
            c.concurrent_limit == 32,
            c.pipeline_worker_threads == 4,
            c.spider_manager_worker_threads == 4,
            duration_nanos(c.tui_stats_interval) == 1_000_000_000,
            duration_nanos(c.idle_timeout) == 1_000_000_000,
            !c.show_tui,
    {
        EngineConfig {
            downloader_request_timeout: duration_from_secs(3),
            downloader_connection_timeout: duration_from_secs(3),
            downloader_delay: duration_from_secs(0),
            downloader_request_quota: None,
            user_agent: Some(String::from_str("IronSpider/0.0.1")),
            http_error_allow_codes: HashSet::new(),
            concurrent_limit: 32,
            pipeline_worker_threads: 4,
            tui_stats_interval: duration_from_secs(1),
            idle_timeout: duration_from_secs(1),
            tui_logger_level: level_filter_info(),
            show_tui: false,
            spider_manager_worker_threads: 4,
            store_cookies: true,
        }
    }
}

} // verus!
