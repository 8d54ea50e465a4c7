use iron_spider::config::EngineConfig;
use iron_spider::downloader::downloader::{exception_kind, Downloader, WAITING_FACTOR};
use iron_spider::downloader::stat::StatsTracker;
use iron_spider::monitor::monitor::{monitor_step, MonitorAction};
use std::time::Duration;

#[test]
fn default_config() {
    let c = EngineConfig::default();
    assert_eq!(c.downloader_request_timeout, Duration::from_secs(3));
    assert_eq!(c.downloader_connection_timeout, Duration::from_secs(3));
    assert_eq!(c.downloader_delay, Duration::ZERO);
    assert!(c.downloader_request_quota.is_none());
    assert!(c.store_cookies);
    assert_eq!(c.user_agent.as_deref(), Some("IronSpider/0.0.1"));
    assert!(c.http_error_allow_codes.is_empty());
    assert_eq!(c.concurrent_limit, 32);
    assert_eq!(c.pipeline_worker_threads, 4);
    assert_eq!(c.spider_manager_worker_threads, 4);
    assert_eq!(c.tui_stats_interval, Duration::from_secs(1));
    assert_eq!(c.idle_timeout, Duration::from_secs(1));
    assert_eq!(c.tui_logger_level, tui_logger::LevelFilter::Info);
    assert!(!c.show_tui);
}

#[test]
fn stats_tracker_tracks_peak_and_times() {
    let mut t = StatsTracker::new();
    assert!(t.is_idle());
    let s = t.get_stats();
    assert_eq!((s.min_response_time_ms, s.max_response_time_ms), (0, 0));
    t.inc_waiting();
    t.inc_waiting();
    t.dec_waiting_inc_active();
    t.inc_requests(100);
    assert!(!t.is_idle());
    t.inc_response(200, 10, 30);
    t.inc_response(404, 5, 10);
    t.inc_response(200, 1, 50);
    t.dec_active();
    t.inc_exception("timeout");
    t.inc_exception("timeout");
    t.inc_rate_limited();
    t.add_request_bytes(5);
    let s = t.get_stats();
    assert_eq!(s.peak_concurrent_requests, 2);
    assert_eq!(s.waiting_requests, 1);
    assert_eq!(s.active_requests, 0);
    assert_eq!(s.total_requests, 1);
    assert_eq!(s.total_request_bytes, 105);
    assert_eq!(s.total_responses, 3);
    assert_eq!(s.total_response_bytes, 16);
    assert_eq!(s.total_response_time_ms, 90);
    assert_eq!((s.min_response_time_ms, s.max_response_time_ms), (10, 50));
    assert_eq!(s.total_exceptions, 2);
    assert_eq!(s.rate_limited_count, 1);
    let mut codes: Vec<(u16, u64)> = s.status_counts.iter().map(|(k, v)| (*k, *v)).collect();
    codes.sort();
    assert_eq!(codes, vec![(200, 2), (404, 1)]);
    assert_eq!(s.exception_counts, vec![(String::from("timeout"), 2)]);
    assert_eq!(t.get_status_count(200), 2);
    assert_eq!(t.get_status_count(500), 0);
    assert_eq!(t.get_exception_count("timeout"), 2);
    assert_eq!(t.get_exception_count("body"), 0);
    let mut all = t.get_all_status_codes();
    all.sort();
    assert_eq!(all, vec![200, 404]);
    assert_eq!(t.get_all_exception_types(), vec![String::from("timeout")]);
    assert_eq!(t.get_waiting(), 1);
}

#[test]
fn exception_kinds_in_order() {
    assert_eq!(exception_kind(true, true, true, true), "timeout");
    assert_eq!(exception_kind(false, true, true, true), "connect");
    assert_eq!(exception_kind(false, false, true, true), "request");
    assert_eq!(exception_kind(false, false, false, true), "body");
    assert_eq!(exception_kind(false, false, false, false), "unkown");
}

#[test]
fn downloader_decisions() {
    let mut config = EngineConfig::default();
    config.concurrent_limit = 1;
    config.http_error_allow_codes.insert(404);
    let mut d = Downloader::new(&config).unwrap();
    assert!(d.is_idle());
    assert!(d.is_status_accepted(200));
    assert!(d.is_status_accepted(302));
    assert!(d.is_status_accepted(404));
    assert!(!d.is_status_accepted(403));
    assert!(!d.is_status_accepted(500));
    assert!(d.is_status_accepted(600));
    assert_eq!(WAITING_FACTOR, 2);
    assert!(!d.is_saturated());
    d.request_waiting();
    assert!(!d.is_saturated());
    d.request_waiting();
    assert!(d.is_saturated());
    d.request_admitted(10);
    assert!(!d.is_saturated());
    assert!(!d.is_idle());
    assert!(!d.record_response(500, 3, 12));
    assert!(d.record_response(404, 3, 8));
    d.request_finished();
    let s = d.get_stats();
    assert_eq!(s.total_responses, 2);
    assert_eq!(s.total_requests, 1);
    assert_eq!((s.min_response_time_ms, s.max_response_time_ms), (8, 12));
    assert!(d.is_idle());
}

#[test]
fn bad_user_agent_fails_the_client_build() {
    let mut config = EngineConfig::default();
    config.user_agent = Some(String::from("bad\nagent"));
    match Downloader::new(&config) {
        Err(e) => assert!(e
            .to_string()
            .starts_with("Engine initialization failed: Error while building downloader client: ")),
        Ok(_) => panic!("expected an initialization error"),
    }
}

#[test]
fn monitor_shuts_down_only_when_all_work_is_done() {
    let c = EngineConfig::default();
    assert_eq!(monitor_step(0, true, Duration::from_millis(1000), &c, false), MonitorAction::InitiateShutdown);
    assert_eq!(monitor_step(0, true, Duration::from_millis(999), &c, false), MonitorAction::Continue);
    assert_eq!(monitor_step(1, true, Duration::from_millis(5000), &c, false), MonitorAction::Continue);
    assert_eq!(monitor_step(0, false, Duration::from_millis(5000), &c, false), MonitorAction::Continue);
    assert_eq!(monitor_step(0, false, Duration::from_millis(5000), &c, true), MonitorAction::Stop);
    assert_eq!(monitor_step(0, true, Duration::from_millis(1000), &c, true), MonitorAction::InitiateShutdown);
    assert_eq!(monitor_step(0, true, Duration::from_nanos(999_999_999), &c, false), MonitorAction::Continue);
    let mut fine = EngineConfig::default();
    fine.idle_timeout = Duration::from_micros(1500);
    assert_eq!(monitor_step(0, true, Duration::from_micros(1499), &fine, false), MonitorAction::Continue);
    assert_eq!(monitor_step(0, true, Duration::from_micros(1500), &fine, false), MonitorAction::InitiateShutdown);
}

#[test]
fn failed_downloads_are_counted_by_kind() {
    let mut d = Downloader::new(&EngineConfig::default()).unwrap();
    let client = d.client().clone();

    // A URL that cannot be parsed fails while the request is built: none of the four kinds.
    let bad_url = client.get("http://[::1").build().unwrap_err();
    assert_eq!(d.record_error(&bad_url), "unkown");

    // Nothing listens on port 1 of the loopback address: the connection is refused.
    let runtime = tokio::runtime::Runtime::new().unwrap();
    let refused = runtime
        .block_on(async { client.get("http://127.0.0.1:1/").send().await })
        .unwrap_err();
    assert_eq!(d.record_error(&refused), "connect");

    let s = d.get_stats();
    assert_eq!(s.total_exceptions, 2);
    let mut kinds = s.exception_counts.clone();
    kinds.sort();
    assert_eq!(kinds, vec![(String::from("connect"), 1), (String::from("unkown"), 1)]);
}

#[test]
fn user_agent_decides_whether_the_client_builds() {
    let mut config = EngineConfig::default();
    config.user_agent = None;
    assert!(Downloader::new(&config).is_ok());
    // Characters past ASCII are bytes from 128 on, which a header value may hold.
    config.user_agent = Some(String::from("IronSpider/0.0.1 (café)\tbot"));
    assert!(Downloader::new(&config).is_ok());
    config.user_agent = Some(String::from("bad\u{7f}agent"));
    assert!(Downloader::new(&config).is_err());
}

#[test]
fn wait_admit_finish_returns_the_counters() {
    let mut d = Downloader::new(&EngineConfig::default()).unwrap();
    for _ in 0..3 {
        d.request_waiting();
    }
    d.request_admitted(4);
    d.request_admitted(6);
    d.request_finished();
    d.request_admitted(0);
    d.request_finished();
    d.request_finished();
    let s = d.get_stats();
    assert_eq!((s.waiting_requests, s.active_requests), (0, 0));
    assert_eq!(s.total_requests, 3);
    assert_eq!(s.total_request_bytes, 10);
    assert_eq!(s.peak_concurrent_requests, 3);
    assert!(d.is_idle());
}

#[test]
fn report_counts_lines() {
    let mut t = StatsTracker::new();
    t.inc_waiting();
    t.inc_waiting();
    t.dec_waiting_inc_active();
    t.inc_requests(2_500_000);
    t.inc_response(200, 1_999_999, 5);
    t.inc_exception("timeout");
    let s = t.get_stats();
    assert_eq!(
        s.counts_text(),
        "=== Downloader Statistics ===\n\
         Active: 1, Waiting: 1, Peak: 2\n\
         Total Requests: 1, Responses: 1, Exceptions: 1\n\
         Data: 2 MB sent, 1 MB received\n"
    );
}
