use iron_spider::request::{IronRequest, Request, RequestBuilder};
use iron_spider::response::Response;
use iron_spider::scheduler::scheduler::{Scheduler, SimpleScheduler};
use iron_spider::scheduler::stat::SchedulerStats;
use std::sync::Arc;

fn request(path: &str) -> Request {
    let url = reqwest::Url::parse(&format!("http://127.0.0.1:5000/{}", path)).unwrap();
    RequestBuilder::new().url(url).build().unwrap()
}

fn iron(id: u64, path: &str) -> IronRequest {
    IronRequest { spider_id: id, request: request(path) }
}

#[test]
fn simple_scheduler_is_first_in_first_out() {
    let mut s = SimpleScheduler::new();
    assert!(s.is_empty());
    assert!(s.dequeue().is_none());
    s.enqueue(iron(1, "a")).unwrap();
    s.enqueue(iron(2, "b")).unwrap();
    s.enqueue(iron(3, "c")).unwrap();
    assert_eq!(s.count(), 3);
    assert!(!s.is_empty());
    assert_eq!(s.dequeue().unwrap().spider_id, 1);
    s.enqueue(iron(4, "d")).unwrap();
    assert_eq!(s.dequeue().unwrap().spider_id, 2);
    assert_eq!(s.dequeue().unwrap().spider_id, 3);
    assert_eq!(s.try_dequeue().unwrap().spider_id, 4);
    assert!(s.try_dequeue().is_err());
    assert_eq!(s.get_stats().items_count, 0);
}

#[test]
fn scheduler_stats_report_line() {
    assert_eq!(SchedulerStats { items_count: 5 }.to_string(), "Queue Items: 5\n");
    assert_eq!(SchedulerStats { items_count: 0 }.to_string(), "Queue Items: 0\n");
}

#[test]
fn builder_needs_a_url() {
    let e = RequestBuilder::new().body("x").build();
    assert_eq!(e.err(), Some("Missing URL"));
    let e = RequestBuilder::new().build_with_spider(3);
    assert!(e.is_err());
}

#[test]
fn builder_keeps_what_was_given() {
    let url = reqwest::Url::parse("http://example.com/page").unwrap();
    let mut meta = std::collections::HashMap::new();
    meta.insert(String::from("k"), String::from("v"));
    let r = RequestBuilder::new()
        .url(url.clone())
        .method(reqwest::Method::POST)
        .body("payload")
        .meta(meta)
        .build_with_spider(9)
        .unwrap();
    assert_eq!(r.spider_id, 9);
    assert_eq!(r.request.url, url);
    assert_eq!(r.request.method, reqwest::Method::POST);
    assert_eq!(r.request.body.as_deref(), Some("payload"));
    assert_eq!(r.request.meta.unwrap().get("k").map(|s| s.as_str()), Some("v"));
    let g = RequestBuilder::new().url(url).build().unwrap();
    assert_eq!(g.method, reqwest::Method::GET);
    assert!(g.headers.is_none());
}

fn response(status: u16, body: Vec<u8>) -> Response {
    let mut headers = reqwest::header::HeaderMap::new();
    headers.insert("content-type", reqwest::header::HeaderValue::from_static("text/html"));
    Response {
        url: reqwest::Url::parse("http://example.com/").unwrap(),
        status,
        headers,
        body,
        request: Arc::new(iron(1, "x")),
        protocol: Some(String::from("HTTP/1.1")),
    }
}

#[test]
fn response_helpers() {
    let r = response(200, b"hello".to_vec());
    assert_eq!(r.text(), Some(String::from("hello")));
    assert_eq!(r.content_length(), Some(5));
    assert!(!r.is_redirect());
    assert_eq!(r.header("content-type"), Some("text/html"));
    assert_eq!(r.header("Content-Type"), Some("text/html"));
    assert_eq!(r.header("x-missing"), None);
    assert!(response(301, vec![]).is_redirect());
    assert!(response(399, vec![]).is_redirect());
    assert!(!response(400, vec![]).is_redirect());
    assert_eq!(response(200, vec![0xff, 0xfe]).text(), None);
}

#[test]
fn dashboard_panels_show_the_snapshot_they_were_given() {
    let scheduler_stats = SchedulerStats { items_count: 3 };
    let panel = iron_spider::scheduler::tui::SchedulerWidget::new(&scheduler_stats);
    assert!(std::ptr::eq(panel.stats, &scheduler_stats));

    let pipeline_stats = iron_spider::pipeline::stat::PipelineManagerStatsTracker::new().get_stats();
    let panel = iron_spider::pipeline::tui::PipelineManagerWidget::new(&pipeline_stats);
    assert!(std::ptr::eq(panel.stats, &pipeline_stats));

    let spider_stats = iron_spider::spider::stat::SpiderManagerStatsTracker::new(2).get_stats(1);
    let panel = iron_spider::spider::tui::SpiderManagerWidget::new(&spider_stats);
    assert!(std::ptr::eq(panel.stats(), &spider_stats));
    assert_eq!(panel.stats().total_spiders, 2);
}
