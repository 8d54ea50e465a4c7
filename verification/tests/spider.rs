use iron_spider::request::{IronRequest, Request, RequestBuilder};
use iron_spider::response::Response;
use iron_spider::scheduler::scheduler::{Scheduler, SchedulerError, SimpleScheduler};
use iron_spider::spider::manager::{RegisteredSpider, SpiderManager, SCHEDULER_HOLDING_THRESOLD};
use iron_spider::spider::spider::{Spider, SpiderResult, SpiderState};
use iron_spider::spider::stat::SpiderManagerStatsTracker;
use std::cell::Cell;
use std::sync::Arc;

fn request(path: &str) -> Request {
    let url = reqwest::Url::parse(&format!("http://127.0.0.1:5000/{}", path)).unwrap();
    RequestBuilder::new().url(url).build().unwrap()
}

struct TestSpider {
    seeds: usize,
    closed: Cell<u32>,
}

impl Spider for TestSpider {
    type Item = u32;

    fn name(&self) -> &str {
        "test"
    }

    fn start_requests(&self) -> Vec<Request> {
        (0..self.seeds).map(|i| request(&i.to_string())).collect()
    }

    fn parse(&self, response: Response) -> SpiderResult<u32> {
        SpiderResult::Items(vec![response.status as u32])
    }

    fn close(&self) {
        self.closed.set(self.closed.get() + 1);
    }
}

fn spider(seeds: usize) -> TestSpider {
    TestSpider { seeds, closed: Cell::new(0) }
}

/// A scheduler that refuses every request once it holds `limit`.
struct BoundedScheduler {
    inner: SimpleScheduler,
    limit: u64,
}

impl Scheduler for BoundedScheduler {
    fn dequeue(&mut self) -> Option<IronRequest> {
        self.inner.dequeue()
    }

    fn is_empty(&self) -> bool {
        self.inner.is_empty()
    }

    fn enqueue(&mut self, request: IronRequest) -> Result<(), SchedulerError> {
        if self.inner.count() >= self.limit {
            Err(SchedulerError::QueueFull)
        } else {
            self.inner.enqueue(request)
        }
    }

    fn count(&self) -> u64 {
        self.inner.count()
    }
}

fn response_for(id: u64) -> Response {
    Response {
        url: reqwest::Url::parse("http://127.0.0.1:5000/").unwrap(),
        status: 200,
        headers: reqwest::header::HeaderMap::new(),
        body: vec![],
        request: Arc::new(IronRequest { spider_id: id, request: request("r") }),
        protocol: None,
    }
}

#[test]
fn spider_state_activity() {
    let mut s = SpiderState::new();
    assert!(!s.is_activated());
    s.in_flight_parse = 1;
    assert!(s.is_activated());
    s.in_flight_parse = 0;
    s.in_flight_requests = 2;
    assert!(s.is_activated());
}

#[test]
fn registered_spider_counts_requests() {
    let mut r = RegisteredSpider::new(5, spider(0));
    assert_eq!(r.id(), 5);
    assert!(!r.is_activated());
    r.request_started(3);
    assert!(r.is_activated());
    let ir = r.make_request(request("a"));
    assert_eq!(ir.spider_id, 5);
    r.request_finished();
    r.request_finished();
    r.request_finished();
    assert!(!r.is_activated());
    assert_eq!(r.inner().name(), "test");
}

#[test]
fn stats_tracker_closed_spiders_are_the_rest() {
    let mut t = SpiderManagerStatsTracker::new(5);
    t.activate_one_spider();
    t.activate_one_spider();
    t.deactivate_one_spider();
    t.drop_one_response();
    let s = t.get_stats(2);
    assert_eq!(s.total_spiders, 5);
    assert_eq!(s.pending_spiders, 2);
    assert_eq!(s.active_spiders, 1);
    assert_eq!(s.closed_spiders, 2);
    assert_eq!(s.dropped_responses, 1);
}

#[test]
fn spiders_start_one_at_a_time() {
    let mut m = SpiderManager::new(vec![spider(2), spider(0), spider(1)], 1);
    let mut sched = SimpleScheduler::new();
    let s = m.get_stats();
    assert_eq!((s.total_spiders, s.pending_spiders, s.active_spiders, s.closed_spiders), (3, 3, 0, 0));

    m.try_activate_pending_spider(&mut sched).unwrap();
    assert_eq!(sched.count(), 2);
    let s = m.get_stats();
    assert_eq!((s.pending_spiders, s.active_spiders, s.closed_spiders), (2, 1, 0));
    let first = sched.dequeue().unwrap();
    assert_eq!(first.spider_id, 1);

    // A spider without start requests is popped but never becomes active.
    m.try_activate_pending_spider(&mut sched).unwrap();
    let s = m.get_stats();
    assert_eq!((s.pending_spiders, s.active_spiders, s.closed_spiders), (1, 1, 1));

    m.try_activate_pending_spider(&mut sched).unwrap();
    let s = m.get_stats();
    assert_eq!((s.pending_spiders, s.active_spiders, s.closed_spiders), (0, 2, 1));

    // Nothing left to start.
    m.try_activate_pending_spider(&mut sched).unwrap();
    assert_eq!(m.get_stats().pending_spiders, 0);
}

#[test]
fn no_spider_starts_while_the_scheduler_is_full() {
    let mut m = SpiderManager::new(vec![spider(1)], 1);
    let mut sched = SimpleScheduler::new();
    for i in 0..(SCHEDULER_HOLDING_THRESOLD + 1) {
        sched.enqueue(IronRequest { spider_id: 99, request: request(&i.to_string()) }).unwrap();
    }
    m.try_activate_pending_spider(&mut sched).unwrap();
    assert_eq!(m.get_stats().pending_spiders, 1);
    assert_eq!(sched.count(), SCHEDULER_HOLDING_THRESOLD + 1);
    sched.dequeue();
    m.try_activate_pending_spider(&mut sched).unwrap();
    assert_eq!(m.get_stats().pending_spiders, 0);
    assert_eq!(sched.count(), SCHEDULER_HOLDING_THRESOLD + 1);
}

#[test]
fn refused_seed_reports_the_spider() {
    let mut m = SpiderManager::new(vec![spider(3)], 1);
    let mut sched = BoundedScheduler { inner: SimpleScheduler::new(), limit: 1 };
    let err = m.try_activate_pending_spider(&mut sched).unwrap_err();
    assert_eq!(
        err.to_string(),
        "Engine initialization failed: Failed to seed request(s) of spider #1, error: QueueFull"
    );
    assert_eq!(sched.count(), 1);
    let s = m.get_stats();
    assert_eq!((s.pending_spiders, s.active_spiders, s.closed_spiders), (0, 0, 1));
}

#[test]
fn parse_results_are_dispatched() {
    let mut m = SpiderManager::new(vec![spider(1)], 1);
    let mut sched = SimpleScheduler::new();
    m.try_activate_pending_spider(&mut sched).unwrap();

    let items = m.handler_spider_result(&response_for(1), &mut sched, SpiderResult::Items(vec![7, 8]));
    assert_eq!(items, vec![7, 8]);

    let items = m.handler_spider_result(&response_for(1), &mut sched, SpiderResult::Nothing);
    assert!(items.is_empty());
    assert_eq!(m.get_stats().dropped_responses, 1);

    let before = sched.count();
    let items = m.handler_spider_result(
        &response_for(1),
        &mut sched,
        SpiderResult::Both { requests: vec![request("n1"), request("n2")], items: vec![1] },
    );
    assert_eq!(items, vec![1]);
    assert_eq!(sched.count(), before + 2);

    // Requests of an unknown spider are dropped.
    let items = m.handler_spider_result(
        &response_for(42),
        &mut sched,
        SpiderResult::Requests(vec![request("lost")]),
    );
    assert!(items.is_empty());
    assert_eq!(sched.count(), before + 2);

    let parsed = m.parse_response(response_for(1));
    assert!(matches!(parsed, Some(SpiderResult::Items(ref v)) if v == &vec![200]));
    assert!(m.parse_response(response_for(2)).is_none());
}

#[test]
fn close_deactivates_every_working_spider() {
    let mut m = SpiderManager::new(vec![spider(1), spider(1), spider(1)], 1);
    let mut sched = SimpleScheduler::new();
    m.try_activate_pending_spider(&mut sched).unwrap();
    m.try_activate_pending_spider(&mut sched).unwrap();
    assert_eq!(m.get_stats().active_spiders, 2);
    // Active spiders stay at work.
    m.deactivate_idle_spiders();
    assert_eq!(m.get_stats().active_spiders, 2);
    m.close();
    let s = m.get_stats();
    assert_eq!((s.pending_spiders, s.active_spiders, s.closed_spiders), (1, 0, 2));
    assert_eq!(m.get_spider(1).unwrap().inner().closed.get(), 1);
    assert_eq!(m.get_spider(3).unwrap().inner().closed.get(), 0);
    assert!(m.get_spider(4).is_none());
}

#[test]
fn spiders_take_ids_from_the_first_id_on() {
    let m = SpiderManager::new(vec![spider(1), spider(1)], 7);
    assert!(m.get_spider(6).is_none());
    assert_eq!(m.get_spider(7).unwrap().id(), 7);
    assert_eq!(m.get_spider(8).unwrap().id(), 8);
    assert!(m.get_spider(9).is_none());

    let mut m = SpiderManager::new(vec![spider(3)], 12);
    let mut sched = BoundedScheduler { inner: SimpleScheduler::new(), limit: 1 };
    let err = m.try_activate_pending_spider(&mut sched).unwrap_err();
    assert_eq!(
        err.to_string(),
        "Engine initialization failed: Failed to seed request(s) of spider #12, error: QueueFull"
    );
}
