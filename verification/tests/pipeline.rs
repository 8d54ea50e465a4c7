use iron_spider::pipeline::fn_pipeline::FnPipeline;
use iron_spider::pipeline::manager::{run_pipelines, PipelineManager, PrioritizedPipeline};
use iron_spider::pipeline::pipeline::Pipeline;
use iron_spider::pipeline::stat::PipelineManagerStatsTracker;
use std::cell::RefCell;
use std::rc::Rc;

/// A stage that appends its tag to the item, or drops items that contain `drop_on`.
struct Tagger {
    tag: char,
    drop_on: Option<char>,
    log: Rc<RefCell<Vec<char>>>,
}

impl Pipeline<String> for Tagger {
    fn try_process(&self, item: Option<String>) -> Option<String> {
        self.log.borrow_mut().push(self.tag);
        let item = item?;
        if let Some(d) = self.drop_on {
            if item.contains(d) {
                return None;
            }
        }
        Some(format!("{}{}", item, self.tag))
    }

    fn close(&self) {
        self.log.borrow_mut().push('x');
    }
}

fn tagger(tag: char, log: &Rc<RefCell<Vec<char>>>) -> Tagger {
    Tagger { tag, drop_on: None, log: Rc::clone(log) }
}

#[test]
fn stats_tracker_counts() {
    let mut t = PipelineManagerStatsTracker::new();
    assert!(t.is_idle());
    t.start_one();
    assert!(!t.is_idle());
    t.processed_one();
    t.start_one();
    t.dropped_one();
    t.unrouted_one();
    let s = t.get_stats();
    assert_eq!(s.processing_items, 0);
    assert_eq!(s.processed_items, 1);
    assert_eq!(s.dropped_items, 1);
    assert_eq!(s.unrouted_item, 1);
    assert!(t.is_idle());
}

#[test]
fn fn_pipeline_applies_its_closure() {
    let p = FnPipeline::new(|item: Option<u32>| item.map(|x| x * 2));
    assert_eq!(p.try_process(Some(21)), Some(42));
    assert_eq!(p.try_process(None), None);
    p.close();
}

#[test]
fn pipelines_run_in_priority_order_and_stably() {
    let log = Rc::new(RefCell::new(Vec::new()));
    let mut m: PipelineManager<String, Tagger> = PipelineManager::new();
    m.add_pipeline(7, tagger('c', &log), 30);
    m.add_pipeline(7, tagger('a', &log), 10);
    m.add_pipeline(7, tagger('b', &log), 10);
    m.process_item(7, String::new());
    assert_eq!(*log.borrow(), vec!['a', 'b', 'c']);
    let s = m.get_stats();
    assert_eq!(s.processed_items, 1);
    assert_eq!(s.dropped_items, 0);
    assert_eq!(s.processing_items, 0);
}

#[test]
fn chain_stops_at_the_first_none() {
    let log = Rc::new(RefCell::new(Vec::new()));
    let mut m: PipelineManager<String, Tagger> = PipelineManager::new();
    m.add_pipeline(1, tagger('a', &log), 1);
    m.add_pipeline(1, Tagger { tag: 'b', drop_on: Some('a'), log: Rc::clone(&log) }, 2);
    m.add_pipeline(1, tagger('c', &log), 3);
    m.process_item(1, String::new());
    assert_eq!(*log.borrow(), vec!['a', 'b']);
    let s = m.get_stats();
    assert_eq!(s.processed_items, 0);
    assert_eq!(s.dropped_items, 1);
}

#[test]
fn items_without_pipeline_are_unrouted() {
    let mut m: PipelineManager<String, Tagger> = PipelineManager::new();
    m.process_item(3, String::from("item"));
    let s = m.get_stats();
    assert_eq!(s.unrouted_item, 1);
    assert_eq!(s.processed_items + s.dropped_items + s.processing_items, 0);
}

#[test]
fn run_pipelines_passes_each_output_on() {
    let log = Rc::new(RefCell::new(Vec::new()));
    let route = vec![
        PrioritizedPipeline { priority: 1, pipeline: tagger('x', &log) },
        PrioritizedPipeline { priority: 2, pipeline: tagger('y', &log) },
    ];
    assert_eq!(run_pipelines(&route, Some(String::from("i"))), Some(String::from("ixy")));
    assert_eq!(run_pipelines(&route, None), None);
}

#[test]
fn close_all_pipelines_closes_each_once() {
    let log = Rc::new(RefCell::new(Vec::new()));
    let mut m: PipelineManager<String, Tagger> = PipelineManager::new();
    m.add_pipeline(1, tagger('a', &log), 1);
    m.add_pipeline(2, tagger('b', &log), 1);
    m.close_all_pipelines();
    assert_eq!(*log.borrow(), vec!['x', 'x']);
}
