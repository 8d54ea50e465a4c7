use std::collections::HashMap;
use vstd::prelude::*;

use crate::pipeline::pipeline::Pipeline;
use crate::pipeline::stat::{PipelineManagerStats, PipelineManagerStatsTracker};
use crate::utils::wrap_inc;

verus! {

broadcast use vstd::std_specs::hash::group_hash_axioms;

/// A pipeline together with the priority it was registered with; lower runs first.
pub struct PrioritizedPipeline<P> {
    pub priority: usize,
    pub pipeline: P,
}

/// The pipelines of a route are ordered by priority, lowest first.
pub open spec fn sorted_by_priority<P>(s: Seq<PrioritizedPipeline<P>>) -> bool {
    forall|i: int, j: int| 0 <= i <= j < s.len() ==> s[i].priority <= s[j].priority
}

/// Where a pipeline of the given priority goes: after every pipeline whose priority
/// is not greater, scanning from the back.
pub open spec fn insert_pos<P>(s: Seq<PrioritizedPipeline<P>>, priority: usize) -> nat
    decreases s.len(),
{
    if s.len() == 0 {
        0
    } else if s.last().priority <= priority {
        s.len()
    } else {
        insert_pos(s.drop_last(), priority)
    }
}

/// `s` with `pp` appended and then stably sorted by priority.
pub open spec fn stable_insert<P>(
    s: Seq<PrioritizedPipeline<P>>,
    pp: PrioritizedPipeline<P>,
) -> Seq<PrioritizedPipeline<P>> {
    let k = insert_pos(s, pp.priority) as int;
    s.take(k) + seq![pp] + s.skip(k)
}

/// Running `input` through the pipelines `ps` in order may give `output`: each stage is
/// handed what the one before it returned, and the chain stops at the first `None`.
pub open spec fn chain_accepts<I, P: Pipeline<I>>(
    ps: Seq<PrioritizedPipeline<P>>,
    input: Option<I>,
    output: Option<I>,
) -> bool
    decreases ps.len(),
{
    if ps.len() == 0 || input is None {
        output == input
    } else {
        exists|mid: Option<I>|
            #[trigger] ps[0].pipeline.processes(input, mid) && chain_accepts(
                ps.drop_first(),
                mid,
                output,
            )
    }
}

proof fn lemma_insert_pos_suffix<P>(s: Seq<PrioritizedPipeline<P>>, k: int, p: usize)
    requires
        0 <= k <= s.len(),
        forall|j: int| k <= j < s.len() ==> #[trigger] s[j].priority > p,
    ensures
        insert_pos(s, p) == insert_pos(s.take(k), p),
    decreases s.len() - k,
{
    if k == s.len() {
        assert(s.take(k) =~= s);
    } else {
        assert(s.drop_last().take(k) =~= s.take(k));
        lemma_insert_pos_suffix(s.drop_last(), k, p);
    }
}

/// In a sorted route, the insertion point splits the pipelines into those whose priority
/// is not greater than `p` and those whose priority is greater.
pub proof fn lemma_insert_pos_bounds<P>(s: Seq<PrioritizedPipeline<P>>, p: usize)
    requires
        sorted_by_priority(s),
    ensures
        insert_pos(s, p) <= s.len(),
        forall|j: int| 0 <= j < insert_pos(s, p) ==> #[trigger] s[j].priority <= p,
        forall|j: int| insert_pos(s, p) <= j < s.len() ==> #[trigger] s[j].priority > p,
    decreases s.len(),
{
    if s.len() == 0 {
    } else if s.last().priority <= p {
        assert forall|j: int| 0 <= j < insert_pos(s, p) implies #[trigger] s[j].priority <= p by {
            assert(s[j].priority <= s[s.len() - 1].priority);
        }
    } else {
        let d = s.drop_last();
        assert(sorted_by_priority(d)) by {
            assert forall|i: int, j: int| 0 <= i <= j < d.len() implies d[i].priority
                <= d[j].priority by {
                assert(d[i] == s[i] && d[j] == s[j]);
            }
        }
        lemma_insert_pos_bounds(d, p);
        assert forall|j: int| 0 <= j < insert_pos(s, p) implies #[trigger] s[j].priority <= p by {
            assert(d[j] == s[j]);
        }
        assert forall|j: int| insert_pos(s, p) <= j < s.len() implies #[trigger] s[j].priority
            > p by {
            if j < d.len() {
                assert(d[j] == s[j]);
            }
        }
    }
}

/// Registering a pipeline keeps a route sorted by priority.
pub proof fn lemma_stable_insert_sorted<P>(
    s: Seq<PrioritizedPipeline<P>>,
    pp: PrioritizedPipeline<P>,
)
    requires
        sorted_by_priority(s),
    ensures
        sorted_by_priority(stable_insert(s, pp)),
        stable_insert(s, pp).len() == s.len() + 1,
{
    lemma_insert_pos_bounds(s, pp.priority);
    let k = insert_pos(s, pp.priority) as int;
    let r = stable_insert(s, pp);
    assert forall|i: int, j: int| 0 <= i <= j < r.len() implies r[i].priority
        <= r[j].priority by {
        if i < k {
            assert(r[i] == s[i]);
        } else if i > k {
            assert(r[i] == s[i - 1]);
        }
        if j < k {
            assert(r[j] == s[j]);
        } else if j > k {
            assert(r[j] == s[j - 1]);
        }
    }
}

/// Registering a pipeline keeps the other pipelines of the route in their order: taking
/// the new one out again gives back the route as it was.
pub proof fn lemma_stable_insert_keeps_order<P>(
    s: Seq<PrioritizedPipeline<P>>,
    pp: PrioritizedPipeline<P>,
)
    requires
        sorted_by_priority(s),
    ensures
        stable_insert(s, pp).remove(insert_pos(s, pp.priority) as int) == s,
        stable_insert(s, pp)[insert_pos(s, pp.priority) as int] == pp,
{
    lemma_insert_pos_bounds(s, pp.priority);
    let k = insert_pos(s, pp.priority) as int;
    assert(stable_insert(s, pp).remove(k) =~= s);
}

/// Runs an item through a route's pipelines in order, stopping at the first `None`.
pub fn run_pipelines<I, P: Pipeline<I>>(
    pipelines: &Vec<PrioritizedPipeline<P>>,
    item: Option<I>,
) -> (out: Option<I>)
    ensures
        chain_accepts(pipelines@, item, out),
{
    let ghost ps = pipelines@;
    let mut current = item;
    let mut i: usize = 0;
    assert(ps.skip(0) =~= ps);
    while i < pipelines.len() && current.is_some()
        invariant
            ps == pipelines@,
            0 <= i <= ps.len(),
            forall|o: Option<I>|
                #[trigger] chain_accepts(ps.skip(i as int), current, o) ==> chain_accepts(
                    ps,
                    item,
                    o,
                ),
        decreases ps.len() - i,
    {
        let ghost before = current;
        let next = pipelines[i].pipeline.try_process(current);
        proof {
            let rest = ps.skip(i as int);
            assert(rest[0] == ps[i as int]);
            assert(rest.drop_first() =~= ps.skip(i + 1));
            assert forall|o: Option<I>|
                #[trigger] chain_accepts(ps.skip(i + 1), next, o) implies chain_accepts(
                ps,
                item,
                o,
            ) by {
                assert(rest[0].pipeline.processes(before, next));
                assert(chain_accepts(rest, before, o));
            }
        }
        current = next;
        i = i + 1;
    }
    proof {
        if current is Some {
            assert(ps.skip(i as int).len() == 0);
        }
        assert(chain_accepts(ps.skip(i as int), current, current));
    }
    current
}


/// Routes scraped items, by a key that stands for their type, through the pipelines
/// registered for that key, and counts what happens to them.
#[verifier::reject_recursive_types(I)]
pub struct PipelineManager<I, P: Pipeline<I>> {
    pipelines: HashMap<u64, Vec<PrioritizedPipeline<P>>>,
    stats_tracker: PipelineManagerStatsTracker,
    _item: core::marker::PhantomData<I>,
}

impl<I, P: Pipeline<I>> PipelineManager<I, P> {
    /// The pipelines of each route, in the order they run.
    pub closed spec fn routes(&self) -> Map<u64, Seq<PrioritizedPipeline<P>>> {
        self.pipelines@.map_values(|v: Vec<PrioritizedPipeline<P>>| v@)
    }

    /// The pipelines of one route; empty where none are registered.
    pub open spec fn route(&self, key: u64) -> Seq<PrioritizedPipeline<P>> {
        if self.routes().contains_key(key) {
            self.routes()[key]
        } else {
            Seq::empty()
        }
    }

    /// The counters of the manager.
    pub closed spec fn stats(&self) -> PipelineManagerStats {
        self.stats_tracker.view_stats()
    }

    /// Every route is sorted by priority.
    #[verifier::type_invariant]
    closed spec fn routes_sorted(&self) -> bool {
        forall|k: u64| #[trigger]
            self.pipelines@.contains_key(k) ==> sorted_by_priority(self.pipelines@[k]@)
    }

    pub fn new() -> (m: Self)
        ensures
            m.routes() == Map::<u64, Seq<PrioritizedPipeline<P>>>::empty(),
            m.stats() == (PipelineManagerStats {
                processing_items: 0,
                processed_items: 0,
                dropped_items: 0,
                unrouted_item: 0,
            }),
    {
        let m = PipelineManager {
            pipelines: HashMap::new(),
            stats_tracker: PipelineManagerStatsTracker::new(),
            _item: core::marker::PhantomData,
        };
        assert(m.routes() =~= Map::<u64, Seq<PrioritizedPipeline<P>>>::empty());
        m
    }

    /// Registers `pipeline` on the route `key`: it runs after every pipeline of that route
    /// whose priority is not greater, and before the others.
    pub fn add_pipeline(&mut self, key: u64, pipeline: P, priority: usize)
        ensures
            final(self).routes() == old(self).routes().insert(
                key,
                stable_insert(old(self).route(key), PrioritizedPipeline { priority, pipeline }),
            ),
            final(self).stats() == old(self).stats(),
            forall|k: u64| #[trigger] sorted_by_priority(final(self).route(k)),
    {
        proof {
            use_type_invariant(&*self);
        }
        let ghost old_route = self.route(key);
        let mut map: HashMap<u64, Vec<PrioritizedPipeline<P>>> = HashMap::new();
        std::mem::swap(&mut map, &mut self.pipelines);
        let mut route = match map.remove(&key) {
            Some(v) => v,
            None => Vec::new(),
        };
        assert(route@ == old_route);
        let mut pos: usize = route.len();
        while pos > 0 && route[pos - 1].priority > priority
            invariant
                route@ == old_route,
                0 <= pos <= route@.len(),
                forall|j: int| pos <= j < route@.len() ==> #[trigger] route@[j].priority
                    > priority,
            decreases pos,
        {
            pos = pos - 1;
        }
        proof {
            lemma_insert_pos_suffix(old_route, pos as int, priority);
            assert(insert_pos(old_route.take(pos as int), priority) == pos) by {
                if pos > 0 {
                    assert(old_route.take(pos as int).last() == old_route[pos - 1]);
                }
            }
            lemma_stable_insert_sorted(old_route, PrioritizedPipeline { priority, pipeline });
        }
        route.insert(pos, PrioritizedPipeline { priority, pipeline });
        assert(route@ =~= stable_insert(old_route, PrioritizedPipeline { priority, pipeline }));
        map.insert(key, route);
        self.pipelines = map;
        assert(self.routes() =~= old(self).routes().insert(
            key,
            stable_insert(old_route, PrioritizedPipeline { priority, pipeline }),
        ));
        proof {
            use_type_invariant(&*self);
            assert forall|k: u64| #[trigger] sorted_by_priority(self.route(k)) by {
                if self.pipelines@.contains_key(k) {
                    assert(self.route(k) == self.pipelines@[k]@);
                }
            }
        }
    }
}


impl<I, P: Pipeline<I>> PipelineManager<I, P> {
    /// Runs `item` through the pipelines of route `key` and counts the outcome: processed
    /// when the last pipeline hands an item back, dropped when a pipeline returns `None`,
    /// unrouted when no pipeline is registered for `key`.
    pub fn process_item(&mut self, key: u64, item: I)
        ensures
            final(self).routes() == old(self).routes(),
            !old(self).routes().contains_key(key) ==> final(self).stats() == (
            PipelineManagerStats {
                unrouted_item: wrap_inc(old(self).stats().unrouted_item),
                ..old(self).stats()
            }),
            old(self).routes().contains_key(key) ==> exists|out: Option<I>|
                #[trigger] chain_accepts(old(self).routes()[key], Some(item), out) && (
                if out is Some {
                    final(self).stats() == (PipelineManagerStats {
                        processed_items: wrap_inc(old(self).stats().processed_items),
                        ..old(self).stats()
                    })
                } else {
                    final(self).stats() == (PipelineManagerStats {
                        dropped_items: wrap_inc(old(self).stats().dropped_items),
                        ..old(self).stats()
                    })
                }),
    {
        proof {
            use_type_invariant(&*self);
        }
        match self.pipelines.get(&key) {
            Some(route) => {
                assert(route@ == self.routes()[key]);
                let out = run_pipelines(route, Some(item));
                self.stats_tracker.start_one();
                if out.is_some() {
                    self.stats_tracker.processed_one();
                } else {
                    self.stats_tracker.dropped_one();
                }
                assert(chain_accepts(old(self).routes()[key], Some(item), out));
            },
            None => {
                self.stats_tracker.unrouted_one();
            },
        }
    }

    pub fn get_stats(&self) -> (s: PipelineManagerStats)
        ensures
            s == self.stats(),
    {
        self.stats_tracker.get_stats()
    }

    /// Closes every registered pipeline, each once. The result lists the pipelines closed, by
    /// their route and their place in it.
    pub fn close_all_pipelines(&self) -> (closed: Ghost<Seq<(u64, int)>>)
        ensures
            closed@.no_duplicates(),
            forall|k: u64, i: int|
                #[trigger] closed@.contains((k, i)) <==> (self.routes().contains_key(k) && 0 <= i
                    < self.routes()[k].len()),
    {
        let ghost mut log: Seq<(u64, int)> = Seq::empty();
        for key in it: self.pipelines.keys()
            invariant
                it.seq().unref().no_duplicates(),
                it.seq().unref().to_set() == self.pipelines@.dom(),
                log.no_duplicates(),
                forall|k: u64, i: int|
                    #[trigger] log.contains((k, i)) <==> (it.seq().unref().take(it.index() as int).contains(
                        k,
                    ) && self.routes().contains_key(k) && 0 <= i < self.routes()[k].len()),
                forall|k: u64, i: int|
                    self.routes().contains_key(k) && 0 <= i < self.routes()[k].len() ==> (
                    #[trigger] log.contains((k, i)) || exists|t: int|
                        it.index() <= t < it.seq().len() && #[trigger] it.seq().unref()[t] == k),
            ensures
                log.no_duplicates(),
                forall|k: u64, i: int|
                    #[trigger] log.contains((k, i)) <==> (self.routes().contains_key(k) && 0 <= i
                        < self.routes()[k].len()),
        {
            let ghost keys = it.seq().unref();
            let ghost n = it.index() as int;
            proof {
                assert(keys[n] == *key);
                assert(keys.to_set().contains(*key));
                assert(!keys.take(n).contains(*key)) by {
                    if keys.take(n).contains(*key) {
                        let t = choose|t: int| 0 <= t < n && #[trigger] keys.take(n)[t] == *key;
                        assert(keys[t] == keys[n]);
                    }
                }
                assert(keys.take(n + 1) =~= keys.take(n).push(*key));
            }
            let route = self.pipelines.get(key).unwrap();
            let mut i: usize = 0;
            while i < route.len()
                invariant
                    0 <= i <= route@.len(),
                    self.routes().contains_key(*key),
                    route@ == self.routes()[*key],
                    !keys.take(n).contains(*key),
                    log.no_duplicates(),
                    forall|k: u64, j: int|
                        #[trigger] log.contains((k, j)) <==> ((keys.take(n).contains(k)
                            && self.routes().contains_key(k) && 0 <= j < self.routes()[k].len()) || (k
                            == *key && 0 <= j < i)),
                decreases route.len() - i,
            {
                route[i].pipeline.close();
                proof {
                    let old_log = log;
                    assert(!old_log.contains((*key, i as int)));
                    log = log.push((*key, i as int));
                    assert forall|k: u64, j: int|
                        #[trigger] log.contains((k, j)) <==> ((keys.take(n).contains(k)
                            && self.routes().contains_key(k) && 0 <= j < self.routes()[k].len()) || (k
                            == *key && 0 <= j < i + 1)) by {
                        if log.contains((k, j)) && (k, j) != (*key, i as int) {
                            let t = choose|t: int| 0 <= t < log.len() && log[t] == (k, j);
                            assert(old_log[t] == (k, j));
                        }
                        if old_log.contains((k, j)) {
                            let t = choose|t: int| 0 <= t < old_log.len() && old_log[t] == (k, j);
                            assert(log[t] == (k, j));
                        }
                        if (k, j) == (*key, i as int) {
                            assert(log[log.len() - 1] == (k, j));
                        }
                    }
                }
                i = i + 1;
            }
            proof {
                assert forall|k: u64, j: int|
                    #[trigger] log.contains((k, j)) <==> (keys.take(n + 1).contains(k)
                        && self.routes().contains_key(k) && 0 <= j < self.routes()[k].len()) by {
                    assert(keys.take(n + 1).contains(k) <==> (keys.take(n).contains(k) || k
                        == *key)) by {
                        if keys.take(n + 1).contains(k) && k != *key {
                            let t = choose|t: int| 0 <= t < n + 1 && #[trigger] keys.take(n + 1)[t] == k;
                            assert(keys.take(n)[t] == k);
                        }
                        if keys.take(n).contains(k) {
                            let t = choose|t: int| 0 <= t < n && #[trigger] keys.take(n)[t] == k;
                            assert(keys.take(n + 1)[t] == k);
                        }
                        if k == *key {
                            assert(keys.take(n + 1)[n] == k);
                        }
                    }
                }
                assert forall|k: u64, j: int|
                    self.routes().contains_key(k) && 0 <= j < self.routes()[k].len() implies (
                    #[trigger] log.contains((k, j)) || exists|t: int|
                        n + 1 <= t < keys.len() && #[trigger] keys[t] == k) by {
                    if !log.contains((k, j)) && k != *key {
                        if keys.take(n).contains(k) {
                        } else {
                            assert(keys.to_set().contains(k));
                            let t = choose|t: int| 0 <= t < keys.len() && #[trigger] keys[t] == k;
                            if t < n {
                                assert(keys.take(n)[t] == k);
                            }
                            assert(t != n);
                        }
                    }
                }
            }
        }
        Ghost(log)
    }
}

} // verus!
