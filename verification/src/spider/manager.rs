use crossbeam::queue::ArrayQueue;
use dashmap::DashSet;
use vstd::prelude::*;
use vstd::string::StringExecFns;

use crate::errors::EngineError;
use crate::request::{IronRequest, Request};
use crate::response::Response;
use crate::scheduler::scheduler::{Scheduler, SchedulerError};
use crate::spider::spider::{Spider, SpiderResult, SpiderState};
use crate::spider::stat::{SpiderManagerStats, SpiderManagerStatsTracker};
use crate::utils::{decimal, u64_to_decimal, wrap_add, wrap_dec, wrap_inc};

verus! {

broadcast use {
    vstd::set::group_set_axioms,
    vstd::set_lib::group_set_lib_default,
};

#[verifier::external_type_specification]
#[verifier::external_body]
#[verifier::reject_recursive_types(T)]
pub struct ExArrayQueue<T>(ArrayQueue<T>);

#[verifier::external_type_specification]
#[verifier::external_body]
#[verifier::reject_recursive_types(K)]
#[verifier::reject_recursive_types(S)]
pub struct ExDashSet<K, S>(DashSet<K, S>);

/// The ids in a crossbeam `ArrayQueue`, from the head (next to pop) to the tail.
pub uninterp spec fn array_queue_items(q: ArrayQueue<u64>) -> Seq<u64>;

/// The capacity a crossbeam `ArrayQueue` was made with.
pub uninterp spec fn array_queue_capacity(q: ArrayQueue<u64>) -> nat;

/// The ids in a dashmap `DashSet`.
pub uninterp spec fn dash_set_keys(s: DashSet<u64>) -> Set<u64>;

/// `ArrayQueue::new(cap)`: an empty queue of that capacity. It panics on a capacity of zero
/// and on one whose next power of two above it overflows, which `requires` leaves out.
#[verifier::external_body]
fn array_queue_new(cap: usize) -> (q: ArrayQueue<u64>)
    requires
        1 <= cap <= usize::MAX / 2,
    ensures
        array_queue_items(q) == Seq::<u64>::empty(),
        array_queue_capacity(q) == cap,
{
    ArrayQueue::new(cap)
}

/// `ArrayQueue::push`: appends at the tail, or hands the value back when the queue is full.
#[verifier::external_body]
fn array_queue_push(q: &mut ArrayQueue<u64>, value: u64) -> (r: Result<(), u64>)
    ensures
        array_queue_items(*old(q)).len() < array_queue_capacity(*old(q)) ==> r is Ok
            && array_queue_items(*final(q)) == array_queue_items(*old(q)).push(value)
            && array_queue_capacity(*final(q)) == array_queue_capacity(*old(q)),
        array_queue_items(*old(q)).len() >= array_queue_capacity(*old(q)) ==> (r matches Err(v) && v == value)
            && array_queue_items(*final(q)) == array_queue_items(*old(q))
            && array_queue_capacity(*final(q)) == array_queue_capacity(*old(q)),
{
    q.push(value)
}

/// `ArrayQueue::pop`: takes the value at the head, if any.
#[verifier::external_body]
fn array_queue_pop(q: &mut ArrayQueue<u64>) -> (r: Option<u64>)
    ensures
        array_queue_items(*old(q)).len() == 0 ==> r is None && array_queue_items(*final(q))
            == array_queue_items(*old(q)) && array_queue_capacity(*final(q))
            == array_queue_capacity(*old(q)),
        array_queue_items(*old(q)).len() > 0 ==> r == Some(array_queue_items(*old(q))[0])
            && array_queue_items(*final(q)) == array_queue_items(*old(q)).drop_first()
            && array_queue_capacity(*final(q)) == array_queue_capacity(*old(q)),
{
    q.pop()
}

/// `ArrayQueue::len`: the number of values in the queue.
#[verifier::external_body]
fn array_queue_len(q: &ArrayQueue<u64>) -> (n: usize)
    ensures
        n == array_queue_items(*q).len(),
{
    q.len()
}

/// `DashSet::new()`: an empty set.
#[verifier::external_body]
fn dash_set_new() -> (s: DashSet<u64>)
    ensures
        dash_set_keys(s) == Set::<u64>::empty(),
{
    DashSet::new()
}

/// `DashSet::insert`: adds the key; true when it was not there before.
#[verifier::external_body]
fn dash_set_insert(s: &mut DashSet<u64>, key: u64) -> (added: bool)
    ensures
        dash_set_keys(*final(s)) == dash_set_keys(*old(s)).insert(key),
        added == !dash_set_keys(*old(s)).contains(key),
{
    s.insert(key)
}

/// `DashSet::remove`: takes the key out; gives it back when it was there.
#[verifier::external_body]
fn dash_set_remove(s: &mut DashSet<u64>, key: u64) -> (r: Option<u64>)
    ensures
        dash_set_keys(*final(s)) == dash_set_keys(*old(s)).remove(key),
        r == (if dash_set_keys(*old(s)).contains(key) {
            Some(key)
        } else {
            None
        }),
{
    s.remove(&key)
}

/// `DashSet::contains`.
#[verifier::external_body]
fn dash_set_contains(s: &DashSet<u64>, key: u64) -> (b: bool)
    ensures
        b == dash_set_keys(*s).contains(key),
{
    s.contains(&key)
}

/// The keys of a `DashSet` through `DashSet::iter`, in the order the iteration gives them:
/// each key once; the order itself is not stated.
#[verifier::external_body]
fn dash_set_to_vec(s: &DashSet<u64>) -> (v: Vec<u64>)
    ensures
        v@.no_duplicates(),
        v@.to_set() == dash_set_keys(*s),
{
    s.iter().map(|k| *k).collect()
}

/// When the scheduler holds more requests than this, no new spider is started.
pub const SCHEDULER_HOLDING_THRESOLD: u64 = 50;

/// `state` after `num` more requests were started.
pub open spec fn started_state(state: SpiderState, num: usize) -> SpiderState {
    SpiderState {
        in_flight_requests: wrap_add(state.in_flight_requests, num),
        created_requests: wrap_add(state.created_requests, num),
        ..state
    }
}

/// A spider with the id the manager gave it and its bookkeeping.
pub struct RegisteredSpider<S> {
    id: u64,
    inner: S,
    state: SpiderState,
}

impl<S> RegisteredSpider<S> {
    pub closed spec fn spec_id(&self) -> u64 {
        self.id
    }

    pub closed spec fn spec_inner(&self) -> S {
        self.inner
    }

    pub closed spec fn spec_state(&self) -> SpiderState {
        self.state
    }

    /// The same spider with another bookkeeping.
    pub closed spec fn with_state(self, state: SpiderState) -> Self {
        RegisteredSpider { state, ..self }
    }

    pub fn new(id: u64, inner: S) -> (r: Self)
        ensures
            r.spec_id() == id,
            r.spec_inner() == inner,
            r.spec_state() == (SpiderState {
                in_flight_requests: 0,
                in_flight_parse: 0,
                created_requests: 0,
            }),
    {
        RegisteredSpider { id, inner, state: SpiderState::new() }
    }

    pub fn id(&self) -> (id: u64)
        ensures
            id == self.spec_id(),
    {
        self.id
    }

    pub fn inner(&self) -> (s: &S)
        ensures
            *s == self.spec_inner(),
    {
        &self.inner
    }

    /// Attaches a request to this spider.
    pub fn make_request(&self, request: Request) -> (r: IronRequest)
        ensures
            r == (IronRequest { spider_id: self.spec_id(), request }),
    {
        IronRequest { spider_id: self.id, request }
    }

    /// `num` more requests of this spider are on their way.
    pub fn request_started(&mut self, num: usize)
        ensures
            *final(self) == old(self).with_state(started_state(old(self).spec_state(), num)),
    {
        let f = self.state.in_flight_requests;
        self.state.in_flight_requests = if num > usize::MAX - f {
            num - (usize::MAX - f) - 1
        } else {
            f + num
        };
        let c = self.state.created_requests;
        self.state.created_requests = if num > usize::MAX - c {
            num - (usize::MAX - c) - 1
        } else {
            c + num
        };
    }

    /// One request of this spider is done.
    pub fn request_finished(&mut self)
        ensures
            *final(self) == old(self).with_state(
                SpiderState {
                    in_flight_requests: wrap_dec(old(self).spec_state().in_flight_requests),
                    ..old(self).spec_state()
                },
            ),
    {
        self.state.in_flight_requests = if self.state.in_flight_requests == 0 {
            usize::MAX
        } else {
            self.state.in_flight_requests - 1
        };
    }

    pub fn is_activated(&self) -> (b: bool)
        ensures
            b == self.spec_state().spec_is_activated(),
    {
        self.state.is_activated()
    }
}


impl<S: Spider> RegisteredSpider<S> {
    /// Calls the spider's close hook; the result is the id of the spider closed.
    fn close_hook(&self) -> (closed: Ghost<u64>)
        ensures
            closed@ == self.spec_id(),
    {
        self.inner.close();
        Ghost(self.id)
    }
}

/// The state of a spider manager as the contracts speak of it.
pub struct SpiderManagerView<S> {
    /// The id of the first registered spider.
    pub first_id: u64,
    /// The registered spiders; the spider with id `first_id + i` is at index `i`.
    pub spiders: Seq<RegisteredSpider<S>>,
    /// The ids of the spiders not started yet, next to start first.
    pub pending: Seq<u64>,
    /// The ids of the spiders at work.
    pub working: Set<u64>,
    pub active_spiders: usize,
    pub dropped_responses: usize,
}

impl<S> SpiderManagerView<S> {
    pub open spec fn spider(self, id: u64) -> RegisteredSpider<S> {
        self.spiders[id - self.first_id]
    }

    /// Whether `id` names a registered spider.
    pub open spec fn has_spider(self, id: u64) -> bool {
        self.first_id <= id < self.first_id + self.spiders.len()
    }

    /// `num` more requests of spider `id` are on their way.
    pub open spec fn requests_started(self, id: u64, num: usize) -> Self {
        SpiderManagerView {
            spiders: self.spiders.update(
                id - self.first_id,
                self.spider(id).with_state(started_state(self.spider(id).spec_state(), num)),
            ),
            ..self
        }
    }

    /// Spider `id` starts `num` requests, and joins the working spiders if that makes it active.
    pub open spec fn activate(self, id: u64, num: usize) -> Self {
        let s = self.requests_started(id, num);
        if s.spider(id).spec_state().spec_is_activated() {
            SpiderManagerView {
                working: s.working.insert(id),
                active_spiders: wrap_inc(s.active_spiders),
                ..s
            }
        } else {
            s
        }
    }

    /// Spider `id` leaves the working spiders.
    pub open spec fn deactivate(self, id: u64) -> Self {
        SpiderManagerView {
            working: self.working.remove(id),
            active_spiders: wrap_dec(self.active_spiders),
            ..self
        }
    }

    /// `kept` more requests of spider `id` are on their way, when there is at least one.
    pub open spec fn started_if(self, id: u64, kept: nat) -> Self {
        if kept > 0 {
            self.requests_started(id, kept as usize)
        } else {
            self
        }
    }

    /// The next pending spider was taken out of the queue.
    pub open spec fn pop_pending(self) -> Self {
        SpiderManagerView { pending: self.pending.drop_first(), ..self }
    }
}

/// The requests of spider `id`, attached to it.
pub open spec fn spider_requests(id: u64, requests: Seq<Request>) -> Seq<IronRequest> {
    requests.map_values(|r: Request| IronRequest { spider_id: id, request: r })
}

/// The name that `Debug` gives a scheduler error.
pub open spec fn scheduler_error_name(e: SchedulerError) -> Seq<char> {
    match e {
        SchedulerError::ChannelClosed => "ChannelClosed"@,
        SchedulerError::QueueFull => "QueueFull"@,
    }
}

/// The message of a failed seeding of spider `id`.
pub open spec fn seed_error_text(id: u64, e: SchedulerError) -> Seq<char> {
    "Failed to seed request(s) of spider #"@ + decimal(id as nat) + ", error: "@
        + scheduler_error_name(e)
}

fn scheduler_error_debug(e: SchedulerError) -> (s: &'static str)
    ensures
        s@ == scheduler_error_name(e),
{
    match e {
        SchedulerError::ChannelClosed => "ChannelClosed",
        SchedulerError::QueueFull => "QueueFull",
    }
}

/// The scheduler `Sch` accepts the first `j` of `all`, handed to it one after the other
/// while `q0` waits in it.
pub open spec fn accepted_prefix<Sch: Scheduler>(
    q0: Seq<IronRequest>,
    all: Seq<IronRequest>,
    j: int,
) -> bool {
    forall|k: int| 0 <= k < j ==> #[trigger] Sch::accepts(q0 + all.take(k), all[k])
}

/// Handed `all` one after the other while `q0` waits in it, the scheduler `Sch` accepts the
/// requests before the one at `j` and refuses that one.
pub open spec fn refused_at<Sch: Scheduler>(
    q0: Seq<IronRequest>,
    all: Seq<IronRequest>,
    j: int,
) -> bool {
    &&& 0 <= j < all.len()
    &&& accepted_prefix::<Sch>(q0, all, j)
    &&& !Sch::accepts(q0 + all.take(j), all[j])
}

/// What seeding spider `id` with its start requests `reqs` leads to, the scheduler's queue
/// going from `q0` to `q1`. On success the spider is activated with their number, when there
/// is at least one; on an error the manager is unchanged and the error says which spider and
/// why. Where the scheduler describes its queue: the requests are handed to it in order and
/// the seeding stops at the first one it refuses, so it succeeds exactly when it accepts
/// them all, which then wait behind `q0` in order; on an error the refused request is the one
/// at some `j`, the requests before it wait behind `q0`, and the error names the refusal.
pub open spec fn seed_outcome<S, Sch: Scheduler>(
    before: SpiderManagerView<S>,
    after: SpiderManagerView<S>,
    id: u64,
    reqs: Seq<Request>,
    q0: Seq<IronRequest>,
    q1: Seq<IronRequest>,
    r: Result<(), EngineError>,
) -> bool {
    let all = spider_requests(id, reqs);
    &&& Sch::models_queue() ==> (r is Ok <==> accepted_prefix::<Sch>(q0, all, all.len() as int))
    &&& match r {
        Ok(_) => {
            &&& Sch::models_queue() ==> q1 == q0 + all
            &&& after == (if reqs.len() > 0 {
                before.activate(id, reqs.len() as usize)
            } else {
                before
            })
        },
        Err(e) => {
            &&& after == before
            &&& Sch::models_queue() ==> exists|j: int|
                #[trigger] refused_at::<Sch>(q0, all, j) && q1 == q0 + all.take(j) && (
                e matches EngineError::InitializationError(msg) && msg@ == seed_error_text(
                    id,
                    Sch::refusal(q0 + all.take(j), all[j]),
                ))
            &&& exists|se: SchedulerError|
                e matches EngineError::InitializationError(msg) && msg@ == #[trigger] seed_error_text(
                    id,
                    se,
                )
        },
    }
}

/// The queue of the scheduler `Sch` after `reqs` were handed to it one after the other while
/// `q0` waited in it: each request it accepts joins the queue, in order.
pub open spec fn fed_queue<Sch: Scheduler>(q0: Seq<IronRequest>, reqs: Seq<IronRequest>) -> Seq<
    IronRequest,
>
    decreases reqs.len(),
{
    if reqs.len() == 0 {
        q0
    } else {
        let q = fed_queue::<Sch>(q0, reqs.drop_last());
        if Sch::accepts(q, reqs.last()) {
            q.push(reqs.last())
        } else {
            q
        }
    }
}

/// A scheduler that accepts every request queues all that are handed to it, in order.
pub proof fn lemma_fed_queue_accepting_all<Sch: Scheduler>(
    q0: Seq<IronRequest>,
    reqs: Seq<IronRequest>,
)
    requires
        forall|q: Seq<IronRequest>, r: IronRequest| #[trigger] Sch::accepts(q, r),
    ensures
        fed_queue::<Sch>(q0, reqs) == q0 + reqs,
    decreases reqs.len(),
{
    if reqs.len() > 0 {
        lemma_fed_queue_accepting_all::<Sch>(q0, reqs.drop_last());
        assert(q0 + reqs.drop_last() + seq![reqs.last()] =~= q0 + reqs);
        assert((q0 + reqs.drop_last()).push(reqs.last()) =~= q0 + reqs);
    } else {
        assert(q0 + reqs =~= q0);
    }
}

/// What handing the requests `reqs` of a parsed response of spider `id` to the scheduler
/// leads to: each one is handed over in order, those the scheduler accepts are counted as
/// started requests of the spider, those it refuses are dropped. Where the scheduler
/// describes its queue, the accepted ones join it in order and their number is how much the
/// queue grew. Requests of an unknown spider are all dropped.
pub open spec fn requests_outcome<S, Sch: Scheduler>(
    before: SpiderManagerView<S>,
    after: SpiderManagerView<S>,
    id: u64,
    reqs: Seq<Request>,
    q0: Seq<IronRequest>,
    q1: Seq<IronRequest>,
) -> bool {
    if before.has_spider(id) {
        exists|kept: nat|
            kept <= reqs.len() && (Sch::models_queue() ==> q1 == fed_queue::<Sch>(
                q0,
                spider_requests(id, reqs),
            ) && q1.len() == q0.len() + kept) && after == #[trigger] before.started_if(id, kept)
    } else {
        after == before && q1 == q0
    }
}

/// Starts the spiders one by one, feeds the scheduler with their requests, hands what they
/// parse to the pipelines, and keeps track of which spiders are at work.
pub struct SpiderManager<S> {
    first_id: u64,
    pending_spiders: ArrayQueue<u64>,
    registered_spiders: Vec<RegisteredSpider<S>>,
    working_spiders: DashSet<u64>,
    stats_tracker: SpiderManagerStatsTracker,
}

impl<S: Spider> SpiderManager<S> {
    pub closed spec fn model(&self) -> SpiderManagerView<S> {
        SpiderManagerView {
            first_id: self.first_id,
            spiders: self.registered_spiders@,
            pending: array_queue_items(self.pending_spiders),
            working: dash_set_keys(self.working_spiders),
            active_spiders: self.stats_tracker.spec_active_spiders(),
            dropped_responses: self.stats_tracker.spec_dropped_responses(),
        }
    }

    /// The bookkeeping agrees with itself: ids are positions, each spider is pending,
    /// working, or closed, and the active count is the number of working spiders.
    pub closed spec fn wf(&self) -> bool {
        let m = self.model();
        let n = m.spiders.len();
        &&& n == self.stats_tracker.spec_spider_counts()
        &&& n <= usize::MAX / 2
        &&& m.first_id + n <= u64::MAX
        &&& forall|i: int| 0 <= i < n ==> #[trigger] m.spiders[i].spec_id() == m.first_id + i
        &&& m.pending.no_duplicates()
        &&& forall|i: int| 0 <= i < m.pending.len() ==> m.has_spider(#[trigger] m.pending[i])
        &&& m.working.finite()
        &&& forall|id: u64| #[trigger]
            m.working.contains(id) ==> m.has_spider(id) && !m.pending.contains(id)
        &&& m.active_spiders == m.working.len()
        &&& m.pending.len() + m.working.len() <= n
    }

    /// Every spider is pending, working, or closed, and only one of these: no id is both
    /// pending and working, the ids are those of registered spiders, and the active count
    /// is the number of working spiders.
    pub proof fn lemma_spiders_partition(&self)
        requires
            self.wf(),
        ensures
            self.model().pending.no_duplicates(),
            forall|i: int|
                0 <= i < self.model().pending.len() ==> self.model().has_spider(
                    #[trigger] self.model().pending[i],
                ),
            forall|id: u64| #[trigger]
                self.model().working.contains(id) ==> self.model().has_spider(id)
                    && !self.model().pending.contains(id),
            self.model().active_spiders == self.model().working.len(),
            self.model().pending.len() + self.model().working.len() <= self.model().spiders.len(),
            forall|i: int|
                0 <= i < self.model().spiders.len() ==> #[trigger] self.model().spiders[i].spec_id()
                    == self.model().first_id + i,
    {
    }

    /// Registers the spiders with ids `first_id`, `first_id + 1`, ... in the order given; all
    /// of them wait to start.
    pub fn new(spiders: Vec<S>, first_id: u64) -> (m: Self)
        requires
            1 <= spiders.len() <= usize::MAX / 2,
            first_id + spiders.len() <= u64::MAX,
        ensures
            m.wf(),
            m.model().first_id == first_id,
            m.model().spiders.len() == spiders.len(),
            forall|i: int|
                0 <= i < spiders.len() ==> (#[trigger] m.model().spiders[i]).spec_inner()
                    == spiders[i] && m.model().spiders[i].spec_state() == (SpiderState {
                    in_flight_requests: 0,
                    in_flight_parse: 0,
                    created_requests: 0,
                }),
            m.model().pending == Seq::new(spiders.len() as nat, |i: int| (first_id + i) as u64),
            m.model().working == Set::<u64>::empty(),
            m.model().active_spiders == 0,
            m.model().dropped_responses == 0,
    {
        let n = spiders.len();
        let ghost input = spiders@;
        let mut rest = spiders;
        let mut registered: Vec<RegisteredSpider<S>> = Vec::new();
        let mut pending = array_queue_new(n);
        let mut i: usize = 0;
        while i < n
            invariant
                n == input.len(),
                1 <= n <= usize::MAX / 2,
                first_id + n <= u64::MAX,
                0 <= i <= n,
                rest@ == input.skip(i as int),
                registered@.len() == i,
                forall|j: int|
                    0 <= j < i ==> (#[trigger] registered@[j]).spec_id() == first_id + j
                        && registered@[j].spec_inner() == input[j]
                        && registered@[j].spec_state() == (SpiderState {
                        in_flight_requests: 0,
                        in_flight_parse: 0,
                        created_requests: 0,
                    }),
                array_queue_capacity(pending) == n,
                array_queue_items(pending) == Seq::new(i as nat, |j: int| (first_id + j) as u64),
            decreases n - i,
        {
            assert(rest@[0] == input[i as int]);
            let spider = rest.remove(0);
            assert(rest@ =~= input.skip(i + 1));
            let id = first_id + i as u64;
            registered.push(RegisteredSpider::new(id, spider));
            let pushed = array_queue_push(&mut pending, id);
            assert(array_queue_items(pending) =~= Seq::new(
                (i + 1) as nat,
                |j: int| (first_id + j) as u64,
            ));
            i = i + 1;
        }
        let m = SpiderManager {
            first_id,
            pending_spiders: pending,
            registered_spiders: registered,
            working_spiders: dash_set_new(),
            stats_tracker: SpiderManagerStatsTracker::new(n),
        };
        proof {
            let p = m.model().pending;
            assert(p.no_duplicates());
            assert forall|id: u64| #[trigger] m.model().working.contains(id) implies false by {}
        }
        m
    }

    /// The spider with id `id`, if there is one.
    pub fn get_spider(&self, id: u64) -> (r: Option<&RegisteredSpider<S>>)
        requires
            self.wf(),
        ensures
            self.model().has_spider(id) ==> r == Some(&self.model().spider(id)),
            !self.model().has_spider(id) ==> r is None,
    {
        if self.first_id <= id && id - self.first_id < self.registered_spiders.len() as u64 {
            Some(&self.registered_spiders[(id - self.first_id) as usize])
        } else {
            None
        }
    }

    /// Spider `id` starts `num` requests and, if that makes it active, joins the working ones.
    fn activate_spider(&mut self, id: u64, num: usize)
        requires
            old(self).wf(),
            old(self).model().has_spider(id),
            !old(self).model().working.contains(id),
            !old(self).model().pending.contains(id),
            old(self).model().pending.len() + old(self).model().working.len() < old(
                self,
            ).model().spiders.len(),
        ensures
            final(self).wf(),
            final(self).model() == old(self).model().activate(id, num),
    {
        let idx = (id - self.first_id) as usize;
        self.registered_spiders[idx].request_started(num);
        assert(self.model() == old(self).model().requests_started(id, num));
        if self.registered_spiders[idx].is_activated() {
            self.stats_tracker.activate_one_spider();
            dash_set_insert(&mut self.working_spiders, id);
        }
        proof {
            let m = self.model();
            assert forall|i: int| 0 <= i < m.spiders.len() implies #[trigger] m.spiders[i].spec_id()
                == m.first_id + i by {
                assert(old(self).model().spiders[i].spec_id() == m.first_id + i);
            }
        }
    }

    /// Queues the start requests of spider `id`, in order, and activates the spider when there
    /// was at least one; stops at the first request that the scheduler refuses.
    pub fn seed_spider<Sch: Scheduler>(
        &mut self,
        spider_id: u64,
        start_requests: Vec<Request>,
        scheduler: &mut Sch,
    ) -> (r: Result<(), EngineError>)
        requires
            old(self).wf(),
            old(self).model().has_spider(spider_id),
            !old(self).model().working.contains(spider_id),
            !old(self).model().pending.contains(spider_id),
            old(self).model().pending.len() + old(self).model().working.len() < old(
                self,
            ).model().spiders.len(),
        ensures
            final(self).wf(),
            seed_outcome::<S, Sch>(
                old(self).model(),
                final(self).model(),
                spider_id,
                start_requests@,
                old(scheduler).queued(),
                final(scheduler).queued(),
                r,
            ),
    {
        let n = start_requests.len();
        let ghost all = spider_requests(spider_id, start_requests@);
        let ghost q0 = scheduler.queued();
        let mut rest = start_requests;
        let mut i: usize = 0;
        assert(all.take(0) =~= Seq::<IronRequest>::empty());
        while i < n
            invariant
                n == all.len(),
                all == spider_requests(spider_id, start_requests@),
                0 <= i <= n,
                rest@ == start_requests@.skip(i as int),
                Sch::models_queue() ==> scheduler.queued() == q0 + all.take(i as int),
                Sch::models_queue() ==> accepted_prefix::<Sch>(q0, all, i as int),
                q0 == old(scheduler).queued(),
                self.wf(),
                self.model() == old(self).model(),
            decreases n - i,
        {
            let request = rest.remove(0);
            let iron = IronRequest { spider_id, request };
            assert(iron == all[i as int]);
            let ghost before = scheduler.queued();
            match scheduler.enqueue(iron) {
                Ok(_) => {
                    proof {
                        if Sch::models_queue() {
                            assert forall|k: int| 0 <= k < i + 1 implies #[trigger] Sch::accepts(
                                q0 + all.take(k),
                                all[k],
                            ) by {
                                if k < i {
                                    assert(accepted_prefix::<Sch>(q0, all, i as int));
                                } else {
                                    assert(k == i);
                                }
                            }
                        }
                    }
                },
                Err(e) => {
                    proof {
                        reveal_strlit("Failed to seed request(s) of spider #");
                        reveal_strlit(", error: ");
                    }
                    let digits = u64_to_decimal(spider_id);
                    let msg = String::from_str("Failed to seed request(s) of spider #").concat(
                        digits.as_str(),
                    ).concat(", error: ").concat(scheduler_error_debug(e));
                    let err = EngineError::InitializationError(msg);
                    assert(msg@ == seed_error_text(spider_id, e));
                    proof {
                        if Sch::models_queue() {
                            assert(refused_at::<Sch>(q0, all, i as int));
                            assert(!accepted_prefix::<Sch>(q0, all, all.len() as int)) by {
                                assert(!Sch::accepts(q0 + all.take(i as int), all[i as int]));
                            }
                        }
                    }
                    return Err(err);
                },
            }
            assert(all.take(i + 1) =~= all.take(i as int).push(all[i as int]));
            assert(q0 + all.take(i + 1) =~= (q0 + all.take(i as int)).push(all[i as int]));
            assert(rest@ =~= start_requests@.skip(i + 1));
            i = i + 1;
        }
        assert(all.take(n as int) =~= all);
        if n > 0 {
            self.activate_spider(spider_id, n);
        }
        Ok(())
    }

    /// Starts the next pending spider, unless the scheduler already holds more than
    /// `SCHEDULER_HOLDING_THRESOLD` requests or no spider waits.
    pub fn try_activate_pending_spider<Sch: Scheduler>(&mut self, scheduler: &mut Sch) -> (r:
        Result<(), EngineError>)
        requires
            old(self).wf(),
        ensures
            final(self).wf(),
            ({
                let c = old(scheduler).queued().len();
                let unchanged = r is Ok && final(self).model() == old(self).model()
                    && *final(scheduler) == *old(scheduler);
                let id = old(self).model().pending[0];
                let seeded = old(self).model().pending.len() > 0 && exists|reqs: Seq<Request>|
                    old(self).model().spider(id).spec_inner().starts_with(reqs)
                        && #[trigger] seed_outcome::<S, Sch>(
                        old(self).model().pop_pending(),
                        final(self).model(),
                        id,
                        reqs,
                        old(scheduler).queued(),
                        final(scheduler).queued(),
                        r,
                    );
                &&& unchanged || seeded
                &&& old(self).model().pending.len() == 0 ==> unchanged
                &&& Sch::models_queue() && SCHEDULER_HOLDING_THRESOLD < c <= u64::MAX ==> unchanged
                &&& Sch::models_queue() && c <= SCHEDULER_HOLDING_THRESOLD && old(
                    self,
                ).model().pending.len() > 0 ==> seeded
            }),
    {
        let pending_request_count = scheduler.count();
        if pending_request_count > SCHEDULER_HOLDING_THRESOLD {
            return Ok(());
        }
        let id = match array_queue_pop(&mut self.pending_spiders) {
            Some(id) => id,
            None => return Ok(()),
        };
        proof {
            let p = old(self).model().pending;
            assert(p[0] == id);
            assert(p.contains(id));
            assert(!self.model().pending.contains(id)) by {
                if self.model().pending.contains(id) {
                    let k = choose|k: int| 0 <= k < self.model().pending.len() && self.model().pending[k] == id;
                    assert(p[k + 1] == id);
                }
            }
            assert(self.model() == old(self).model().pop_pending());
        }
        let start_requests = self.registered_spiders[(id - self.first_id) as usize].inner.start_requests();
        let ghost reqs = start_requests@;
        let r = self.seed_spider(id, start_requests, scheduler);
        assert(old(self).model().spider(id).spec_inner().starts_with(reqs));
        r
    }

    /// Queues the requests that a parse of spider `spider_id` gave, in order, and counts those
    /// the scheduler accepted as started requests of that spider.
    pub fn handle_requests_result<Sch: Scheduler>(
        &mut self,
        requests: Vec<Request>,
        spider_id: u64,
        scheduler: &mut Sch,
    )
        requires
            old(self).wf(),
        ensures
            final(self).wf(),
            requests_outcome::<S, Sch>(
                old(self).model(),
                final(self).model(),
                spider_id,
                requests@,
                old(scheduler).queued(),
                final(scheduler).queued(),
            ),
    {
        if spider_id < self.first_id || spider_id - self.first_id >= self.registered_spiders.len()
            as u64 {
            return ;
        }
        let n = requests.len();
        let ghost all = spider_requests(spider_id, requests@);
        let ghost q0 = scheduler.queued();
        let mut rest = requests;
        let mut queued_requests: usize = 0;
        let mut i: usize = 0;
        assert(all.take(0) =~= Seq::<IronRequest>::empty());
        while i < n
            invariant
                n == all.len(),
                all == spider_requests(spider_id, requests@),
                0 <= i <= n,
                rest@ == requests@.skip(i as int),
                queued_requests <= i,
                Sch::models_queue() ==> scheduler.queued() == fed_queue::<Sch>(
                    q0,
                    all.take(i as int),
                ),
                Sch::models_queue() ==> scheduler.queued().len() == q0.len() + queued_requests,
                q0 == old(scheduler).queued(),
                self.wf(),
                self.model() == old(self).model(),
            decreases n - i,
        {
            let request = rest.remove(0);
            let iron = IronRequest { spider_id, request };
            assert(iron == all[i as int]);
            assert(all.take(i + 1).drop_last() =~= all.take(i as int));
            assert(all.take(i + 1).last() == all[i as int]);
            match scheduler.enqueue(iron) {
                Ok(_) => {
                    queued_requests = queued_requests + 1;
                },
                Err(_) => {},
            }
            assert(rest@ =~= requests@.skip(i + 1));
            i = i + 1;
        }
        assert(all.take(n as int) =~= all);
        if queued_requests > 0 {
            let idx = (spider_id - self.first_id) as usize;
            self.registered_spiders[idx].request_started(queued_requests);
            proof {
                let m = self.model();
                assert(m == old(self).model().requests_started(spider_id, queued_requests));
                assert forall|i: int| 0 <= i < m.spiders.len() implies #[trigger] m.spiders[i].spec_id()
                    == m.first_id + i by {
                    assert(old(self).model().spiders[i].spec_id() == m.first_id + i);
                }
            }
        }
        assert(self.model() == old(self).model().started_if(spider_id, queued_requests as nat));
    }

    /// Parses a response with the spider that made its request; `None` when no registered
    /// spider has the id that the request carries.
    pub fn parse_response(&self, response: Response) -> (r: Option<SpiderResult<S::Item>>)
        requires
            self.wf(),
        ensures
            r is None <==> !self.model().has_spider(response.request.spider_id),
            r matches Some(x) ==> self.model().spider(response.request.spider_id).spec_inner().parses(
                response,
                x,
            ),
    {
        let id = response.request.spider_id;
        if self.first_id <= id && id - self.first_id < self.registered_spiders.len() as u64 {
            let result = self.registered_spiders[(id - self.first_id) as usize].inner.parse(response);
            Some(result)
        } else {
            None
        }
    }

    /// Acts on what a spider made of a response: requests go to the scheduler, items are
    /// handed back for the pipelines, and a parse that gave nothing counts as a dropped
    /// response.
    pub fn handler_spider_result<Sch: Scheduler>(
        &mut self,
        response: &Response,
        scheduler: &mut Sch,
        spider_result: SpiderResult<S::Item>,
    ) -> (items: Vec<S::Item>)
        requires
            old(self).wf(),
        ensures
            final(self).wf(),
            ({
                let id = response.request.spider_id;
                match spider_result {
                    SpiderResult::Requests(requests) => items@.len() == 0 && requests_outcome::<S, Sch>(
                        old(self).model(),
                        final(self).model(),
                        id,
                        requests@,
                        old(scheduler).queued(),
                        final(scheduler).queued(),
                    ),
                    SpiderResult::Items(found) => items@ == found@ && final(self).model() == old(
                        self,
                    ).model() && *final(scheduler) == *old(scheduler),
                    SpiderResult::Both { requests, items: found } => items@ == found@
                        && requests_outcome::<S, Sch>(
                        old(self).model(),
                        final(self).model(),
                        id,
                        requests@,
                        old(scheduler).queued(),
                        final(scheduler).queued(),
                    ),
                    SpiderResult::Nothing => items@.len() == 0 && final(self).model() == (
                    SpiderManagerView {
                        dropped_responses: wrap_inc(old(self).model().dropped_responses),
                        ..old(self).model()
                    }) && *final(scheduler) == *old(scheduler),
                }
            }),
    {
        let id = response.request.spider_id;
        match spider_result {
            SpiderResult::Requests(requests) => {
                self.handle_requests_result(requests, id, scheduler);
                Vec::new()
            },
            SpiderResult::Items(items) => items,
            SpiderResult::Both { requests, items } => {
                self.handle_requests_result(requests, id, scheduler);
                items
            },
            SpiderResult::Nothing => {
                self.stats_tracker.drop_one_response();
                Vec::new()
            },
        }
    }

    /// Spider `id` leaves the working spiders and is closed; the result is the id of the
    /// spider whose close hook was called.
    fn deactivate_spider(&mut self, id: u64) -> (closed: Ghost<u64>)
        requires
            old(self).wf(),
            old(self).model().working.contains(id),
        ensures
            final(self).wf(),
            final(self).model() == old(self).model().deactivate(id),
            closed@ == id,
    {
        self.stats_tracker.deactivate_one_spider();
        dash_set_remove(&mut self.working_spiders, id);
        let closed = self.registered_spiders[(id - self.first_id) as usize].close_hook();
        closed
    }

    /// Closes the working spiders that have nothing in flight any more. The result lists the
    /// spiders whose close hook was called: each working spider that is no longer active, once,
    /// and no other.
    pub fn deactivate_idle_spiders(&mut self) -> (closed: Ghost<Seq<u64>>)
        requires
            old(self).wf(),
        ensures
            final(self).wf(),
            closed@.no_duplicates(),
            closed@.to_set() == old(self).model().working.filter(
                |id: u64| !old(self).model().spider(id).spec_state().spec_is_activated(),
            ),
            final(self).model() == (SpiderManagerView {
                working: old(self).model().working.filter(
                    |id: u64| old(self).model().spider(id).spec_state().spec_is_activated(),
                ),
                active_spiders: old(self).model().working.filter(
                    |id: u64| old(self).model().spider(id).spec_state().spec_is_activated(),
                ).len() as usize,
                ..old(self).model()
            }),
    {
        let n = self.registered_spiders.len();
        let ghost m0 = self.model();
        let ghost keep = |id: u64| m0.spider(id).spec_state().spec_is_activated();
        let ghost mut log: Seq<u64> = Seq::empty();
        let mut i: usize = 0;
        while i < n
            invariant
                n == m0.spiders.len(),
                0 <= i <= n,
                self.wf(),
                self.model().spiders == m0.spiders,
                self.model().pending == m0.pending,
                self.model().dropped_responses == m0.dropped_responses,
                self.model().first_id == m0.first_id,
                self.model().working == m0.working.filter(|id: u64| id >= m0.first_id + i || keep(id)),
                keep == (|id: u64| m0.spider(id).spec_state().spec_is_activated()),
                log.no_duplicates(),
                forall|t: int| 0 <= t < log.len() ==> #[trigger] log[t] < m0.first_id + i,
                log.to_set() == m0.working.filter(|x: u64| x < m0.first_id + i && !keep(x)),
            decreases n - i,
        {
            let id = self.first_id + i as u64;
            proof {
                assert(self.model().spider(id) == m0.spider(id));
            }
            let active = self.registered_spiders[i].is_activated();
            let present = dash_set_contains(&self.working_spiders, id);
            assert(id - m0.first_id == i);
            assert(self.registered_spiders@[i as int] == m0.spider(id));
            assert(keep(id) == m0.spider(id).spec_state().spec_is_activated());
            assert(active == keep(id));
            let ghost before = self.model().working;
            let ghost old_log = log;
            if !active && present {
                let c = self.deactivate_spider(id);
                proof {
                    log = log.push(c@);
                }
            }
            proof {
                assert forall|t: int| 0 <= t < log.len() implies #[trigger] log[t] < m0.first_id + i
                    + 1 by {
                    if t < old_log.len() {
                        assert(log[t] == old_log[t]);
                    }
                }
                assert(log.to_set() =~= m0.working.filter(
                    |x: u64| x < m0.first_id + i + 1 && !keep(x),
                )) by {
                    assert(present == m0.working.contains(id));
                    assert forall|x: u64| log.to_set().contains(x) <==> (m0.working.contains(x) && x
                        < m0.first_id + i + 1 && !keep(x)) by {
                        assert(old_log.to_set().contains(x) == old_log.contains(x));
                        assert(log.to_set().contains(x) == log.contains(x));
                        assert(old_log.to_set().contains(x) == (m0.working.contains(x) && x
                            < m0.first_id + i && !keep(x)));
                        if log.contains(x) && x != id {
                            let t = choose|t: int| 0 <= t < log.len() && log[t] == x;
                            assert(old_log[t] == x);
                        }
                        if old_log.contains(x) {
                            let t = choose|t: int| 0 <= t < old_log.len() && old_log[t] == x;
                            assert(log[t] == x);
                        }
                        if x == id && !active && present {
                            assert(log[log.len() - 1] == x);
                        }
                        if x == id && old_log.contains(x) {
                            let t = choose|t: int| 0 <= t < old_log.len() && old_log[t] == x;
                            assert(old_log[t] < m0.first_id + i);
                        }
                    }
                }
                assert forall|x: u64|
                    self.model().working.contains(x) <==> (m0.working.contains(x) && (x >= m0.first_id
                        + i + 1 || keep(x))) by {
                    if x == id {
                    } else {
                        assert(self.model().working.contains(x) == before.contains(x));
                    }
                }
                assert(self.model().working =~= m0.working.filter(
                    |x: u64| x >= m0.first_id + i + 1 || keep(x),
                ));
            }
            i = i + 1;
        }
        proof {
            assert forall|x: u64| m0.working.contains(x) implies x < m0.first_id + n by {}
            assert(self.model().working =~= m0.working.filter(keep));
            assert(log.to_set() =~= m0.working.filter(|x: u64| !keep(x)));
        }
        Ghost(log)
    }

    /// Closes every working spider, whatever it still has in flight. The result lists the
    /// spiders whose close hook was called: each spider working at the start, once, and no
    /// other.
    pub fn close(&mut self) -> (closed: Ghost<Seq<u64>>)
        requires
            old(self).wf(),
        ensures
            final(self).wf(),
            closed@.no_duplicates(),
            closed@.to_set() == old(self).model().working,
            final(self).model() == (SpiderManagerView {
                working: Set::<u64>::empty(),
                active_spiders: 0,
                ..old(self).model()
            }),
    {
        let spider_ids = dash_set_to_vec(&self.working_spiders);
        let ghost m0 = self.model();
        let ghost mut log: Seq<u64> = Seq::empty();
        let mut i: usize = 0;
        while i < spider_ids.len()
            invariant
                0 <= i <= spider_ids@.len(),
                log == spider_ids@.take(i as int),
                spider_ids@.no_duplicates(),
                spider_ids@.to_set() == m0.working,
                self.wf(),
                self.model().first_id == m0.first_id,
                self.model().spiders == m0.spiders,
                self.model().pending == m0.pending,
                self.model().dropped_responses == m0.dropped_responses,
                self.model().working == m0.working.difference(spider_ids@.take(i as int).to_set()),
            decreases spider_ids@.len() - i,
        {
            let id = spider_ids[i];
            proof {
                assert(spider_ids@.contains(id));
                assert(!spider_ids@.take(i as int).contains(id));
                assert(spider_ids@.take(i + 1) =~= spider_ids@.take(i as int).push(id));
            }
            let c = self.deactivate_spider(id);
            proof {
                log = log.push(c@);
                let t0 = spider_ids@.take(i as int);
                let t1 = spider_ids@.take(i + 1);
                assert forall|x: u64| t1.to_set().contains(x) <==> (t0.to_set().contains(x) || x
                    == id) by {
                    if x == id {
                        assert(t1[i as int] == id);
                    }
                    if t1.contains(x) && x != id {
                        let k = choose|k: int| 0 <= k < t1.len() && t1[k] == x;
                        assert(t0[k] == x);
                    }
                    if t0.contains(x) {
                        let k = choose|k: int| 0 <= k < t0.len() && t0[k] == x;
                        assert(t1[k] == x);
                    }
                }
                assert(self.model().working =~= m0.working.difference(t1.to_set()));
            }
            i = i + 1;
        }
        proof {
            assert(spider_ids@.take(spider_ids@.len() as int) =~= spider_ids@);
            assert(self.model().working =~= Set::<u64>::empty());
        }
        Ghost(log)
    }

    /// The manager's counters: pending, active and closed spiders add up to all of them.
    pub fn get_stats(&self) -> (s: SpiderManagerStats)
        requires
            self.wf(),
        ensures
            s.total_spiders == self.model().spiders.len(),
            s.pending_spiders == self.model().pending.len(),
            s.active_spiders == self.model().working.len(),
            s.closed_spiders == s.total_spiders - s.pending_spiders - s.active_spiders,
            s.dropped_responses == self.model().dropped_responses,
    {
        let pending = array_queue_len(&self.pending_spiders);
        self.stats_tracker.get_stats(pending)
    }
}

} // verus!
