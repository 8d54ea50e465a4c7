use std::collections::VecDeque;
use vstd::prelude::*;

use crate::request::IronRequest;
use crate::scheduler::stat::SchedulerStats;

verus! {

#[verifier::external_type_specification]
#[verifier::external_body]
pub struct ExTryRecvError(crossbeam::channel::TryRecvError);

/// `crossbeam::channel::TryRecvError::Empty`. Nothing is stated of the value: the error type
/// is opaque here.
#[verifier::external_body]
fn try_recv_empty() -> crossbeam::channel::TryRecvError {
    crossbeam::channel::TryRecvError::Empty
}

/// Why a scheduler refused a request.
#[derive(Debug, Clone, Copy, PartialEq, Eq, Structural)]
pub enum SchedulerError {
    ChannelClosed,
    QueueFull,
}

/// Holds the requests that wait to be downloaded.
///
/// An implementation that describes its waiting requests in `queued` says so through
/// `models_queue`; the contracts of the methods speak of `queued`, `accepts` and `refusal`
/// only for such an implementation.
pub trait Scheduler {
    /// Whether `queued` describes this scheduler; by default it does not.
    open spec fn models_queue() -> bool {
        false
    }

    /// The requests that wait in the scheduler, in the order they were added.
    open spec fn queued(&self) -> Seq<IronRequest> {
        Seq::empty()
    }

    /// Whether the scheduler takes `request` while `queue` waits in it; by default it takes
    /// every request.
    open spec fn accepts(queue: Seq<IronRequest>, request: IronRequest) -> bool {
        true
    }

    /// The error with which the scheduler refuses `request` while `queue` waits in it.
    open spec fn refusal(queue: Seq<IronRequest>, request: IronRequest) -> SchedulerError {
        SchedulerError::QueueFull
    }

    /// Takes out a waiting request; `None` only when no request waits.
    fn dequeue(&mut self) -> (r: Option<IronRequest>)
        ensures
            Self::models_queue() ==> (r is None <==> old(self).queued().len() == 0),
            Self::models_queue() ==> (r matches Some(req) ==> exists|i: int|
                0 <= i < old(self).queued().len() && old(self).queued()[i] == req
                    && final(self).queued() == #[trigger] old(self).queued().remove(i)),
            Self::models_queue() ==> (r is None ==> final(self).queued() == old(self).queued()),
    ;

    /// Whether no request waits.
    fn is_empty(&self) -> (b: bool)
        ensures
            Self::models_queue() ==> b == (self.queued().len() == 0),
    ;

    /// Adds a request behind the others when the scheduler accepts it; on an error, which is
    /// the scheduler's refusal, the scheduler is unchanged.
    fn enqueue(&mut self, request: IronRequest) -> (r: Result<(), SchedulerError>)
        ensures
            Self::models_queue() ==> (r is Ok <==> Self::accepts(old(self).queued(), request)),
            Self::models_queue() ==> (r is Ok ==> final(self).queued() == old(self).queued().push(
                request,
            )),
            Self::models_queue() ==> (r matches Err(e) ==> final(self).queued()
                == old(self).queued() && e == Self::refusal(old(self).queued(), request)),
    ;

    /// The number of waiting requests.
    fn count(&self) -> (n: u64)
        ensures
            Self::models_queue() && self.queued().len() <= u64::MAX ==> n == self.queued().len(),
    ;

    /// `dequeue` that reports an empty scheduler as the channel error `Empty`.
    fn try_dequeue(&mut self) -> (r: Result<IronRequest, crossbeam::channel::TryRecvError>)
        ensures
            Self::models_queue() ==> (r is Err <==> old(self).queued().len() == 0),
            Self::models_queue() ==> (r matches Ok(req) ==> exists|i: int|
                0 <= i < old(self).queued().len() && old(self).queued()[i] == req
                    && final(self).queued() == #[trigger] old(self).queued().remove(i)),
            Self::models_queue() ==> (r is Err ==> final(self).queued() == old(self).queued()),
    {
        match self.dequeue() {
            Some(req) => Ok(req),
            None => Err(try_recv_empty()),
        }
    }

    /// The scheduler's counters.
    fn get_stats(&self) -> (s: SchedulerStats)
        ensures
            Self::models_queue() && self.queued().len() <= u64::MAX ==> s.items_count
                == self.queued().len(),
    {
        SchedulerStats { items_count: self.count() }
    }
}

/// A first-in first-out scheduler.
pub struct SimpleScheduler {
    queue: VecDeque<IronRequest>,
}

impl SimpleScheduler {
    /// The waiting requests, oldest first.
    pub closed spec fn view_queue(&self) -> Seq<IronRequest> {
        self.queue@
    }

    pub fn new() -> (s: Self)
        ensures
            s.view_queue() == Seq::<IronRequest>::empty(),
    {
        SimpleScheduler { queue: VecDeque::new() }
    }
}

/// First in, first out: a request enqueued behind others does not change which one comes
/// out next, and comes out after all of them.
pub proof fn lemma_fifo(queue: Seq<IronRequest>, request: IronRequest)
    ensures
        queue.len() > 0 ==> queue.push(request)[0] == queue[0] && queue.push(request).drop_first()
            == queue.drop_first().push(request),
        queue.len() == 0 ==> queue.push(request)[0] == request && queue.push(request).drop_first()
            == Seq::<IronRequest>::empty(),
{
    if queue.len() > 0 {
        assert(queue.push(request).drop_first() =~= queue.drop_first().push(request));
    } else {
        assert(queue.push(request).drop_first() =~= Seq::<IronRequest>::empty());
    }
}

impl Default for SimpleScheduler {
    fn default() -> (s: Self)
        ensures
            s.view_queue() == Seq::<IronRequest>::empty(),
    {
        Self::new()
    }
}

impl Scheduler for SimpleScheduler {
    open spec fn models_queue() -> bool {
        true
    }

    open spec fn queued(&self) -> Seq<IronRequest> {
        self.view_queue()
    }

    /// Takes out the oldest waiting request.
    fn dequeue(&mut self) -> (r: Option<IronRequest>)
        ensures
            old(self).view_queue().len() == 0 ==> r is None && final(self).view_queue()
                == old(self).view_queue(),
            old(self).view_queue().len() > 0 ==> r == Some(old(self).view_queue()[0])
                && final(self).view_queue() == old(self).view_queue().drop_first(),
    {
        let r = self.queue.pop_front();
        proof {
            let q = old(self).view_queue();
            if q.len() > 0 {
                assert(q.drop_first() =~= q.remove(0));
            }
        }
        r
    }

    fn is_empty(&self) -> (b: bool) {
        self.queue.len() == 0
    }

    /// Adds the request behind the others; it never fails.
    fn enqueue(&mut self, request: IronRequest) -> (r: Result<(), SchedulerError>)
        ensures
            r is Ok,
            final(self).view_queue() == old(self).view_queue().push(request),
    {
        self.queue.push_back(request);
        Ok(())
    }

    /// Returns the number of waiting requests.
    fn count(&self) -> (n: u64) {
        self.queue.len() as u64
    }
}

} // verus!
