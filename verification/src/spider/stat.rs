use vstd::prelude::*;

use crate::utils::{wrap_dec, wrap_inc};

verus! {

/// A snapshot of the spider manager's counters.
pub struct SpiderManagerStats {
    pub dropped_responses: usize,
    pub total_spiders: usize,
    pub pending_spiders: usize,
    pub closed_spiders: usize,
    pub active_spiders: usize,
}

/// The counters behind `SpiderManagerStats`.
pub struct SpiderManagerStatsTracker {
    spider_counts: usize,
    active_spiders: usize,
    dropped_responses: usize,
}

impl SpiderManagerStatsTracker {
    /// The number of spiders the manager was made with.
    pub closed spec fn spec_spider_counts(&self) -> usize {
        self.spider_counts
    }

    /// The number of spiders at work.
    pub closed spec fn spec_active_spiders(&self) -> usize {
        self.active_spiders
    }

    /// The number of responses whose parse gave nothing.
    pub closed spec fn spec_dropped_responses(&self) -> usize {
        self.dropped_responses
    }

    pub fn new(spider_counts: usize) -> (t: Self)
        ensures
            t.spec_spider_counts() == spider_counts,
            t.spec_active_spiders() == 0,
            t.spec_dropped_responses() == 0,
    {
        SpiderManagerStatsTracker { spider_counts, active_spiders: 0, dropped_responses: 0 }
    }

    pub fn activate_one_spider(&mut self)
        ensures
            final(self).spec_spider_counts() == old(self).spec_spider_counts(),
            final(self).spec_active_spiders() == wrap_inc(old(self).spec_active_spiders()),
            final(self).spec_dropped_responses() == old(self).spec_dropped_responses(),
    {
        self.active_spiders = if self.active_spiders == usize::MAX {
            0
        } else {
            self.active_spiders + 1
        };
    }

    pub fn deactivate_one_spider(&mut self)
        ensures
            final(self).spec_spider_counts() == old(self).spec_spider_counts(),
            final(self).spec_active_spiders() == wrap_dec(old(self).spec_active_spiders()),
            final(self).spec_dropped_responses() == old(self).spec_dropped_responses(),
    {
        self.active_spiders = if self.active_spiders == 0 {
            usize::MAX
        } else {
            self.active_spiders - 1
        };
    }

    pub fn drop_one_response(&mut self)
        ensures
            final(self).spec_spider_counts() == old(self).spec_spider_counts(),
            final(self).spec_active_spiders() == old(self).spec_active_spiders(),
            final(self).spec_dropped_responses() == wrap_inc(old(self).spec_dropped_responses()),
    {
        self.dropped_responses = if self.dropped_responses == usize::MAX {
            0
        } else {
            self.dropped_responses + 1
        };
    }

    /// The snapshot, given how many spiders still wait to start; the closed spiders are
    /// those neither pending nor active.
    pub fn get_stats(&self, pending_spider_count: usize) -> (s: SpiderManagerStats)
        requires
            pending_spider_count + self.spec_active_spiders() <= self.spec_spider_counts(),
        ensures
            s.pending_spiders == pending_spider_count,
            s.dropped_responses == self.spec_dropped_responses(),
            s.total_spiders == self.spec_spider_counts(),
            s.active_spiders == self.spec_active_spiders(),
            s.closed_spiders == self.spec_spider_counts() - pending_spider_count
                - self.spec_active_spiders(),
    {
        SpiderManagerStats {
            pending_spiders: pending_spider_count,
            dropped_responses: self.dropped_responses,
            total_spiders: self.spider_counts,
            active_spiders: self.active_spiders,
            closed_spiders: self.spider_counts - pending_spider_count - self.active_spiders,
        }
    }
}

} // verus!
