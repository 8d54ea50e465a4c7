use vstd::prelude::*;

use crate::scheduler::stat::SchedulerStats;

verus! {

/// The scheduler's panel of the dashboard: it shows the number of waiting requests.
pub struct SchedulerWidget<'a> {
    pub stats: &'a SchedulerStats,
}

impl<'a> SchedulerWidget<'a> {
    pub fn new(stats: &'a SchedulerStats) -> (w: Self)
        ensures
            w.stats == stats,
    {
        SchedulerWidget { stats }
    }
}

} // verus!
