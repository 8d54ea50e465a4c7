use vstd::prelude::*;

use crate::spider::stat::SpiderManagerStats;

verus! {

/// The spider manager's panel of the dashboard: it shows how the spiders stand.
pub struct SpiderManagerWidget<'a> {
    stats: &'a SpiderManagerStats,
}

impl<'a> SpiderManagerWidget<'a> {
    pub closed spec fn spec_stats(&self) -> &'a SpiderManagerStats {
        self.stats
    }

    pub fn new(stats: &'a SpiderManagerStats) -> (w: Self)
        ensures
            w.spec_stats() == stats,
    {
        SpiderManagerWidget { stats }
    }

    /// The snapshot that the panel shows.
    pub fn stats(&self) -> (s: &'a SpiderManagerStats)
        ensures
            s == self.spec_stats(),
    {
        self.stats
    }
}

} // verus!
