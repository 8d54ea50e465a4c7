use vstd::prelude::*;

use crate::pipeline::stat::PipelineManagerStats;

verus! {

/// The pipeline manager's panel of the dashboard: it shows the counters of a snapshot.
pub struct PipelineManagerWidget<'a> {
    pub stats: &'a PipelineManagerStats,
}

impl<'a> PipelineManagerWidget<'a> {
    pub fn new(stats: &'a PipelineManagerStats) -> (w: Self)
        ensures
            w.stats == stats,
    {
        PipelineManagerWidget { stats }
    }
}

} // verus!
