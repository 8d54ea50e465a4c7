use vstd::prelude::*;

use crate::utils::{lemma_wrap_dec_mod, lemma_wrap_inc_mod, wrap_dec, wrap_inc};

verus! {

/// A snapshot of the pipeline manager's counters.
pub struct PipelineManagerStats {
    /// Number of items on the processing pool.
    pub processing_items: usize,
    /// Number of items that went through all their pipelines.
    pub processed_items: usize,
    /// Number of items that a pipeline dropped (returned `None` for).
    pub dropped_items: usize,
    /// Number of items for which no pipeline was registered.
    pub unrouted_item: usize,
}

/// One thing that the pipeline manager counts.
pub enum PipelineEvent {
    /// An item was handed to its pipelines.
    Started,
    /// An item came out of its last pipeline.
    Processed,
    /// A pipeline dropped an item.
    Dropped,
    /// No pipeline was registered for an item.
    Unrouted,
}

impl PipelineManagerStats {
    /// The counters after one event.
    pub open spec fn after(self, e: PipelineEvent) -> PipelineManagerStats {
        match e {
            PipelineEvent::Started => PipelineManagerStats {
                processing_items: wrap_inc(self.processing_items),
                ..self
            },
            PipelineEvent::Processed => PipelineManagerStats {
                processing_items: wrap_dec(self.processing_items),
                processed_items: wrap_inc(self.processed_items),
                ..self
            },
            PipelineEvent::Dropped => PipelineManagerStats {
                processing_items: wrap_dec(self.processing_items),
                dropped_items: wrap_inc(self.dropped_items),
                ..self
            },
            PipelineEvent::Unrouted => PipelineManagerStats {
                unrouted_item: wrap_inc(self.unrouted_item),
                ..self
            },
        }
    }

    /// The counters after the events `es`, one after the other.
    pub open spec fn run(self, es: Seq<PipelineEvent>) -> PipelineManagerStats
        decreases es.len(),
    {
        if es.len() == 0 {
            self
        } else {
            self.run(es.drop_last()).after(es.last())
        }
    }
}

/// How many of the events `es` are `e`.
pub open spec fn count_events(es: Seq<PipelineEvent>, e: PipelineEvent) -> nat
    decreases es.len(),
{
    if es.len() == 0 {
        0
    } else {
        count_events(es.drop_last(), e) + if es.last() == e {
            1nat
        } else {
            0nat
        }
    }
}

/// Items never finish before they start: in every prefix of `es`, no more items were
/// processed or dropped than were started.
pub open spec fn finishes_after_starts(es: Seq<PipelineEvent>) -> bool {
    forall|j: int|
        0 <= j <= es.len() ==> count_events(#[trigger] es.take(j), PipelineEvent::Processed)
            + count_events(es.take(j), PipelineEvent::Dropped) <= count_events(
            es.take(j),
            PipelineEvent::Started,
        )
}

/// Counting from zero, where items finish only after they start and no count can wrap
/// around: the items in processing are those started and not yet processed or dropped, and
/// each other counter is the number of its events.
#[verifier::rlimit(40)]
pub proof fn lemma_pipeline_counts(es: Seq<PipelineEvent>)
    requires
        es.len() <= usize::MAX,
        finishes_after_starts(es),
    ensures
        ({
            let a = count_events(es, PipelineEvent::Started);
            let b = count_events(es, PipelineEvent::Processed);
            let c = count_events(es, PipelineEvent::Dropped);
            let d = count_events(es, PipelineEvent::Unrouted);
            (PipelineManagerStats {
                processing_items: 0,
                processed_items: 0,
                dropped_items: 0,
                unrouted_item: 0,
            }).run(es) == (PipelineManagerStats {
                processing_items: (a - b - c) as usize,
                processed_items: b as usize,
                dropped_items: c as usize,
                unrouted_item: d as usize,
            })
        }),
        count_events(es, PipelineEvent::Started) + count_events(es, PipelineEvent::Processed)
            + count_events(es, PipelineEvent::Dropped) + count_events(es, PipelineEvent::Unrouted)
            == es.len(),
    decreases es.len(),
{
    if es.len() > 0 {
        let d = es.drop_last();
        assert(finishes_after_starts(d)) by {
            assert forall|j: int| 0 <= j <= d.len() implies count_events(
                #[trigger] d.take(j),
                PipelineEvent::Processed,
            ) + count_events(d.take(j), PipelineEvent::Dropped) <= count_events(
                d.take(j),
                PipelineEvent::Started,
            ) by {
                assert(d.take(j) =~= es.take(j));
            }
        }
        lemma_pipeline_counts(d);
        assert(es.take(es.len() as int) =~= es);
        let a = count_events(d, PipelineEvent::Started);
        let b = count_events(d, PipelineEvent::Processed);
        let c = count_events(d, PipelineEvent::Dropped);
        let u = count_events(d, PipelineEvent::Unrouted);
        assert(count_events(es.take(es.len() as int), PipelineEvent::Processed) + count_events(
            es.take(es.len() as int),
            PipelineEvent::Dropped,
        ) <= count_events(es.take(es.len() as int), PipelineEvent::Started));
        assert(a + b + c + u == d.len());
        match es.last() {
            PipelineEvent::Started => {},
            PipelineEvent::Processed => {},
            PipelineEvent::Dropped => {},
            PipelineEvent::Unrouted => {},
        }
    }
}

/// Counting from zero over any events, each counter wraps around past `usize::MAX` as the
/// atomic counter it stands for does: the items in processing are those started less those
/// processed or dropped, and every other counter is the number of its events, each taken
/// modulo `usize::MAX + 1`.
pub proof fn lemma_pipeline_counts_wrapping(es: Seq<PipelineEvent>)
    ensures
        ({
            let m = usize::MAX + 1;
            let a = count_events(es, PipelineEvent::Started) as int;
            let b = count_events(es, PipelineEvent::Processed) as int;
            let c = count_events(es, PipelineEvent::Dropped) as int;
            let d = count_events(es, PipelineEvent::Unrouted) as int;
            (PipelineManagerStats {
                processing_items: 0,
                processed_items: 0,
                dropped_items: 0,
                unrouted_item: 0,
            }).run(es) == (PipelineManagerStats {
                processing_items: ((a - b - c) % m) as usize,
                processed_items: (b % m) as usize,
                dropped_items: (c % m) as usize,
                unrouted_item: (d % m) as usize,
            })
        }),
    decreases es.len(),
{
    let m = usize::MAX + 1;
    if es.len() == 0 {
        vstd::arithmetic::div_mod::lemma_small_mod(0, m as nat);
    } else {
        let dl = es.drop_last();
        lemma_pipeline_counts_wrapping(dl);
        let a = count_events(dl, PipelineEvent::Started) as int;
        let b = count_events(dl, PipelineEvent::Processed) as int;
        let c = count_events(dl, PipelineEvent::Dropped) as int;
        let d = count_events(dl, PipelineEvent::Unrouted) as int;
        match es.last() {
            PipelineEvent::Started => {
                lemma_wrap_inc_mod(a - b - c);
                assert(a + 1 - b - c == (a - b - c) + 1);
            },
            PipelineEvent::Processed => {
                lemma_wrap_dec_mod(a - b - c);
                lemma_wrap_inc_mod(b);
                assert(a - (b + 1) - c == (a - b - c) - 1);
            },
            PipelineEvent::Dropped => {
                lemma_wrap_dec_mod(a - b - c);
                lemma_wrap_inc_mod(c);
                assert(a - b - (c + 1) == (a - b - c) - 1);
            },
            PipelineEvent::Unrouted => {
                lemma_wrap_inc_mod(d);
            },
        }
    }
}

/// The counters behind `PipelineManagerStats`.
pub struct PipelineManagerStatsTracker {
    processing_items: usize,
    processed_items: usize,
    dropped_items: usize,
    unrouted_item: usize,
}

impl PipelineManagerStatsTracker {
    /// The counters as a snapshot.
    pub closed spec fn view_stats(&self) -> PipelineManagerStats {
        PipelineManagerStats {
            processing_items: self.processing_items,
            processed_items: self.processed_items,
            dropped_items: self.dropped_items,
            unrouted_item: self.unrouted_item,
        }
    }

    pub fn new() -> (t: Self)
        ensures
            t.view_stats() == (PipelineManagerStats {
                processing_items: 0,
                processed_items: 0,
                dropped_items: 0,
                unrouted_item: 0,
            }),
    {
        PipelineManagerStatsTracker {
            processing_items: 0,
            processed_items: 0,
            dropped_items: 0,
            unrouted_item: 0,
        }
    }

    pub fn get_stats(&self) -> (s: PipelineManagerStats)
        ensures
            s == self.view_stats(),
    {
        PipelineManagerStats {
            processing_items: self.processing_items,
            processed_items: self.processed_items,
            dropped_items: self.dropped_items,
            unrouted_item: self.unrouted_item,
        }
    }

    /// An item was handed to its pipelines.
    pub fn start_one(&mut self)
        ensures
            final(self).view_stats() == old(self).view_stats().after(PipelineEvent::Started),
            final(self).view_stats() == (PipelineManagerStats {
                processing_items: wrap_inc(old(self).view_stats().processing_items),
                ..old(self).view_stats()
            }),
        no_unwind
    {
        self.processing_items = if self.processing_items == usize::MAX { 0 } else { self.processing_items + 1 };
    }

    /// An item came out of its last pipeline.
    pub fn processed_one(&mut self)
        ensures
            final(self).view_stats() == old(self).view_stats().after(PipelineEvent::Processed),
            final(self).view_stats() == (PipelineManagerStats {
                processing_items: wrap_dec(old(self).view_stats().processing_items),
                processed_items: wrap_inc(old(self).view_stats().processed_items),
                ..old(self).view_stats()
            }),
        no_unwind
    {
        self.processing_items = if self.processing_items == 0 { usize::MAX } else { self.processing_items - 1 };
        self.processed_items = if self.processed_items == usize::MAX { 0 } else { self.processed_items + 1 };
    }

    /// A pipeline dropped an item.
    pub fn dropped_one(&mut self)
        ensures
            final(self).view_stats() == old(self).view_stats().after(PipelineEvent::Dropped),
            final(self).view_stats() == (PipelineManagerStats {
                processing_items: wrap_dec(old(self).view_stats().processing_items),
                dropped_items: wrap_inc(old(self).view_stats().dropped_items),
                ..old(self).view_stats()
            }),
        no_unwind
    {
        self.processing_items = if self.processing_items == 0 { usize::MAX } else { self.processing_items - 1 };
        self.dropped_items = if self.dropped_items == usize::MAX { 0 } else { self.dropped_items + 1 };
    }

    /// No pipeline was registered for an item.
    pub fn unrouted_one(&mut self)
        ensures
            final(self).view_stats() == old(self).view_stats().after(PipelineEvent::Unrouted),
            final(self).view_stats() == (PipelineManagerStats {
                unrouted_item: wrap_inc(old(self).view_stats().unrouted_item),
                ..old(self).view_stats()
            }),
        no_unwind
    {
        self.unrouted_item = if self.unrouted_item == usize::MAX { 0 } else { self.unrouted_item + 1 };
    }

    /// No item is being processed.
    pub fn is_idle(&self) -> (b: bool)
        ensures
            b == (self.view_stats().processing_items == 0),
    {
        self.processing_items == 0
    }
}

} // verus!
