use dashmap::DashMap;
use std::collections::HashMap;
use vstd::prelude::*;
use vstd::string::StringExecFns;

use crate::utils::{decimal, u64_to_decimal, wrap_dec, wrap_inc};

verus! {

broadcast use vstd::std_specs::hash::group_hash_axioms;

#[verifier::external_type_specification]
#[verifier::external_body]
#[verifier::reject_recursive_types(K)]
#[verifier::reject_recursive_types(V)]
#[verifier::reject_recursive_types(S)]
pub struct ExDashMap<K, V, S>(DashMap<K, V, S>);

/// The counts held in a dashmap `DashMap` keyed by status code.
pub uninterp spec fn status_count_map(m: DashMap<u16, u64>) -> Map<u16, u64>;

/// The counts held in a dashmap `DashMap` keyed by the name of an error kind.
pub uninterp spec fn exception_count_map(m: DashMap<String, u64>) -> Map<Seq<char>, u64>;

/// `DashMap::new()` for status counts: an empty map.
#[verifier::external_body]
fn status_map_new() -> (m: DashMap<u16, u64>)
    ensures
        status_count_map(m).dom() == Set::<u16>::empty(),
{
    DashMap::new()
}

/// `DashMap::get` for status counts, copying the count out.
#[verifier::external_body]
fn status_map_get(m: &DashMap<u16, u64>, key: u16) -> (r: Option<u64>)
    ensures
        r == (if status_count_map(*m).contains_key(key) {
            Some(status_count_map(*m)[key])
        } else {
            None
        }),
{
    m.get(&key).map(|v| *v)
}

/// `DashMap::insert` for status counts: the key now maps to the value.
#[verifier::external_body]
fn status_map_insert(m: &mut DashMap<u16, u64>, key: u16, value: u64)
    ensures
        status_count_map(*final(m)) == status_count_map(*old(m)).insert(key, value),
{
    m.insert(key, value);
}

/// The entries of a `DashMap` of status counts through `DashMap::iter`: each key once with
/// its count; the order is not stated.
#[verifier::external_body]
fn status_map_entries(m: &DashMap<u16, u64>) -> (v: Vec<(u16, u64)>)
    ensures
        forall|i: int, j: int| 0 <= i < j < v@.len() ==> v@[i].0 != v@[j].0,
        forall|i: int|
            0 <= i < v@.len() ==> status_count_map(*m).contains_key(#[trigger] v@[i].0)
                && status_count_map(*m)[v@[i].0] == v@[i].1,
        forall|k: u16|
            status_count_map(*m).contains_key(k) ==> exists|i: int|
                0 <= i < v@.len() && #[trigger] v@[i].0 == k,
{
    m.iter().map(|e| (*e.key(), *e.value())).collect()
}

/// `DashMap::new()` for error kind counts: an empty map.
#[verifier::external_body]
fn exception_map_new() -> (m: DashMap<String, u64>)
    ensures
        exception_count_map(m).dom() == Set::<Seq<char>>::empty(),
{
    DashMap::new()
}

/// `DashMap::get` for error kind counts, copying the count out.
#[verifier::external_body]
fn exception_map_get(m: &DashMap<String, u64>, key: &str) -> (r: Option<u64>)
    ensures
        r == (if exception_count_map(*m).contains_key(key@) {
            Some(exception_count_map(*m)[key@])
        } else {
            None
        }),
{
    m.get(key).map(|v| *v)
}

/// `DashMap::insert` for error kind counts: the key now maps to the value.
#[verifier::external_body]
fn exception_map_insert(m: &mut DashMap<String, u64>, key: String, value: u64)
    ensures
        exception_count_map(*final(m)) == exception_count_map(*old(m)).insert(key@, value),
{
    m.insert(key, value);
}

/// The entries of a `DashMap` of error kind counts through `DashMap::iter`: each key once
/// with its count; the order is not stated.
#[verifier::external_body]
fn exception_map_entries(m: &DashMap<String, u64>) -> (v: Vec<(String, u64)>)
    ensures
        forall|i: int, j: int| 0 <= i < j < v@.len() ==> v@[i].0@ != v@[j].0@,
        forall|i: int|
            0 <= i < v@.len() ==> exception_count_map(*m).contains_key(#[trigger] v@[i].0@)
                && exception_count_map(*m)[v@[i].0@] == v@[i].1,
        forall|k: Seq<char>|
            exception_count_map(*m).contains_key(k) ==> exists|i: int|
                0 <= i < v@.len() && #[trigger] v@[i].0@ == k,
{
    m.iter().map(|e| (e.key().clone(), *e.value())).collect()
}

/// `x + y` on `u64`, wrapping around as an atomic counter does.
pub open spec fn wrap_add_u64(x: u64, y: u64) -> u64 {
    if x + y > u64::MAX {
        (x + y - u64::MAX - 1) as u64
    } else {
        (x + y) as u64
    }
}

fn add_u64_wrapping(x: u64, y: u64) -> (r: u64)
    ensures
        r == wrap_add_u64(x, y),
{
    if y > u64::MAX - x {
        y - (u64::MAX - x) - 1
    } else {
        x + y
    }
}

/// A count map with one more at `key`.
pub open spec fn bump<K>(m: Map<K, u64>, key: K) -> Map<K, u64> {
    m.insert(key, wrap_add_u64(if m.contains_key(key) { m[key] } else { 0 }, 1))
}

/// The entries of a count map whose count is not zero.
pub open spec fn nonzero_counts<K>(m: Map<K, u64>) -> Map<K, u64> {
    m.restrict(m.dom().filter(|k: K| m[k] > 0))
}

/// `entries` lists each key of `m` whose count is not zero, once, with its count.
pub open spec fn lists_nonzero_counts<K>(entries: Seq<(K, u64)>, m: Map<K, u64>) -> bool {
    &&& forall|a: int, b: int| 0 <= a < b < entries.len() ==> entries[a].0 != entries[b].0
    &&& forall|i: int|
        0 <= i < entries.len() ==> m.contains_key(#[trigger] entries[i].0) && m[entries[i].0]
            == entries[i].1 && entries[i].1 > 0
    &&& forall|k: K|
        m.contains_key(k) && m[k] > 0 ==> exists|i: int|
            0 <= i < entries.len() && #[trigger] entries[i].0 == k
}

/// A snapshot of the downloader's counters.
pub struct DownloaderStats {
    // Current state
    pub active_requests: usize,
    pub waiting_requests: usize,
    pub peak_concurrent_requests: usize,
    // Totals
    pub total_requests: u64,
    pub total_responses: u64,
    pub total_exceptions: u64,
    /// Responses by status code, for the codes seen.
    pub status_counts: HashMap<u16, u64>,
    /// Failed requests by kind of error, for the kinds seen, each once.
    pub exception_counts: Vec<(String, u64)>,
    // Data transfer
    pub total_request_bytes: u64,
    pub total_response_bytes: u64,
    // Timing, in milliseconds
    pub total_response_time_ms: u64,
    pub min_response_time_ms: u64,
    pub max_response_time_ms: u64,
    // Rate limiting
    pub rate_limited_count: u64,
}

impl Default for DownloaderStats {
    /// All counters at zero, no codes or kinds, and the minimum response time at its
    /// largest value, so that any response lowers it.
    fn default() -> (s: Self)
        ensures
            s.active_requests == 0 && s.waiting_requests == 0 && s.peak_concurrent_requests == 0,
            s.total_requests == 0 && s.total_responses == 0 && s.total_exceptions == 0,
            s.status_counts@ == Map::<u16, u64>::empty() && s.exception_counts@.len() == 0,
            s.total_request_bytes == 0 && s.total_response_bytes == 0,
            s.total_response_time_ms == 0,
            s.min_response_time_ms == u64::MAX,
            s.max_response_time_ms == 0,
            s.rate_limited_count == 0,
    {
        DownloaderStats {
            active_requests: 0,
            waiting_requests: 0,
            peak_concurrent_requests: 0,
            total_requests: 0,
            total_responses: 0,
            total_exceptions: 0,
            status_counts: HashMap::new(),
            exception_counts: Vec::new(),
            total_request_bytes: 0,
            total_response_bytes: 0,
            total_response_time_ms: 0,
            min_response_time_ms: u64::MAX,
            max_response_time_ms: 0,
            rate_limited_count: 0,
        }
    }
}

/// The lines of the downloader report that are whole numbers: the title, the current and
/// peak requests, the totals, and the data sent and received in whole megabytes.
pub open spec fn counts_text(s: DownloaderStats) -> Seq<char> {
    "=== Downloader Statistics ===\nActive: "@ + decimal(s.active_requests as nat) + ", Waiting: "@
        + decimal(s.waiting_requests as nat) + ", Peak: "@ + decimal(
        s.peak_concurrent_requests as nat,
    ) + "\nTotal Requests: "@ + decimal(s.total_requests as nat) + ", Responses: "@ + decimal(
        s.total_responses as nat,
    ) + ", Exceptions: "@ + decimal(s.total_exceptions as nat) + "\nData: "@ + decimal(
        (s.total_request_bytes / 1_000_000) as nat,
    ) + " MB sent, "@ + decimal((s.total_response_bytes / 1_000_000) as nat) + " MB received\n"@
}

/// How the report begins: the title, then the active requests after "Active: " and the
/// waiting requests after "Waiting: ", before the peak.
pub open spec fn counts_prefix(s: DownloaderStats) -> Seq<char> {
    "=== Downloader Statistics ===\nActive: "@ + decimal(s.active_requests as nat) + ", Waiting: "@
        + decimal(s.waiting_requests as nat) + ", Peak: "@
}

/// The report names each count by its own field: it begins with the title, the number of
/// active requests after "Active: " and the number of waiting requests after "Waiting: ".
pub proof fn lemma_counts_text_labels(s: DownloaderStats)
    ensures
        counts_text(s).len() >= counts_prefix(s).len(),
        counts_text(s).subrange(0, counts_prefix(s).len() as int) == counts_prefix(s),
{
    let p = counts_prefix(s);
    let rest = decimal(s.peak_concurrent_requests as nat) + "\nTotal Requests: "@ + decimal(
        s.total_requests as nat,
    ) + ", Responses: "@ + decimal(s.total_responses as nat) + ", Exceptions: "@ + decimal(
        s.total_exceptions as nat,
    ) + "\nData: "@ + decimal((s.total_request_bytes / 1_000_000) as nat) + " MB sent, "@
        + decimal((s.total_response_bytes / 1_000_000) as nat) + " MB received\n"@;
    assert(counts_text(s) =~= p + rest);
    assert((p + rest).subrange(0, p.len() as int) =~= p);
}

impl DownloaderStats {
    /// The lines of the report that are whole numbers, each ending the line.
    pub fn counts_text(&self) -> (t: String)
        ensures
            t@ == counts_text(*self),
            t@.len() >= counts_prefix(*self).len(),
            t@.subrange(0, counts_prefix(*self).len() as int) == counts_prefix(*self),
    {
        let a = u64_to_decimal(self.active_requests as u64);
        let w = u64_to_decimal(self.waiting_requests as u64);
        let p = u64_to_decimal(self.peak_concurrent_requests as u64);
        let r = u64_to_decimal(self.total_requests);
        let q = u64_to_decimal(self.total_responses);
        let e = u64_to_decimal(self.total_exceptions);
        let sent = u64_to_decimal(self.total_request_bytes / 1_000_000);
        let received = u64_to_decimal(self.total_response_bytes / 1_000_000);
        let mut t = String::from_str("=== Downloader Statistics ===\nActive: ");
        t.append(a.as_str());
        t.append(", Waiting: ");
        t.append(w.as_str());
        t.append(", Peak: ");
        t.append(p.as_str());
        t.append("\nTotal Requests: ");
        t.append(r.as_str());
        t.append(", Responses: ");
        t.append(q.as_str());
        t.append(", Exceptions: ");
        t.append(e.as_str());
        t.append("\nData: ");
        t.append(sent.as_str());
        t.append(" MB sent, ");
        t.append(received.as_str());
        t.append(" MB received\n");
        t
    }
}

/// The counters of the downloader as the contracts speak of them.
pub struct StatsView {
    pub active_requests: usize,
    pub waiting_requests: usize,
    pub peak_queued_requests: usize,
    pub total_requests: u64,
    pub total_responses: u64,
    pub total_exceptions: u64,
    pub status_counts: Map<u16, u64>,
    pub exception_counts: Map<Seq<char>, u64>,
    pub total_request_bytes: u64,
    pub total_response_bytes: u64,
    pub total_response_time_ms: u64,
    /// `u64::MAX` until a response was counted.
    pub min_response_time_ms: u64,
    pub max_response_time_ms: u64,
    pub rate_limited_count: u64,
}

/// One thing that the downloader counts.
pub enum TrackerStep {
    /// A request starts waiting for a download slot.
    Waited,
    /// A waiting request of this many bytes got its slot and was sent.
    Admitted(u64),
    /// A download finished.
    Finished,
    /// A response with this status, of this many bytes, came after this many milliseconds.
    Responded(u16, u64, u64),
    /// A download failed with an error of this kind.
    Failed(Seq<char>),
    /// A request had to wait for the rate limiter.
    RateLimited,
}

impl StatsView {
    /// The peak of requests waiting or in flight, once `total` of them were (a total past
    /// `usize::MAX` does not occur: the steps that raise it require it to fit).
    pub open spec fn peak_after(self, total: int) -> usize {
        if self.peak_queued_requests < total <= usize::MAX {
            total as usize
        } else {
            self.peak_queued_requests
        }
    }

    /// The counters after one step.
    pub open spec fn step(self, e: TrackerStep) -> StatsView {
        match e {
            TrackerStep::Waited => {
                let w = (self.waiting_requests + 1) as usize;
                StatsView {
                    waiting_requests: w,
                    peak_queued_requests: self.peak_after(w + self.active_requests),
                    ..self
                }
            },
            TrackerStep::Admitted(size) => {
                let w = wrap_dec(self.waiting_requests);
                let a = (self.active_requests + 1) as usize;
                StatsView {
                    waiting_requests: w,
                    active_requests: a,
                    peak_queued_requests: self.peak_after(a + w),
                    total_requests: wrap_add_u64(self.total_requests, 1),
                    total_request_bytes: wrap_add_u64(self.total_request_bytes, size),
                    ..self
                }
            },
            TrackerStep::Finished => StatsView {
                active_requests: wrap_dec(self.active_requests),
                ..self
            },
            TrackerStep::Responded(status, bytes, ms) => StatsView {
                total_responses: wrap_add_u64(self.total_responses, 1),
                total_response_bytes: wrap_add_u64(self.total_response_bytes, bytes),
                status_counts: bump(self.status_counts, status),
                total_response_time_ms: wrap_add_u64(self.total_response_time_ms, ms),
                min_response_time_ms: if ms < self.min_response_time_ms {
                    ms
                } else {
                    self.min_response_time_ms
                },
                max_response_time_ms: if ms > self.max_response_time_ms {
                    ms
                } else {
                    self.max_response_time_ms
                },
                ..self
            },
            TrackerStep::Failed(kind) => StatsView {
                total_exceptions: wrap_add_u64(self.total_exceptions, 1),
                exception_counts: bump(self.exception_counts, kind),
                ..self
            },
            TrackerStep::RateLimited => StatsView {
                rate_limited_count: wrap_add_u64(self.rate_limited_count, 1),
                ..self
            },
        }
    }

    /// The counters after the steps `es`, one after the other.
    pub open spec fn run(self, es: Seq<TrackerStep>) -> StatsView
        decreases es.len(),
    {
        if es.len() == 0 {
            self
        } else {
            self.run(es.drop_last()).step(es.last())
        }
    }
}

/// The counters of a tracker that has counted nothing yet.
pub open spec fn fresh_stats() -> StatsView {
    StatsView {
        active_requests: 0,
        waiting_requests: 0,
        peak_queued_requests: 0,
        total_requests: 0,
        total_responses: 0,
        total_exceptions: 0,
        status_counts: Map::empty(),
        exception_counts: Map::empty(),
        total_request_bytes: 0,
        total_response_bytes: 0,
        total_response_time_ms: 0,
        min_response_time_ms: u64::MAX,
        max_response_time_ms: 0,
        rate_limited_count: 0,
    }
}

/// How many of the steps `es` are responses with status `status`.
pub open spec fn responses_with(es: Seq<TrackerStep>, status: u16) -> nat
    decreases es.len(),
{
    if es.len() == 0 {
        0
    } else {
        responses_with(es.drop_last(), status) + if es.last() matches TrackerStep::Responded(
            s,
            _,
            _,
        ) && s == status {
            1nat
        } else {
            0nat
        }
    }
}

/// How many of the steps `es` are responses.
pub open spec fn responses(es: Seq<TrackerStep>) -> nat
    decreases es.len(),
{
    if es.len() == 0 {
        0
    } else {
        responses(es.drop_last()) + if es.last() is Responded {
            1nat
        } else {
            0nat
        }
    }
}

/// How many of the steps `es` are failures of kind `kind`.
pub open spec fn failures_of(es: Seq<TrackerStep>, kind: Seq<char>) -> nat
    decreases es.len(),
{
    if es.len() == 0 {
        0
    } else {
        failures_of(es.drop_last(), kind) + if es.last() matches TrackerStep::Failed(k) && k
            == kind {
            1nat
        } else {
            0nat
        }
    }
}

/// How many of the steps `es` are failures.
pub open spec fn failures(es: Seq<TrackerStep>) -> nat
    decreases es.len(),
{
    if es.len() == 0 {
        0
    } else {
        failures(es.drop_last()) + if es.last() is Failed {
            1nat
        } else {
            0nat
        }
    }
}

/// The peak of requests waiting or in flight never goes down, and no response time is lost:
/// after any steps the minimum response time is not above the one before nor above any time
/// counted on the way, and the maximum not below.
pub proof fn lemma_peak_and_times_kept(v: StatsView, es: Seq<TrackerStep>)
    ensures
        v.run(es).peak_queued_requests >= v.peak_queued_requests,
        v.run(es).min_response_time_ms <= v.min_response_time_ms,
        v.run(es).max_response_time_ms >= v.max_response_time_ms,
        forall|i: int|
            0 <= i < es.len() ==> (#[trigger] es[i] matches TrackerStep::Responded(_, _, ms)
                ==> v.run(es).min_response_time_ms <= ms <= v.run(es).max_response_time_ms),
    decreases es.len(),
{
    if es.len() > 0 {
        let d = es.drop_last();
        lemma_peak_and_times_kept(v, d);
        assert forall|i: int|
            0 <= i < es.len() implies (#[trigger] es[i] matches TrackerStep::Responded(_, _, ms)
            ==> v.run(es).min_response_time_ms <= ms <= v.run(es).max_response_time_ms) by {
            if i < es.len() - 1 {
                assert(es[i] == d[i]);
            }
        }
    }
}

/// Counting from nothing, as long as no count can wrap around: the number of responses and
/// of failures are those among the steps, each status code seen maps to the number of its
/// responses and no other code is listed, and likewise for the kinds of failure.
pub proof fn lemma_counts_from_fresh(es: Seq<TrackerStep>)
    requires
        es.len() <= u64::MAX,
    ensures
        fresh_stats().run(es).total_responses == responses(es),
        fresh_stats().run(es).total_exceptions == failures(es),
        forall|k: u16|
            #[trigger] fresh_stats().run(es).status_counts.contains_key(k) <==> responses_with(
                es,
                k,
            ) > 0,
        forall|k: u16|
            fresh_stats().run(es).status_counts.contains_key(k) ==> #[trigger] fresh_stats().run(
                es,
            ).status_counts[k] == responses_with(es, k),
        forall|k: Seq<char>|
            #[trigger] fresh_stats().run(es).exception_counts.contains_key(k) <==> failures_of(
                es,
                k,
            ) > 0,
        forall|k: Seq<char>|
            fresh_stats().run(es).exception_counts.contains_key(k) ==> #[trigger] fresh_stats().run(
                es,
            ).exception_counts[k] == failures_of(es, k),
    decreases es.len(),
{
    if es.len() > 0 {
        let d = es.drop_last();
        lemma_counts_bounded(d);
        lemma_counts_from_fresh(d);
    }
}

/// The response times of the steps `es` added up.
pub open spec fn response_time_sum(es: Seq<TrackerStep>) -> nat
    decreases es.len(),
{
    if es.len() == 0 {
        0
    } else {
        response_time_sum(es.drop_last()) + match es.last() {
            TrackerStep::Responded(_, _, ms) => ms as nat,
            _ => 0nat,
        }
    }
}

/// The step at `i` of `es` is a response that took `ms` milliseconds.
pub open spec fn responded_in(es: Seq<TrackerStep>, i: int, ms: u64) -> bool {
    &&& 0 <= i < es.len()
    &&& es[i] matches TrackerStep::Responded(_, _, t) && t == ms
}

/// Adding as `wrap_add_u64` does is adding modulo `u64::MAX + 1`.
pub proof fn lemma_wrap_add_u64_mod(x: int, y: u64)
    ensures
        wrap_add_u64((x % (u64::MAX + 1)) as u64, y) == ((x + y) % (u64::MAX + 1)) as u64,
{
    let m = u64::MAX + 1;
    let v = x % m;
    vstd::arithmetic::div_mod::lemma_add_mod_noop(x, y as int, m);
    vstd::arithmetic::div_mod::lemma_small_mod(y as nat, m as nat);
    if v + y < m {
        vstd::arithmetic::div_mod::lemma_small_mod((v + y) as nat, m as nat);
    } else {
        vstd::arithmetic::div_mod::lemma_mod_sub_multiples_vanish(v + y, m);
        vstd::arithmetic::div_mod::lemma_small_mod((v + y - m) as nat, m as nat);
    }
}

/// Counting from nothing: the total response time is the sum of the response times counted,
/// wrapping around past `u64::MAX`; once a response was counted the minimum and the maximum
/// response time are times of responses actually counted, and before that they stand at
/// `u64::MAX` and zero.
pub proof fn lemma_response_times_from_fresh(es: Seq<TrackerStep>)
    ensures
        fresh_stats().run(es).total_response_time_ms == (response_time_sum(es) as int % (
        u64::MAX + 1)) as u64,
        responses(es) > 0 ==> exists|i: int| #[trigger]
            responded_in(es, i, fresh_stats().run(es).min_response_time_ms),
        responses(es) > 0 ==> exists|i: int| #[trigger]
            responded_in(es, i, fresh_stats().run(es).max_response_time_ms),
        responses(es) == 0 ==> fresh_stats().run(es).min_response_time_ms == u64::MAX
            && fresh_stats().run(es).max_response_time_ms == 0,
    decreases es.len(),
{
    let m = u64::MAX + 1;
    if es.len() == 0 {
        vstd::arithmetic::div_mod::lemma_small_mod(0, m as nat);
    } else {
        let d = es.drop_last();
        lemma_response_times_from_fresh(d);
        let before = fresh_stats().run(d);
        let after = fresh_stats().run(es);
        let n = es.len() - 1;
        assert forall|i: int, t: u64| #[trigger] responded_in(d, i, t) implies responded_in(
            es,
            i,
            t,
        ) by {
            assert(es[i] == d[i]);
        }
        match es.last() {
            TrackerStep::Responded(_, _, ms) => {
                lemma_wrap_add_u64_mod(response_time_sum(d) as int, ms);
                assert(responded_in(es, n, ms));
                if ms < before.min_response_time_ms || responses(d) == 0 {
                    assert(responded_in(es, n, after.min_response_time_ms));
                } else {
                    let i = choose|i: int| #[trigger] responded_in(d, i, before.min_response_time_ms);
                    assert(responded_in(es, i, after.min_response_time_ms));
                }
                if ms > before.max_response_time_ms || responses(d) == 0 {
                    assert(responded_in(es, n, after.max_response_time_ms));
                } else {
                    let j = choose|j: int| #[trigger] responded_in(d, j, before.max_response_time_ms);
                    assert(responded_in(es, j, after.max_response_time_ms));
                }
            },
            _ => {
                vstd::arithmetic::div_mod::lemma_small_mod(0, m as nat);
                assert(response_time_sum(es) == response_time_sum(d));
                if responses(d) > 0 {
                    let i = choose|i: int| #[trigger] responded_in(d, i, before.min_response_time_ms);
                    let j = choose|j: int| #[trigger] responded_in(d, j, before.max_response_time_ms);
                    assert(responded_in(es, i, after.min_response_time_ms));
                    assert(responded_in(es, j, after.max_response_time_ms));
                }
            },
        }
    }
}

/// No count among the steps is above their number.
pub proof fn lemma_counts_bounded(es: Seq<TrackerStep>)
    ensures
        responses(es) <= es.len(),
        failures(es) <= es.len(),
        forall|k: u16| #[trigger] responses_with(es, k) <= es.len(),
        forall|k: Seq<char>| #[trigger] failures_of(es, k) <= es.len(),
    decreases es.len(),
{
    if es.len() > 0 {
        let d = es.drop_last();
        lemma_counts_bounded(d);
        assert forall|k: u16| #[trigger] responses_with(es, k) <= es.len() by {
            assert(responses_with(d, k) <= d.len());
        }
        assert forall|k: Seq<char>| #[trigger] failures_of(es, k) <= es.len() by {
            assert(failures_of(d, k) <= d.len());
        }
    }
}

/// Every response counts its whole body as received data, whatever its status: the bytes
/// received grow by the body length, and two responses that differ only in status leave the
/// same received total.
pub proof fn lemma_response_bytes_counted(
    v: StatsView,
    status: u16,
    other_status: u16,
    bytes: u64,
    ms: u64,
)
    ensures
        v.step(TrackerStep::Responded(status, bytes, ms)).total_response_bytes == wrap_add_u64(
            v.total_response_bytes,
            bytes,
        ),
        v.step(TrackerStep::Responded(status, bytes, ms)).total_response_bytes == v.step(
            TrackerStep::Responded(other_status, bytes, ms),
        ).total_response_bytes,
        v.total_response_bytes + bytes <= u64::MAX ==> v.step(
            TrackerStep::Responded(status, bytes, ms),
        ).total_response_bytes == v.total_response_bytes + bytes,
{
}

/// `s` is the snapshot of the counters `v`: every counter as it stands, the codes and kinds
/// with a count above zero each once, and the minimum response time read as zero until a
/// response was counted.
pub open spec fn snapshot_of(s: DownloaderStats, v: StatsView) -> bool {
    &&& s.active_requests == v.active_requests
    &&& s.waiting_requests == v.waiting_requests
    &&& s.peak_concurrent_requests == v.peak_queued_requests
    &&& s.total_requests == v.total_requests
    &&& s.total_responses == v.total_responses
    &&& s.total_exceptions == v.total_exceptions
    &&& s.total_request_bytes == v.total_request_bytes
    &&& s.total_response_bytes == v.total_response_bytes
    &&& s.total_response_time_ms == v.total_response_time_ms
    &&& s.min_response_time_ms == (if v.min_response_time_ms == u64::MAX {
        0
    } else {
        v.min_response_time_ms
    })
    &&& s.max_response_time_ms == v.max_response_time_ms
    &&& s.rate_limited_count == v.rate_limited_count
    &&& s.status_counts@ == nonzero_counts(v.status_counts)
    &&& lists_nonzero_counts(
        s.exception_counts@.map_values(|e: (String, u64)| (e.0@, e.1)),
        v.exception_counts,
    )
}

/// Counts what the downloader does: requests waiting and in flight, responses by status,
/// failures by kind, bytes and response times.
pub struct StatsTracker {
    active_requests: usize,
    waiting_requests: usize,
    peak_queued_requests: usize,
    total_requests: u64,
    total_responses: u64,
    total_exceptions: u64,
    status_counts: DashMap<u16, u64>,
    exception_counts: DashMap<String, u64>,
    total_request_bytes: u64,
    total_response_bytes: u64,
    total_response_time_ms: u64,
    min_response_time_ms: u64,
    max_response_time_ms: u64,
    rate_limited_count: u64,
}

impl View for StatsTracker {
    type V = StatsView;

    /// The counters as the contracts speak of them.
    closed spec fn view(&self) -> StatsView {
        StatsView {
            active_requests: self.active_requests,
            waiting_requests: self.waiting_requests,
            peak_queued_requests: self.peak_queued_requests,
            total_requests: self.total_requests,
            total_responses: self.total_responses,
            total_exceptions: self.total_exceptions,
            status_counts: status_count_map(self.status_counts),
            exception_counts: exception_count_map(self.exception_counts),
            total_request_bytes: self.total_request_bytes,
            total_response_bytes: self.total_response_bytes,
            total_response_time_ms: self.total_response_time_ms,
            min_response_time_ms: self.min_response_time_ms,
            max_response_time_ms: self.max_response_time_ms,
            rate_limited_count: self.rate_limited_count,
        }
    }

}

impl StatsTracker {
    /// Until a response is counted the minimum stays at `u64::MAX` and the maximum at zero;
    /// after that the minimum is not above the maximum.
    pub closed spec fn wf(&self) -> bool {
        ||| self.min_response_time_ms <= self.max_response_time_ms
        ||| (self.min_response_time_ms == u64::MAX && self.max_response_time_ms == 0)
    }

    /// Once a response was counted the minimum response time is not above the maximum;
    /// before, they stand at `u64::MAX` and zero.
    pub proof fn lemma_min_max(&self)
        requires
            self.wf(),
        ensures
            self.view().min_response_time_ms <= self.view().max_response_time_ms || (
            self.view().min_response_time_ms == u64::MAX && self.view().max_response_time_ms
                == 0),
    {
    }

    pub fn new() -> (t: Self)
        ensures
            t.wf(),
            t.view() == fresh_stats(),
            t.view() == (StatsView {
                active_requests: 0,
                waiting_requests: 0,
                peak_queued_requests: 0,
                total_requests: 0,
                total_responses: 0,
                total_exceptions: 0,
                status_counts: Map::empty(),
                exception_counts: Map::empty(),
                total_request_bytes: 0,
                total_response_bytes: 0,
                total_response_time_ms: 0,
                min_response_time_ms: u64::MAX,
                max_response_time_ms: 0,
                rate_limited_count: 0,
            }),
    {
        let t = StatsTracker {
            active_requests: 0,
            waiting_requests: 0,
            peak_queued_requests: 0,
            total_requests: 0,
            total_responses: 0,
            total_exceptions: 0,
            status_counts: status_map_new(),
            exception_counts: exception_map_new(),
            total_request_bytes: 0,
            total_response_bytes: 0,
            total_response_time_ms: 0,
            min_response_time_ms: u64::MAX,
            max_response_time_ms: 0,
            rate_limited_count: 0,
        };
        assert(t.view().status_counts =~= Map::<u16, u64>::empty());
        assert(t.view().exception_counts =~= Map::<Seq<char>, u64>::empty());
        t
    }

    /// No request is being downloaded.
    pub fn is_idle(&self) -> (b: bool)
        ensures
            b == (self.view().active_requests == 0),
    {
        self.active_requests == 0
    }

    /// The number of requests waiting for a download slot.
    pub fn get_waiting(&self) -> (n: usize)
        ensures
            n == self.view().waiting_requests,
    {
        self.waiting_requests
    }

    /// A request of `size` bytes was sent.
    pub fn inc_requests(&mut self, size: u64)
        requires
            old(self).wf(),
        ensures
            final(self).wf(),
            final(self).view() == (StatsView {
                total_requests: wrap_add_u64(old(self).view().total_requests, 1),
                total_request_bytes: wrap_add_u64(old(self).view().total_request_bytes, size),
                ..old(self).view()
            }),
    {
        self.total_requests = add_u64_wrapping(self.total_requests, 1);
        self.total_request_bytes = add_u64_wrapping(self.total_request_bytes, size);
    }

    /// Raises the peak to `current_total` if it is higher.
    fn update_peak_queued(&mut self, current_total: usize)
        requires
            old(self).wf(),
        ensures
            final(self).wf(),
            final(self).view() == (StatsView {
                peak_queued_requests: if current_total > old(self).view().peak_queued_requests {
                    current_total
                } else {
                    old(self).view().peak_queued_requests
                },
                ..old(self).view()
            }),
    {
        if current_total > self.peak_queued_requests {
            self.peak_queued_requests = current_total;
        }
    }

    /// A request starts waiting; the peak follows waiting plus active requests.
    pub fn inc_waiting(&mut self)
        requires
            old(self).wf(),
            old(self).view().waiting_requests + 1 + old(self).view().active_requests
                <= usize::MAX,
        ensures
            final(self).wf(),
            ({
                let w = (old(self).view().waiting_requests + 1) as usize;
                let total = w + old(self).view().active_requests;
                final(self).view() == (StatsView {
                    waiting_requests: w,
                    peak_queued_requests: if total > old(self).view().peak_queued_requests {
                        total as usize
                    } else {
                        old(self).view().peak_queued_requests
                    },
                    ..old(self).view()
                })
            }),
    {
        self.waiting_requests = self.waiting_requests + 1;
        let current = self.waiting_requests;
        self.update_peak_queued(current + self.active_requests);
    }

    /// A waiting request got its download slot.
    pub fn dec_waiting_inc_active(&mut self)
        requires
            old(self).wf(),
            old(self).view().active_requests + 1 + wrap_dec(old(self).view().waiting_requests)
                <= usize::MAX,
        ensures
            final(self).wf(),
            ({
                let w = wrap_dec(old(self).view().waiting_requests);
                let a = (old(self).view().active_requests + 1) as usize;
                let total = a + w;
                final(self).view() == (StatsView {
                    waiting_requests: w,
                    active_requests: a,
                    peak_queued_requests: if total > old(self).view().peak_queued_requests {
                        total as usize
                    } else {
                        old(self).view().peak_queued_requests
                    },
                    ..old(self).view()
                })
            }),
    {
        self.waiting_requests = if self.waiting_requests == 0 {
            usize::MAX
        } else {
            self.waiting_requests - 1
        };
        self.active_requests = self.active_requests + 1;
        let current = self.active_requests;
        self.update_peak_queued(current + self.waiting_requests);
    }

    /// A download finished.
    pub fn dec_active(&mut self)
        requires
            old(self).wf(),
        ensures
            final(self).wf(),
            final(self).view() == (StatsView {
                active_requests: wrap_dec(old(self).view().active_requests),
                ..old(self).view()
            }),
    {
        self.active_requests = if self.active_requests == 0 {
            usize::MAX
        } else {
            self.active_requests - 1
        };
    }

    /// A response with status `status`, of `response_bytes` bytes, came after
    /// `response_time_ms` milliseconds.
    pub fn inc_response(&mut self, status: u16, response_bytes: u64, response_time_ms: u64)
        requires
            old(self).wf(),
        ensures
            final(self).wf(),
            final(self).view() == (StatsView {
                total_responses: wrap_add_u64(old(self).view().total_responses, 1),
                total_response_bytes: wrap_add_u64(
                    old(self).view().total_response_bytes,
                    response_bytes,
                ),
                status_counts: bump(old(self).view().status_counts, status),
                total_response_time_ms: wrap_add_u64(
                    old(self).view().total_response_time_ms,
                    response_time_ms,
                ),
                min_response_time_ms: if response_time_ms < old(
                    self,
                ).view().min_response_time_ms {
                    response_time_ms
                } else {
                    old(self).view().min_response_time_ms
                },
                max_response_time_ms: if response_time_ms > old(
                    self,
                ).view().max_response_time_ms {
                    response_time_ms
                } else {
                    old(self).view().max_response_time_ms
                },
                ..old(self).view()
            }),
            final(self).view().min_response_time_ms <= response_time_ms
                <= final(self).view().max_response_time_ms,
    {
        self.total_responses = add_u64_wrapping(self.total_responses, 1);
        self.total_response_bytes = add_u64_wrapping(self.total_response_bytes, response_bytes);
        let current = match status_map_get(&self.status_counts, status) {
            Some(c) => c,
            None => 0,
        };
        status_map_insert(&mut self.status_counts, status, add_u64_wrapping(current, 1));
        self.total_response_time_ms = add_u64_wrapping(
            self.total_response_time_ms,
            response_time_ms,
        );
        self.update_min_max_response_time(response_time_ms);
    }

    /// A request failed with an error of kind `error_type`.
    pub fn inc_exception(&mut self, error_type: &str)
        requires
            old(self).wf(),
        ensures
            final(self).wf(),
            final(self).view() == (StatsView {
                total_exceptions: wrap_add_u64(old(self).view().total_exceptions, 1),
                exception_counts: bump(old(self).view().exception_counts, error_type@),
                ..old(self).view()
            }),
    {
        self.total_exceptions = add_u64_wrapping(self.total_exceptions, 1);
        let current = match exception_map_get(&self.exception_counts, error_type) {
            Some(c) => c,
            None => 0,
        };
        exception_map_insert(
            &mut self.exception_counts,
            String::from_str(error_type),
            add_u64_wrapping(current, 1),
        );
    }

    /// A request had to wait for the rate limiter.
    pub fn inc_rate_limited(&mut self)
        requires
            old(self).wf(),
        ensures
            final(self).wf(),
            final(self).view() == (StatsView {
                rate_limited_count: wrap_add_u64(old(self).view().rate_limited_count, 1),
                ..old(self).view()
            }),
    {
        self.rate_limited_count = add_u64_wrapping(self.rate_limited_count, 1);
    }

    /// `bytes` more request bytes were sent.
    pub fn add_request_bytes(&mut self, bytes: u64)
        requires
            old(self).wf(),
        ensures
            final(self).wf(),
            final(self).view() == (StatsView {
                total_request_bytes: wrap_add_u64(old(self).view().total_request_bytes, bytes),
                ..old(self).view()
            }),
    {
        self.total_request_bytes = add_u64_wrapping(self.total_request_bytes, bytes);
    }

    /// How many responses had status `status_code`; zero for a code not seen.
    pub fn get_status_count(&self, status_code: u16) -> (n: u64)
        ensures
            n == (if self.view().status_counts.contains_key(status_code) {
                self.view().status_counts[status_code]
            } else {
                0
            }),
    {
        match status_map_get(&self.status_counts, status_code) {
            Some(c) => c,
            None => 0,
        }
    }

    /// How many requests failed with errors of kind `error_type`; zero for a kind not seen.
    pub fn get_exception_count(&self, error_type: &str) -> (n: u64)
        ensures
            n == (if self.view().exception_counts.contains_key(error_type@) {
                self.view().exception_counts[error_type@]
            } else {
                0
            }),
    {
        match exception_map_get(&self.exception_counts, error_type) {
            Some(c) => c,
            None => 0,
        }
    }

    /// Every status code seen, each once, in no stated order.
    pub fn get_all_status_codes(&self) -> (codes: Vec<u16>)
        ensures
            codes@.no_duplicates(),
            codes@.to_set() == self.view().status_counts.dom(),
    {
        let entries = status_map_entries(&self.status_counts);
        let mut codes: Vec<u16> = Vec::new();
        let mut i: usize = 0;
        while i < entries.len()
            invariant
                0 <= i <= entries@.len(),
                codes@ == entries@.take(i as int).map_values(|e: (u16, u64)| e.0),
                forall|a: int, b: int| 0 <= a < b < entries@.len() ==> entries@[a].0 != entries@[b].0,
            decreases entries@.len() - i,
        {
            codes.push(entries[i].0);
            assert(entries@.take(i + 1).map_values(|e: (u16, u64)| e.0) =~= entries@.take(
                i as int,
            ).map_values(|e: (u16, u64)| e.0).push(entries@[i as int].0));
            i = i + 1;
        }
        proof {
            assert(entries@.take(entries@.len() as int) =~= entries@);
            let ghost m = self.view().status_counts;
            assert forall|a: int, b: int| 0 <= a < b < codes@.len() implies codes@[a] != codes@[b] by {
                assert(codes@[a] == entries@[a].0 && codes@[b] == entries@[b].0);
            }
            assert forall|k: u16| codes@.to_set().contains(k) <==> m.dom().contains(k) by {
                if m.dom().contains(k) {
                    let j = choose|j: int| 0 <= j < entries@.len() && #[trigger] entries@[j].0 == k;
                    assert(codes@[j] == k);
                    assert(codes@.contains(k));
                }
                if codes@.contains(k) {
                    let j = choose|j: int| 0 <= j < codes@.len() && codes@[j] == k;
                    assert(entries@[j].0 == k);
                }
            }
            assert(codes@.to_set() =~= m.dom());
        }
        codes
    }

    /// Every kind of error seen, each once, in no stated order.
    pub fn get_all_exception_types(&self) -> (types: Vec<String>)
        ensures
            types@.len() == self.view().exception_counts.dom().len(),
            forall|a: int, b: int| 0 <= a < b < types@.len() ==> types@[a]@ != types@[b]@,
            forall|k: Seq<char>|
                self.view().exception_counts.contains_key(k) <==> exists|i: int|
                    0 <= i < types@.len() && #[trigger] types@[i]@ == k,
    {
        let entries = exception_map_entries(&self.exception_counts);
        let mut types: Vec<String> = Vec::new();
        let mut i: usize = 0;
        while i < entries.len()
            invariant
                0 <= i <= entries@.len(),
                types@.len() == i,
                forall|j: int| 0 <= j < i ==> #[trigger] types@[j]@ == entries@[j].0@,
            decreases entries@.len() - i,
        {
            let name = String::from_str(entries[i].0.as_str());
            types.push(name);
            i = i + 1;
        }
        proof {
            let m = self.view().exception_counts;
            assert forall|k: Seq<char>|
                m.contains_key(k) <==> exists|i: int|
                    0 <= i < types@.len() && #[trigger] types@[i]@ == k by {
                if m.contains_key(k) {
                    let j = choose|j: int| 0 <= j < entries@.len() && #[trigger] entries@[j].0@ == k;
                    assert(types@[j]@ == k);
                }
            }
            let keys = types@.map_values(|s: String| s@);
            assert(keys.no_duplicates());
            assert(keys.to_set() =~= m.dom()) by {
                assert forall|k: Seq<char>| keys.to_set().contains(k) <==> m.dom().contains(k) by {
                    if m.dom().contains(k) {
                        let j = choose|j: int| 0 <= j < types@.len() && #[trigger] types@[j]@ == k;
                        assert(keys[j] == k);
                    }
                    if keys.contains(k) {
                        let j = choose|j: int| 0 <= j < keys.len() && keys[j] == k;
                        assert(types@[j]@ == k);
                    }
                }
            }
            keys.unique_seq_to_set();
        }
        types
    }

    /// A snapshot of the counters. Only codes and kinds with a count above zero are listed;
    /// the minimum response time reads zero until a response was counted, so it is never
    /// above the maximum.
    pub fn get_stats(&self) -> (s: DownloaderStats)
        requires
            self.wf(),
        ensures
            snapshot_of(s, self.view()),
            s.min_response_time_ms <= s.max_response_time_ms,
    {
        let ghost m = self.view().status_counts;
        let entries = status_map_entries(&self.status_counts);
        let mut status_counts: HashMap<u16, u64> = HashMap::new();
        let mut i: usize = 0;
        while i < entries.len()
            invariant
                0 <= i <= entries@.len(),
                m == self.view().status_counts,
                forall|j: int|
                    0 <= j < entries@.len() ==> m.contains_key(#[trigger] entries@[j].0)
                        && m[entries@[j].0] == entries@[j].1,
                forall|k: u16|
                    #[trigger] status_counts@.contains_key(k) ==> m.contains_key(k) && m[k] > 0
                        && status_counts@[k] == m[k],
                forall|j: int|
                    0 <= j < i && #[trigger] entries@[j].1 > 0 ==> status_counts@.contains_key(
                        entries@[j].0,
                    ),
            decreases entries@.len() - i,
        {
            let e = entries[i];
            if e.1 > 0 {
                status_counts.insert(e.0, e.1);
            }
            i = i + 1;
        }
        proof {
            assert forall|k: u16| #[trigger] nonzero_counts(m).contains_key(k) implies status_counts@.contains_key(k) by {
                let j = choose|j: int| 0 <= j < entries@.len() && #[trigger] entries@[j].0 == k;
                assert(entries@[j].1 > 0);
            }
            assert(status_counts@ =~= nonzero_counts(m));
        }
        let ghost mx = self.view().exception_counts;
        let xentries = exception_map_entries(&self.exception_counts);
        let mut exception_counts: Vec<(String, u64)> = Vec::new();
        let ghost mut xtaken: Seq<int> = Seq::empty();
        let mut i: usize = 0;
        while i < xentries.len()
            invariant
                0 <= i <= xentries@.len(),
                mx == self.view().exception_counts,
                forall|a: int, b: int|
                    0 <= a < b < xentries@.len() ==> xentries@[a].0@ != xentries@[b].0@,
                forall|j: int|
                    0 <= j < xentries@.len() ==> mx.contains_key(#[trigger] xentries@[j].0@)
                        && mx[xentries@[j].0@] == xentries@[j].1,
                xtaken.len() == exception_counts@.len(),
                forall|t: int| 0 <= t < xtaken.len() ==> 0 <= #[trigger] xtaken[t] < i,
                forall|t: int, u: int| 0 <= t < u < xtaken.len() ==> xtaken[t] < xtaken[u],
                forall|t: int|
                    0 <= t < xtaken.len() ==> #[trigger] exception_counts@[t].0@
                        == xentries@[xtaken[t]].0@ && exception_counts@[t].1
                        == xentries@[xtaken[t]].1,
                forall|j: int|
                    0 <= j < i && #[trigger] xentries@[j].1 > 0 ==> exists|t: int|
                        0 <= t < xtaken.len() && xtaken[t] == j,
                forall|t: int|
                    0 <= t < exception_counts@.len() ==> #[trigger] exception_counts@[t].1 > 0,
            decreases xentries@.len() - i,
        {
            let count = xentries[i].1;
            let ghost old_taken = xtaken;
            if count > 0 {
                let name = String::from_str(xentries[i].0.as_str());
                exception_counts.push((name, count));
                proof {
                    xtaken = xtaken.push(i as int);
                }
            }
            proof {
                assert forall|j: int| 0 <= j < i + 1 && #[trigger] xentries@[j].1 > 0 implies exists|
                    t: int,
                | 0 <= t < xtaken.len() && xtaken[t] == j by {
                    if j == i {
                        assert(xtaken[xtaken.len() - 1] == j);
                    } else {
                        let t = choose|t: int| 0 <= t < old_taken.len() && old_taken[t] == j;
                        assert(xtaken[t] == j);
                    }
                }
            }
            i = i + 1;
        }
        let ghost ec = exception_counts@;
        let stats = DownloaderStats {
            active_requests: self.active_requests,
            waiting_requests: self.waiting_requests,
            peak_concurrent_requests: self.peak_queued_requests,
            total_requests: self.total_requests,
            total_responses: self.total_responses,
            total_exceptions: self.total_exceptions,
            status_counts,
            exception_counts,
            total_request_bytes: self.total_request_bytes,
            total_response_bytes: self.total_response_bytes,
            total_response_time_ms: self.total_response_time_ms,
            min_response_time_ms: if self.min_response_time_ms == u64::MAX {
                0
            } else {
                self.min_response_time_ms
            },
            max_response_time_ms: self.max_response_time_ms,
            rate_limited_count: self.rate_limited_count,
        };
        proof {
            assert forall|a: int, b: int|
                0 <= a < b < ec.len() implies ec[a].0@
                != ec[b].0@ by {
                assert(ec[a].0@ == xentries@[xtaken[a]].0@);
                assert(ec[b].0@ == xentries@[xtaken[b]].0@);
            }
            assert forall|t: int| 0 <= t < ec.len() implies self.view().exception_counts.contains_key(
                #[trigger] ec[t].0@,
            ) && self.view().exception_counts[ec[t].0@] == ec[t].1 by {
                assert(ec[t].0@ == xentries@[xtaken[t]].0@);
            }
            assert forall|k: Seq<char>| self.view().exception_counts.contains_key(k) && self.view().exception_counts[k] > 0 implies exists|t: int|
                0 <= t < ec.len() && #[trigger] ec[t].0@ == k by {
                let j = choose|j: int| 0 <= j < xentries@.len() && #[trigger] xentries@[j].0@ == k;
                assert(xentries@[j].1 > 0);
                let t = choose|t: int| 0 <= t < xtaken.len() && xtaken[t] == j;
                assert(ec[t].0@ == xentries@[j].0@);
            }
        }
        proof {
            let ev = ec.map_values(|e: (String, u64)| (e.0@, e.1));
            assert forall|k: Seq<char>|
                self.view().exception_counts.contains_key(k) && self.view().exception_counts[k] > 0
                implies exists|i: int| 0 <= i < ev.len() && #[trigger] ev[i].0 == k by {
                let t = choose|t: int| 0 <= t < ec.len() && #[trigger] ec[t].0@ == k;
                assert(ev[t].0 == k);
            }
            assert forall|i: int| 0 <= i < ev.len() implies self.view().exception_counts.contains_key(
                #[trigger] ev[i].0,
            ) && self.view().exception_counts[ev[i].0] == ev[i].1 && ev[i].1 > 0 by {
                assert(ev[i].0 == ec[i].0@);
            }
            assert(lists_nonzero_counts(ev, self.view().exception_counts));
        }
        stats
    }

    /// Lowers the minimum and raises the maximum response time to `response_time_ms` where
    /// it goes beyond them.
    fn update_min_max_response_time(&mut self, response_time_ms: u64)
        requires
            old(self).wf(),
        ensures
            final(self).wf(),
            final(self).view() == (StatsView {
                min_response_time_ms: if response_time_ms < old(
                    self,
                ).view().min_response_time_ms {
                    response_time_ms
                } else {
                    old(self).view().min_response_time_ms
                },
                max_response_time_ms: if response_time_ms > old(
                    self,
                ).view().max_response_time_ms {
                    response_time_ms
                } else {
                    old(self).view().max_response_time_ms
                },
                ..old(self).view()
            }),
            final(self).view().min_response_time_ms <= response_time_ms
                <= final(self).view().max_response_time_ms,
    {
        if response_time_ms < self.min_response_time_ms {
            self.min_response_time_ms = response_time_ms;
        }
        if response_time_ms > self.max_response_time_ms {
            self.max_response_time_ms = response_time_ms;
        }
    }
}

} // verus!
