//! Decisions of the writer, freshness-probe and query workers. Each function
//! takes what the last outside step produced (a provider outcome, a latency)
//! and returns what to record and what to do next; the caller performs it.
use vstd::prelude::*;
use crate::config::QueryConfig;
use crate::decimal::{decimal_of, to_decimal};
use crate::document::{BatchError, Document, batch_byte_size, batch_size, is_max_id, ids_numeric, id_value, max_numeric_id};
use crate::names::{MetricName, Observation, count_of, lemma_count_of_concat, obs};
use crate::outside::{contains_spec, random_range, str_contains};
use crate::query::Query;
use crate::recall::{RecallError, calculate_recall, recall_spec, all_ids_numeric};

verus! {

/// Shortest pause before a failed provider call is retried.
pub const RETRY_DELAY_MIN_MS: u64 = 10;

/// Bound (exclusive) of the pause before a failed provider call is retried.
pub const RETRY_DELAY_MAX_MS: u64 = 100;

/// Pause between two point lookups of a freshness probe.
pub const PROBE_INTERVAL_MS: u64 = 10;

/// Capacity of the channel that carries batches to the writers.
pub const BATCH_CHANNEL_CAPACITY: usize = 100;

/// Capacity of the channel that carries queries to the query workers.
pub const QUERY_CHANNEL_CAPACITY: usize = 1000;

/// The text that marks a provider error as a request to stop.
pub open spec fn interrupt_marker() -> Seq<char> {
    "KeyboardInterrupt"@
}

/// A randomized pause in `[RETRY_DELAY_MIN_MS, RETRY_DELAY_MAX_MS)`.
pub fn retry_delay_ms() -> (r: u64)
    ensures
        RETRY_DELAY_MIN_MS <= r < RETRY_DELAY_MAX_MS,
{
    random_range(RETRY_DELAY_MIN_MS, RETRY_DELAY_MAX_MS)
}

/// What a writer needs to know of a batch before it sends it.
#[derive(Debug, Clone, Copy, PartialEq, Eq, Structural)]
pub struct PreparedBatch {
    pub doc_count: usize,
    pub byte_size: usize,
    pub max_id: u64,
}

/// Size, count and largest ID of a batch; fatal when the batch is empty or an
/// ID is not numeric.
pub fn prepare_batch(docs: &Vec<Document>) -> (r: Result<PreparedBatch, BatchError>)
    requires
        batch_size(docs@) <= usize::MAX,
    ensures
        docs@.len() == 0 ==> r == Err::<PreparedBatch, BatchError>(BatchError::EmptyBatch),
        docs@.len() > 0 && ids_numeric(docs@) ==> (r matches Ok(b) && b.doc_count == docs@.len()
            && b.byte_size == batch_size(docs@) && is_max_id(docs@, b.max_id)),
        docs@.len() > 0 && !ids_numeric(docs@) ==> (r matches Err(BatchError::InvalidId { index })
            && index < docs@.len() && id_value(docs@[index as int]).is_none() && ids_numeric(
            docs@.take(index as int),
        )),
{
    let byte_size = batch_byte_size(docs);
    let max_id = max_numeric_id(docs)?;
    Ok(PreparedBatch { doc_count: docs.len(), byte_size, max_id })
}

/// How an upsert call ended.
pub enum UpsertOutcome {
    Success,
    /// The provider's error, as text.
    Failure { message: String },
}

/// What a writer does after an upsert call.
pub enum WriterAction {
    /// The batch is stored: probe until the document with this ID is visible,
    /// then take the next batch.
    ProbeFreshness { id: String },
    /// Send the whole batch again after this pause.
    RetryAfter { delay_ms: u64 },
    /// The provider reported a stop request: give the batch up.
    Abandon,
}

pub struct WriterStep {
    pub observations: Vec<Observation>,
    pub action: WriterAction,
}

/// What one upsert attempt records.
pub open spec fn upsert_observations(b: PreparedBatch, succeeded: bool, latency_ms: u64) -> Seq<
    Observation,
> {
    if succeeded {
        seq![
            obs(MetricName::IngestRequests, 1),
            obs(MetricName::IngestOks, 1),
            obs(MetricName::UpsertedDocs, b.doc_count as u64),
            obs(MetricName::UpsertedBytes, b.byte_size as u64),
            obs(MetricName::IngestLatency, latency_ms),
        ]
    } else {
        seq![obs(MetricName::IngestRequests, 1), obs(MetricName::IngestErrors, 1)]
    }
}

/// The writer's decision after an upsert of `batch` that took `latency_ms`.
pub fn after_upsert(batch: &PreparedBatch, outcome: &UpsertOutcome, latency_ms: u64) -> (r:
    WriterStep)
    ensures
        r.observations@ == upsert_observations(*batch, outcome is Success, latency_ms),
        outcome is Success ==> (r.action matches WriterAction::ProbeFreshness { id } && id@
            == decimal_of(batch.max_id as nat)),
        outcome matches UpsertOutcome::Failure { message } ==> if contains_spec(
            message@,
            interrupt_marker(),
        ) {
            r.action is Abandon
        } else {
            r.action matches WriterAction::RetryAfter { delay_ms } && RETRY_DELAY_MIN_MS
                <= delay_ms < RETRY_DELAY_MAX_MS
        },
{
    match outcome {
        UpsertOutcome::Success => {
            let observations = vec![
                Observation { metric: MetricName::IngestRequests, value: 1 },
                Observation { metric: MetricName::IngestOks, value: 1 },
                Observation { metric: MetricName::UpsertedDocs, value: batch.doc_count as u64 },
                Observation { metric: MetricName::UpsertedBytes, value: batch.byte_size as u64 },
                Observation { metric: MetricName::IngestLatency, value: latency_ms },
            ];
            assert(observations@ =~= upsert_observations(*batch, true, latency_ms));
            WriterStep {
                observations,
                action: WriterAction::ProbeFreshness { id: to_decimal(batch.max_id) },
            }
        },
        UpsertOutcome::Failure { message } => {
            let observations = vec![
                Observation { metric: MetricName::IngestRequests, value: 1 },
                Observation { metric: MetricName::IngestErrors, value: 1 },
            ];
            assert(observations@ =~= upsert_observations(*batch, false, latency_ms));
            let action = if str_contains(message.as_str(), "KeyboardInterrupt") {
                WriterAction::Abandon
            } else {
                WriterAction::RetryAfter { delay_ms: retry_delay_ms() }
            };
            WriterStep { observations, action }
        },
    }
}

/// What a run of upsert attempts records, one outcome (`true` for success)
/// and one latency per attempt.
pub open spec fn attempts_observations(b: PreparedBatch, outcomes: Seq<bool>, latencies: Seq<u64>) -> Seq<
    Observation,
>
    decreases outcomes.len(),
{
    if outcomes.len() == 0 || latencies.len() == 0 {
        Seq::empty()
    } else {
        attempts_observations(b, outcomes.drop_last(), latencies.drop_last()) + upsert_observations(
            b,
            outcomes.last(),
            latencies.last(),
        )
    }
}

/// `n` failed attempts followed by one success.
pub open spec fn fails_then_succeeds(n: nat) -> Seq<bool> {
    Seq::new(n, |i: int| false).push(true)
}

/// Retry accounting: when a batch fails `n` times and then succeeds, the
/// writer records exactly `n` errors, one success and `n + 1` requests.
pub proof fn lemma_retry_accounting(b: PreparedBatch, n: nat, latencies: Seq<u64>)
    requires
        latencies.len() == n + 1,
    ensures
        count_of(attempts_observations(b, fails_then_succeeds(n), latencies), MetricName::IngestErrors)
            == n,
        count_of(attempts_observations(b, fails_then_succeeds(n), latencies), MetricName::IngestOks)
            == 1,
        count_of(attempts_observations(b, fails_then_succeeds(n), latencies), MetricName::IngestRequests)
            == n + 1,
{
    let outs = fails_then_succeeds(n);
    assert(outs.drop_last() =~= Seq::new(n, |i: int| false));
    lemma_failures_accounting(b, n, latencies.drop_last());
    let pre = attempts_observations(b, outs.drop_last(), latencies.drop_last());
    let last = upsert_observations(b, true, latencies.last());
    assert(attempts_observations(b, outs, latencies) == pre + last);
    lemma_count_of_concat(pre, last, MetricName::IngestErrors);
    lemma_count_of_concat(pre, last, MetricName::IngestOks);
    lemma_count_of_concat(pre, last, MetricName::IngestRequests);
    reveal_with_fuel(count_of, 6);
}

proof fn lemma_failures_accounting(b: PreparedBatch, n: nat, latencies: Seq<u64>)
    requires
        latencies.len() == n,
    ensures
        count_of(attempts_observations(b, Seq::new(n, |i: int| false), latencies), MetricName::IngestErrors) == n,
        count_of(attempts_observations(b, Seq::new(n, |i: int| false), latencies), MetricName::IngestOks) == 0,
        count_of(attempts_observations(b, Seq::new(n, |i: int| false), latencies), MetricName::IngestRequests) == n,
    decreases n,
{
    let outs = Seq::new(n, |i: int| false);
    if n == 0 {
        assert(attempts_observations(b, outs, latencies) =~= Seq::<Observation>::empty());
    } else {
        assert(outs.drop_last() =~= Seq::new((n - 1) as nat, |i: int| false));
        lemma_failures_accounting(b, (n - 1) as nat, latencies.drop_last());
        let pre = attempts_observations(b, outs.drop_last(), latencies.drop_last());
        let last = upsert_observations(b, false, latencies.last());
        assert(attempts_observations(b, outs, latencies) == pre + last);
        lemma_count_of_concat(pre, last, MetricName::IngestErrors);
        lemma_count_of_concat(pre, last, MetricName::IngestOks);
        lemma_count_of_concat(pre, last, MetricName::IngestRequests);
        reveal_with_fuel(count_of, 3);
    }
}

/// A freshness probe: repeated point lookups of one written ID until it is
/// visible.
pub struct FreshnessProbe {
    misses: u64,
    waited_ms: u64,
}

pub enum ProbeAction {
    /// Look the ID up again after this pause.
    PollAfter { delay_ms: u64 },
    /// The ID is visible: the probe ends.
    Done,
}

pub struct ProbeStep {
    pub observations: Vec<Observation>,
    pub action: ProbeAction,
}

impl FreshnessProbe {
    /// Lookups so far that did not find the ID.
    pub closed spec fn misses(&self) -> nat {
        self.misses as nat
    }

    /// Total pause the probe has asked for so far.
    pub closed spec fn waited(&self) -> nat {
        self.waited_ms as nat
    }

    /// Every miss has asked for one pause.
    pub open spec fn wf(&self) -> bool {
        self.waited() == self.misses() * PROBE_INTERVAL_MS
    }

    pub fn new() -> (r: FreshnessProbe)
        ensures
            r.wf(),
            r.misses() == 0,
            r.waited() == 0,
    {
        FreshnessProbe { misses: 0, waited_ms: 0 }
    }

    /// Whether one more pause can be counted.
    pub fn can_poll(&self) -> (r: bool)
        ensures
            r == (self.waited() + PROBE_INTERVAL_MS <= u64::MAX),
    {
        self.waited_ms <= u64::MAX - PROBE_INTERVAL_MS
    }

    pub fn misses_so_far(&self) -> (r: u64)
        ensures
            r == self.misses(),
    {
        self.misses
    }

    /// The probe's decision after a lookup that took `lookup_ms`, `elapsed_ms`
    /// after the upsert succeeded.
    pub fn after_lookup(&mut self, found: bool, lookup_ms: u64, elapsed_ms: u64) -> (r: ProbeStep)
        requires
            old(self).wf(),
            old(self).waited() + PROBE_INTERVAL_MS <= u64::MAX,
        ensures
            final(self).wf(),
            found ==> r.observations@ == seq![
                obs(MetricName::QueryByIdLatency, lookup_ms),
                obs(MetricName::FreshnessLatency, elapsed_ms),
            ] && r.action is Done && *final(self) == *old(self),
            !found ==> r.observations@ == seq![obs(MetricName::QueryByIdLatency, lookup_ms)]
                && r.action == (ProbeAction::PollAfter { delay_ms: PROBE_INTERVAL_MS })
                && final(self).misses() == old(self).misses() + 1 && final(self).waited()
                == old(self).waited() + PROBE_INTERVAL_MS,
    {
        let lookup = Observation { metric: MetricName::QueryByIdLatency, value: lookup_ms };
        if found {
            let observations = vec![
                lookup,
                Observation { metric: MetricName::FreshnessLatency, value: elapsed_ms },
            ];
            assert(observations@ =~= seq![
                obs(MetricName::QueryByIdLatency, lookup_ms),
                obs(MetricName::FreshnessLatency, elapsed_ms),
            ]);
            ProbeStep { observations, action: ProbeAction::Done }
        } else {
            self.misses = self.misses + 1;
            self.waited_ms = self.waited_ms + PROBE_INTERVAL_MS;
            let observations = vec![lookup];
            assert(observations@ =~= seq![obs(MetricName::QueryByIdLatency, lookup_ms)]);
            ProbeStep { observations, action: ProbeAction::PollAfter { delay_ms: PROBE_INTERVAL_MS } }
        }
    }
}

/// Freshness lower bound: a probe whose first `k` lookups miss has asked for
/// `k` pauses of `PROBE_INTERVAL_MS` before its lookup that finds the ID, so
/// the freshness it records then, measured on a clock that has run through
/// those pauses, is at least `k * PROBE_INTERVAL_MS`; and that lookup ends
/// the probe.
pub proof fn lemma_freshness_lower_bound(
    probe: FreshnessProbe,
    k: nat,
    lookup_ms: u64,
    elapsed_ms: u64,
    step: ProbeStep,
    after: FreshnessProbe,
)
    requires
        probe.wf(),
        probe.misses() == k,
        elapsed_ms >= probe.waited(),
        step.observations@ == seq![
            obs(MetricName::QueryByIdLatency, lookup_ms),
            obs(MetricName::FreshnessLatency, elapsed_ms),
        ],
        step.action is Done,
    ensures
        step.observations@[1].value >= k * PROBE_INTERVAL_MS,
        step.observations@[1].metric == MetricName::FreshnessLatency,
        step.action is Done,
{
}

/// How a query call ended.
pub enum QueryOutcome {
    /// The documents the provider returned.
    Results { documents: Vec<Document> },
    Failure,
}

pub enum QueryAction {
    /// The query is served: take the next one.
    Next,
    /// Send the same query again after this pause.
    RetryAfter { delay_ms: u64 },
}

pub struct QueryStep {
    pub observations: Vec<Observation>,
    pub action: QueryAction,
}

/// A retry after a pause in `[RETRY_DELAY_MIN_MS, RETRY_DELAY_MAX_MS)`.
pub open spec fn is_retry_pause(a: QueryAction) -> bool {
    match a {
        QueryAction::RetryAfter { delay_ms } => RETRY_DELAY_MIN_MS <= delay_ms < RETRY_DELAY_MAX_MS,
        QueryAction::Next => false,
    }
}

/// Parts per million of a recall fraction, rounded down.
pub open spec fn ppm_of(numerator: nat, denominator: nat) -> nat {
    numerator * 1_000_000 / denominator
}

/// The query worker's decision after a query call that took `latency_ms`.
/// When `measure_recall` is set, a successful call records the recall of its
/// results instead of its latency.
pub fn after_query(
    outcome: &QueryOutcome,
    measure_recall: bool,
    query: &Query,
    config: &QueryConfig,
    latency_ms: u64,
) -> (r: Result<QueryStep, RecallError>)
    ensures
        outcome is Failure ==> (r matches Ok(s) && s.observations@ == seq![
            obs(MetricName::QueryErrors, 1),
        ] && is_retry_pause(s.action)),
        (outcome is Results && !measure_recall) ==> (r matches Ok(s) && s.observations@ == seq![
            obs(MetricName::QueryOks, 1),
            obs(MetricName::QueryLatency, latency_ms),
        ] && s.action is Next),
        outcome matches QueryOutcome::Results { documents } ==> (measure_recall && all_ids_numeric(
            documents@,
        )) ==> match recall_spec(documents@, *query, *config) {
            Ok(f) => r matches Ok(s) && s.observations@ == seq![
                obs(MetricName::QueryRecall, ppm_of(f.numerator as nat, f.denominator as nat) as u64),
            ] && s.action is Next,
            Err(e) => r == Err::<QueryStep, RecallError>(e),
        },
        outcome matches QueryOutcome::Results { documents } ==> (measure_recall
            && !all_ids_numeric(documents@)) ==> r matches Err(RecallError::InvalidResultId { .. }),
{
    match outcome {
        QueryOutcome::Failure => {
            let observations = vec![Observation { metric: MetricName::QueryErrors, value: 1 }];
            assert(observations@ =~= seq![obs(MetricName::QueryErrors, 1)]);
            Ok(QueryStep { observations, action: QueryAction::RetryAfter { delay_ms: retry_delay_ms() } })
        },
        QueryOutcome::Results { documents } => {
            if measure_recall {
                let f = calculate_recall(documents, query, config)?;
                let ppm = (f.numerator * 1_000_000 / f.denominator) as u64;
                let observations = vec![Observation { metric: MetricName::QueryRecall, value: ppm }];
                assert(observations@ =~= seq![
                    obs(MetricName::QueryRecall, ppm_of(f.numerator as nat, f.denominator as nat) as u64),
                ]);
                Ok(QueryStep { observations, action: QueryAction::Next })
            } else {
                let observations = vec![
                    Observation { metric: MetricName::QueryOks, value: 1 },
                    Observation { metric: MetricName::QueryLatency, value: latency_ms },
                ];
                assert(observations@ =~= seq![
                    obs(MetricName::QueryOks, 1),
                    obs(MetricName::QueryLatency, latency_ms),
                ]);
                Ok(QueryStep { observations, action: QueryAction::Next })
            }
        },
    }
}

} // verus!
