//! The observations the workers record, by name.
use vstd::prelude::*;

verus! {

/// The metric streams of the harness.
#[derive(Debug, Clone, Copy, PartialEq, Eq, Structural)]
pub enum MetricName {
    IngestRecvLatency,
    IngestRequests,
    IngestOks,
    IngestErrors,
    UpsertedDocs,
    UpsertedBytes,
    IngestLatency,
    QueryByIdLatency,
    FreshnessLatency,
    QueryRecvLatency,
    QueryOks,
    QueryErrors,
    QueryLatency,
    /// Recall of one query, in parts per million.
    QueryRecall,
}

/// The text under which each stream is recorded.
pub open spec fn name_text(m: MetricName) -> Seq<char> {
    match m {
        MetricName::IngestRecvLatency => "bench.ingest.recv_latency_ms"@,
        MetricName::IngestRequests => "bench.ingest.requests"@,
        MetricName::IngestOks => "bench.ingest.oks"@,
        MetricName::IngestErrors => "bench.ingest.errors"@,
        MetricName::UpsertedDocs => "bench.ingest.upserted_docs"@,
        MetricName::UpsertedBytes => "bench.ingest.upserted_bytes"@,
        MetricName::IngestLatency => "bench.ingest.latency_ms"@,
        MetricName::QueryByIdLatency => "bench.ingest.query_by_id_latency_ms"@,
        MetricName::FreshnessLatency => "bench.ingest.freshness_latency_ms"@,
        MetricName::QueryRecvLatency => "bench.query.recv_latency_ms"@,
        MetricName::QueryOks => "bench.query.oks"@,
        MetricName::QueryErrors => "bench.query.errors"@,
        MetricName::QueryLatency => "bench.query.latency_ms"@,
        MetricName::QueryRecall => "bench.query.recall_ppm"@,
    }
}

impl MetricName {
    pub fn as_str(&self) -> (r: &'static str)
        ensures
            r@ == name_text(*self),
    {
        match self {
            MetricName::IngestRecvLatency => "bench.ingest.recv_latency_ms",
            MetricName::IngestRequests => "bench.ingest.requests",
            MetricName::IngestOks => "bench.ingest.oks",
            MetricName::IngestErrors => "bench.ingest.errors",
            MetricName::UpsertedDocs => "bench.ingest.upserted_docs",
            MetricName::UpsertedBytes => "bench.ingest.upserted_bytes",
            MetricName::IngestLatency => "bench.ingest.latency_ms",
            MetricName::QueryByIdLatency => "bench.ingest.query_by_id_latency_ms",
            MetricName::FreshnessLatency => "bench.ingest.freshness_latency_ms",
            MetricName::QueryRecvLatency => "bench.query.recv_latency_ms",
            MetricName::QueryOks => "bench.query.oks",
            MetricName::QueryErrors => "bench.query.errors",
            MetricName::QueryLatency => "bench.query.latency_ms",
            MetricName::QueryRecall => "bench.query.recall_ppm",
        }
    }
}

/// One value to record under one stream.
#[derive(Debug, Clone, Copy, PartialEq, Eq, Structural)]
pub struct Observation {
    pub metric: MetricName,
    pub value: u64,
}

pub open spec fn obs(metric: MetricName, value: u64) -> Observation {
    Observation { metric, value }
}

/// How many observations of `s` are recorded under `m`.
pub open spec fn count_of(s: Seq<Observation>, m: MetricName) -> nat
    decreases s.len(),
{
    if s.len() == 0 {
        0
    } else {
        count_of(s.drop_last(), m) + if s.last().metric == m {
            1nat
        } else {
            0nat
        }
    }
}

pub proof fn lemma_count_of_concat(a: Seq<Observation>, b: Seq<Observation>, m: MetricName)
    ensures
        count_of(a + b, m) == count_of(a, m) + count_of(b, m),
    decreases b.len(),
{
    if b.len() == 0 {
        assert(a + b =~= a);
    } else {
        assert((a + b).drop_last() =~= a + b.drop_last());
        lemma_count_of_concat(a, b.drop_last(), m);
    }
}

} // verus!
