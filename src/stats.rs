//! The aggregates a reporter prints for a run, derived from a snapshot.
use vstd::prelude::*;
use crate::names::{MetricName, name_text};
use crate::snapshot::{Fraction, Snapshot, mean_of, named_values, quantile_of, recent_values, seq_sum};

verus! {

/// Share of requests that did not fail: `1 - errors / requests`, or 1 when
/// nothing was requested yet. Errors beyond the request count leave 0.
pub open spec fn availability_spec(requests: u128, errors: u128) -> Fraction {
    if requests == 0 {
        Fraction { numerator: 1, denominator: 1 }
    } else if errors >= requests {
        Fraction { numerator: 0, denominator: requests }
    } else {
        Fraction { numerator: (requests - errors) as u128, denominator: requests }
    }
}

pub fn availability(requests: u128, errors: u128) -> (r: Fraction)
    ensures
        r == availability_spec(requests, errors),
{
    if requests == 0 {
        Fraction { numerator: 1, denominator: 1 }
    } else if errors >= requests {
        Fraction { numerator: 0, denominator: requests }
    } else {
        Fraction { numerator: requests - errors, denominator: requests }
    }
}

/// How an availability is shown.
#[derive(Debug, Clone, Copy, PartialEq, Eq, Structural)]
pub enum AvailabilityLevel {
    /// Exactly 100%.
    Full,
    /// Above 99%.
    High,
    Low,
}

/// The level of a fraction `f` with `f.numerator <= f.denominator` and a
/// non-zero denominator.
pub fn availability_level(f: Fraction) -> (r: AvailabilityLevel)
    requires
        0 < f.denominator,
        f.numerator <= f.denominator,
    ensures
        r == (if f.numerator == f.denominator {
            AvailabilityLevel::Full
        } else if 100 * f.numerator > 99 * f.denominator {
            AvailabilityLevel::High
        } else {
            AvailabilityLevel::Low
        }),
{
    if f.numerator == f.denominator {
        return AvailabilityLevel::Full;
    }
    let failed = f.denominator - f.numerator;
    let high = failed <= (f.denominator - 1) / 100;
    proof {
        let d = f.denominator as int;
        let n = f.numerator as int;
        assert(high == (100 * n > 99 * d)) by (nonlinear_arith)
            requires
                0 <= n < d,
                high == ((d - n) <= (d - 1) / 100),
        ;
    }
    if high {
        AvailabilityLevel::High
    } else {
        AvailabilityLevel::Low
    }
}

/// The unit a byte count is shown in.
#[derive(Debug, Clone, Copy, PartialEq, Eq, Structural)]
pub enum ByteUnit {
    B,
    KB,
    MB,
}

pub fn byte_unit(bytes: u128) -> (r: ByteUnit)
    ensures
        r == (if bytes < 1024 {
            ByteUnit::B
        } else if bytes < 1024 * 1024 {
            ByteUnit::KB
        } else {
            ByteUnit::MB
        }),
{
    if bytes < 1024 {
        ByteUnit::B
    } else if bytes < 1024 * 1024 {
        ByteUnit::KB
    } else {
        ByteUnit::MB
    }
}

/// The write-side figures of a run.
#[derive(Debug, Clone, Copy, PartialEq, Eq, Structural)]
pub struct WriterStats {
    pub availability: Fraction,
    pub bytes_total: u128,
    pub bytes_rate: u128,
    pub latency_p50_ms: u64,
    pub latency_p99_ms: u64,
    pub freshness_max_ms: u64,
    pub recv_max_ms: u64,
}

pub open spec fn total_of(s: Seq<crate::metrics::MetricView>, m: MetricName) -> int {
    seq_sum(named_values(s, name_text(m)))
}

pub fn writer_stats(s: &Snapshot) -> (r: WriterStats)
    ensures
        r.availability == availability_spec(
            total_of(s@, MetricName::IngestRequests) as u128,
            total_of(s@, MetricName::IngestErrors) as u128,
        ),
        r.bytes_total == total_of(s@, MetricName::UpsertedBytes),
        r.bytes_rate == seq_sum(
            recent_values(s@, name_text(MetricName::UpsertedBytes), s.captured_at()),
        ),
        r.latency_p50_ms == quantile_of(named_values(s@, name_text(MetricName::IngestLatency)), 1, 2),
        r.latency_p99_ms == quantile_of(
            named_values(s@, name_text(MetricName::IngestLatency)),
            99,
            100,
        ),
        r.freshness_max_ms == quantile_of(
            named_values(s@, name_text(MetricName::FreshnessLatency)),
            1,
            1,
        ),
        r.recv_max_ms == quantile_of(
            named_values(s@, name_text(MetricName::IngestRecvLatency)),
            1,
            1,
        ),
{
    let requests = s.total(MetricName::IngestRequests.as_str());
    let errors = s.total(MetricName::IngestErrors.as_str());
    WriterStats {
        availability: availability(requests, errors),
        bytes_total: s.total(MetricName::UpsertedBytes.as_str()),
        bytes_rate: s.instantaneous_rate(MetricName::UpsertedBytes.as_str()),
        latency_p50_ms: s.quantile(MetricName::IngestLatency.as_str(), 1, 2),
        latency_p99_ms: s.quantile(MetricName::IngestLatency.as_str(), 99, 100),
        freshness_max_ms: s.quantile(MetricName::FreshnessLatency.as_str(), 1, 1),
        recv_max_ms: s.quantile(MetricName::IngestRecvLatency.as_str(), 1, 1),
    }
}

/// The read-side figures of a run.
#[derive(Debug, Clone, Copy, PartialEq, Eq, Structural)]
pub struct QueryStats {
    pub availability: Fraction,
    pub ok_rate: u128,
    pub latency_avg_ms: Fraction,
    pub latency_p99_ms: u64,
    /// Mean recall, in parts per million.
    pub recall_avg_ppm: Fraction,
    pub recv_max_ms: u64,
}

/// `a + b`, or the largest `u128` when that does not fit.
pub open spec fn sum_capped(a: u128, b: u128) -> u128 {
    if a + b > u128::MAX {
        u128::MAX
    } else {
        (a + b) as u128
    }
}

pub fn query_stats(s: &Snapshot) -> (r: QueryStats)
    ensures
        r.availability == availability_spec(
            sum_capped(
                total_of(s@, MetricName::QueryOks) as u128,
                total_of(s@, MetricName::QueryErrors) as u128,
            ),
            total_of(s@, MetricName::QueryErrors) as u128,
        ),
        r.ok_rate == seq_sum(recent_values(s@, name_text(MetricName::QueryOks), s.captured_at())),
        r.latency_avg_ms == mean_of(named_values(s@, name_text(MetricName::QueryLatency))),
        r.latency_p99_ms == quantile_of(
            named_values(s@, name_text(MetricName::QueryLatency)),
            99,
            100,
        ),
        r.recall_avg_ppm == mean_of(named_values(s@, name_text(MetricName::QueryRecall))),
        r.recv_max_ms == quantile_of(
            named_values(s@, name_text(MetricName::QueryRecvLatency)),
            1,
            1,
        ),
{
    let oks = s.total(MetricName::QueryOks.as_str());
    let errors = s.total(MetricName::QueryErrors.as_str());
    let requests = if oks <= u128::MAX - errors {
        oks + errors
    } else {
        u128::MAX
    };
    QueryStats {
        availability: availability(requests, errors),
        ok_rate: s.instantaneous_rate(MetricName::QueryOks.as_str()),
        latency_avg_ms: s.avg(MetricName::QueryLatency.as_str()),
        latency_p99_ms: s.quantile(MetricName::QueryLatency.as_str(), 99, 100),
        recall_avg_ppm: s.avg(MetricName::QueryRecall.as_str()),
        recv_max_ms: s.quantile(MetricName::QueryRecvLatency.as_str(), 1, 1),
    }
}

} // verus!
