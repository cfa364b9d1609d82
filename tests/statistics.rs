use topk_bench::metrics::{flush_metrics, snapshot_metrics, Labels, Metric, MetricStore, Recorder};
use topk_bench::snapshot::{Fraction, Snapshot};
use topk_bench::stats::{
    availability, availability_level, byte_unit, query_stats, writer_stats, AvailabilityLevel, ByteUnit,
};

fn metric(name: &str, value: u64, timestamp: i64) -> Metric {
    Metric {
        name: name.to_string(),
        value,
        timestamp,
        labels: Labels::new(vec![("run_id".to_string(), "r1".to_string())]),
    }
}

fn snapshot(name: &str, values: &[u64], now: i64) -> Snapshot {
    Snapshot::new(values.iter().map(|v| metric(name, *v, now)).collect(), now)
}

#[test]
fn quantile_median_of_five() {
    let s = snapshot("lat", &[3, 5, 1, 4, 2], 0);
    assert_eq!(s.quantile("lat", 1, 2), 3);
}

#[test]
fn quantile_p99_of_five_is_max() {
    let s = snapshot("lat", &[1, 2, 3, 4, 5], 0);
    assert_eq!(s.quantile("lat", 99, 100), 5);
    assert_eq!(s.quantile("lat", 1, 1), 5);
    assert_eq!(s.quantile("lat", 0, 1), 1);
}

#[test]
fn quantile_sorts_values() {
    let s = snapshot("lat", &[50, 10, 40, 20, 30], 0);
    assert_eq!(s.quantile("lat", 1, 4), 20);
    assert_eq!(s.quantile("lat", 0, 1), 10);
}

#[test]
fn quantile_of_nothing_is_zero() {
    let s = snapshot("lat", &[1, 2], 0);
    assert_eq!(s.quantile("other", 1, 2), 0);
}

#[test]
fn rate_counts_only_the_last_second() {
    let t = 5_000_000_000i64;
    let s = Snapshot::new(vec![metric("bytes", 10, t - 1_500_000), metric("bytes", 5, t - 200_000)], t);
    assert_eq!(s.instantaneous_rate("bytes"), 5);
    assert_eq!(s.total("bytes"), 15);
}

#[test]
fn rate_window_edge_is_inclusive() {
    let t = 1_000_000i64;
    let s = Snapshot::new(vec![metric("x", 2, t - 1_000_000), metric("x", 3, t - 1_000_001)], t);
    assert_eq!(s.instantaneous_rate("x"), 2);
}

#[test]
fn total_and_average() {
    let s = snapshot("lat", &[1, 2, 4], 0);
    assert_eq!(s.total("lat"), 7);
    assert_eq!(s.avg("lat"), Fraction { numerator: 7, denominator: 3 });
    assert_eq!(s.avg("none"), Fraction { numerator: 0, denominator: 1 });
    assert!(!s.is_empty());
    assert!(Snapshot::new(vec![], 0).is_empty());
}

#[test]
fn availability_with_no_requests_is_full() {
    assert_eq!(availability(0, 0), Fraction { numerator: 1, denominator: 1 });
}

#[test]
fn availability_ten_requests_one_error() {
    let a = availability(10, 1);
    assert_eq!(a, Fraction { numerator: 9, denominator: 10 });
    assert_eq!(100 * a.numerator / a.denominator, 90);
    assert_eq!(availability(4, 9), Fraction { numerator: 0, denominator: 4 });
}

#[test]
fn availability_levels() {
    assert_eq!(availability_level(availability(0, 0)), AvailabilityLevel::Full);
    assert_eq!(availability_level(availability(1000, 9)), AvailabilityLevel::High);
    assert_eq!(availability_level(availability(100, 1)), AvailabilityLevel::Low);
    assert_eq!(availability_level(availability(10, 1)), AvailabilityLevel::Low);
}

#[test]
fn byte_units() {
    assert_eq!(byte_unit(1023), ByteUnit::B);
    assert_eq!(byte_unit(1024), ByteUnit::KB);
    assert_eq!(byte_unit(1024 * 1024), ByteUnit::MB);
}

#[test]
fn store_snapshots_one_run_and_flushes() {
    let mut store = MetricStore::new();
    let a = Recorder::new(vec![("run_id".to_string(), "a".to_string()), ("mode".to_string(), "x".to_string())]);
    let b = Recorder::new(vec![("run_id".to_string(), "b".to_string())]);
    store.append(a.record("bench.ingest.requests", 1));
    store.append(b.record("bench.ingest.requests", 1));
    store.append(a.record("bench.ingest.errors", 1));
    let s = snapshot_metrics(&store, "a");
    assert_eq!(s.total("bench.ingest.requests"), 1);
    assert_eq!(s.total("bench.ingest.errors"), 1);
    let drained = flush_metrics(&mut store);
    assert_eq!(drained.len(), 3);
    assert_eq!(store.len(), 0);
    assert_eq!(drained[0].labels.get("mode"), Some(&"x".to_string()));
}

#[test]
fn labels_later_pair_wins() {
    let l = Labels::new(vec![
        ("k".to_string(), "1".to_string()),
        ("k".to_string(), "2".to_string()),
    ]);
    assert_eq!(l.get("k"), Some(&"2".to_string()));
    assert_eq!(l.get("z"), None);
}

#[test]
fn report_figures() {
    let t = 10_000_000i64;
    let m = |n: &str, v: u64| metric(n, v, t);
    let s = Snapshot::new(
        vec![
            m("bench.ingest.requests", 1),
            m("bench.ingest.errors", 1),
            m("bench.ingest.requests", 1),
            m("bench.ingest.oks", 1),
            m("bench.ingest.upserted_bytes", 2048),
            m("bench.ingest.latency_ms", 7),
            m("bench.ingest.freshness_latency_ms", 30),
            m("bench.query.oks", 1),
            m("bench.query.oks", 1),
            m("bench.query.errors", 1),
            m("bench.query.latency_ms", 4),
            m("bench.query.latency_ms", 6),
            m("bench.query.recall_ppm", 500_000),
        ],
        t,
    );
    let w = writer_stats(&s);
    assert_eq!(w.availability, Fraction { numerator: 1, denominator: 2 });
    assert_eq!(w.bytes_total, 2048);
    assert_eq!(w.bytes_rate, 2048);
    assert_eq!(w.latency_p50_ms, 7);
    assert_eq!(w.freshness_max_ms, 30);
    assert_eq!(w.recv_max_ms, 0);
    let q = query_stats(&s);
    assert_eq!(q.availability, Fraction { numerator: 2, denominator: 3 });
    assert_eq!(q.ok_rate, 2);
    assert_eq!(q.latency_avg_ms, Fraction { numerator: 10, denominator: 2 });
    assert_eq!(q.latency_p99_ms, 6);
    assert_eq!(q.recall_avg_ppm, Fraction { numerator: 500_000, denominator: 1 });
}
