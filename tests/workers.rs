use topk_bench::config::QueryConfig;
use topk_bench::document::Document;
use topk_bench::names::{MetricName, Observation};
use topk_bench::query::{GroundTruth, Query};
use topk_bench::recall::RecallError;
use topk_bench::worker::{
    after_query, after_upsert, retry_delay_ms, FreshnessProbe, PreparedBatch, ProbeAction, QueryAction,
    QueryOutcome, UpsertOutcome, WriterAction, BATCH_CHANNEL_CAPACITY, PROBE_INTERVAL_MS,
};

fn batch() -> PreparedBatch {
    PreparedBatch { doc_count: 3, byte_size: 120, max_id: 42 }
}

fn count(obs: &[Observation], m: MetricName) -> usize {
    obs.iter().filter(|o| o.metric == m).count()
}

#[test]
fn retry_then_success_accounting() {
    let n = 4;
    let mut recorded: Vec<Observation> = Vec::new();
    let mut attempts = 0;
    let probe_id = loop {
        attempts += 1;
        let outcome = if attempts <= n {
            UpsertOutcome::Failure { message: "connection reset".to_string() }
        } else {
            UpsertOutcome::Success
        };
        let step = after_upsert(&batch(), &outcome, 8);
        recorded.extend(step.observations.iter().copied());
        match step.action {
            WriterAction::RetryAfter { delay_ms } => assert!((10..100).contains(&delay_ms)),
            WriterAction::ProbeFreshness { id } => break id,
            WriterAction::Abandon => panic!("not an interrupt"),
        }
    };
    assert_eq!(attempts, n + 1);
    assert_eq!(count(&recorded, MetricName::IngestErrors), n);
    assert_eq!(count(&recorded, MetricName::IngestOks), 1);
    assert_eq!(count(&recorded, MetricName::IngestRequests), n + 1);
    assert_eq!(probe_id, "42");
    let last = &recorded[recorded.len() - 5..];
    assert_eq!(last[2], Observation { metric: MetricName::UpsertedDocs, value: 3 });
    assert_eq!(last[3], Observation { metric: MetricName::UpsertedBytes, value: 120 });
    assert_eq!(last[4], Observation { metric: MetricName::IngestLatency, value: 8 });
}

#[test]
fn interrupt_in_error_abandons_batch() {
    let outcome = UpsertOutcome::Failure { message: "python raised KeyboardInterrupt: stop".to_string() };
    let step = after_upsert(&batch(), &outcome, 1);
    assert!(matches!(step.action, WriterAction::Abandon));
    assert_eq!(count(&step.observations, MetricName::IngestErrors), 1);
}

#[test]
fn retry_delays_stay_in_range() {
    for _ in 0..1000 {
        let d = retry_delay_ms();
        assert!((10..100).contains(&d));
    }
}

#[test]
fn freshness_probe_waits_and_ends() {
    let k = 5;
    let mut probe = FreshnessProbe::new();
    let mut clock_ms = 0u64;
    let mut lookups = 0;
    let freshness = loop {
        lookups += 1;
        clock_ms += 1;
        let found = lookups > k;
        let step = probe.after_lookup(found, 1, clock_ms);
        match step.action {
            ProbeAction::PollAfter { delay_ms } => {
                assert_eq!(delay_ms, PROBE_INTERVAL_MS);
                clock_ms += delay_ms;
            }
            ProbeAction::Done => {
                assert_eq!(step.observations[1].metric, MetricName::FreshnessLatency);
                break step.observations[1].value;
            }
        }
        assert!(lookups <= k);
    };
    assert_eq!(probe.misses_so_far(), k);
    assert!(freshness >= k * 10);
    assert_eq!(lookups, k + 1);
}

#[test]
fn bounded_batch_channel_applies_backpressure() {
    let (tx, rx) = async_channel::bounded::<u32>(BATCH_CHANNEL_CAPACITY);
    for i in 0..100 {
        assert!(tx.try_send(i).is_ok());
    }
    assert!(matches!(tx.try_send(100), Err(async_channel::TrySendError::Full(_))));
    assert_eq!(rx.try_recv(), Ok(0));
    assert!(tx.try_send(100).is_ok());
    assert_eq!(rx.len(), 100);
}

fn config() -> QueryConfig {
    QueryConfig::new(
        "c".to_string(),
        "q".to_string(),
        10,
        1,
        "100k".to_string(),
        10,
        "filter".to_string(),
        "/tmp".to_string(),
        None,
        None,
        false,
        false,
    )
    .unwrap()
}

fn query() -> Query {
    let mut truth = GroundTruth::new();
    truth.insert(10000, "10000".to_string(), vec![1, 2, 3, 4]);
    Query { dense: vec![], recall: truth }
}

fn docs(ids: &[&str]) -> Vec<Document> {
    ids.iter()
        .map(|id| Document::new(id.to_string(), String::new(), 0, String::new(), None, None))
        .collect()
}

#[test]
fn query_failure_retries_after_jitter() {
    let step = after_query(&QueryOutcome::Failure, false, &query(), &config(), 3).unwrap();
    assert_eq!(step.observations, vec![Observation { metric: MetricName::QueryErrors, value: 1 }]);
    match step.action {
        QueryAction::RetryAfter { delay_ms } => assert!((10..100).contains(&delay_ms)),
        QueryAction::Next => panic!("expected a retry"),
    }
}

#[test]
fn query_success_records_latency() {
    let outcome = QueryOutcome::Results { documents: docs(&["1"]) };
    let step = after_query(&outcome, false, &query(), &config(), 12).unwrap();
    assert_eq!(
        step.observations,
        vec![
            Observation { metric: MetricName::QueryOks, value: 1 },
            Observation { metric: MetricName::QueryLatency, value: 12 },
        ]
    );
    assert!(matches!(step.action, QueryAction::Next));
}

#[test]
fn query_success_records_recall_in_ppm() {
    let outcome = QueryOutcome::Results { documents: docs(&["1", "9", "3"]) };
    let step = after_query(&outcome, true, &query(), &config(), 12).unwrap();
    assert_eq!(step.observations, vec![Observation { metric: MetricName::QueryRecall, value: 500_000 }]);
    let bad = QueryOutcome::Results { documents: docs(&["one"]) };
    assert_eq!(
        after_query(&bad, true, &query(), &config(), 1).err(),
        Some(RecallError::InvalidResultId { index: 0 })
    );
}

#[test]
fn metric_names_text() {
    assert_eq!(MetricName::IngestRequests.as_str(), "bench.ingest.requests");
    assert_eq!(MetricName::FreshnessLatency.as_str(), "bench.ingest.freshness_latency_ms");
    assert_eq!(MetricName::QueryRecall.as_str(), "bench.query.recall_ppm");
}
