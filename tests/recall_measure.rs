use topk_bench::config::QueryConfig;
use topk_bench::document::Document;
use topk_bench::query::{GroundTruth, Query};
use topk_bench::recall::{calculate_recall, recall, RecallError};
use topk_bench::snapshot::Fraction;

fn config(top_k: u32, int_filter: Option<u32>, keyword_filter: Option<&str>) -> QueryConfig {
    QueryConfig::new(
        "c".to_string(),
        "q".to_string(),
        top_k,
        1,
        "1m".to_string(),
        10,
        "filter".to_string(),
        "/tmp".to_string(),
        int_filter,
        keyword_filter.map(|s| s.to_string()),
        false,
        false,
    )
    .unwrap()
}

fn query(int_filter: u32, keyword: &str, ids: Vec<i64>) -> Query {
    let mut truth = GroundTruth::new();
    truth.insert(int_filter, keyword.to_string(), ids);
    Query { dense: vec![], recall: truth }
}

fn results(ids: &[&str]) -> Vec<Document> {
    ids.iter()
        .map(|id| Document::new(id.to_string(), String::new(), 0, String::new(), None, None))
        .collect()
}

#[test]
fn recall_two_of_five() {
    let q = query(10000, "10000", vec![1, 2, 3, 4, 5]);
    let r = calculate_recall(&results(&["1", "2", "6"]), &q, &config(10, None, None));
    assert_eq!(r, Ok(Fraction { numerator: 2, denominator: 5 }));
}

#[test]
fn recall_single_expected_found() {
    let q = query(10000, "10000", vec![10]);
    let r = calculate_recall(&results(&["10"]), &q, &config(10, None, None));
    assert_eq!(r, Ok(Fraction { numerator: 1, denominator: 1 }));
}

#[test]
fn recall_empty_results() {
    let q = query(10000, "10000", vec![1, 2, 3, 4, 5]);
    let r = calculate_recall(&results(&[]), &q, &config(10, None, None));
    assert_eq!(r, Ok(Fraction { numerator: 0, denominator: 5 }));
}

#[test]
fn recall_uses_configured_filters_and_top_k() {
    let mut truth = GroundTruth::new();
    truth.insert(10000, "10000".to_string(), vec![100, 200]);
    truth.insert(3, "kw".to_string(), vec![-1, 0, 7, 8, 9, 10]);
    let q = Query { dense: vec![], recall: truth };
    let c = config(2, Some(3), Some("kw"));
    assert_eq!(recall(&q, &c), Ok(vec![7, 8]));
    let r = calculate_recall(&results(&["8", "9", "100"]), &q, &c);
    assert_eq!(r, Ok(Fraction { numerator: 1, denominator: 2 }));
}

#[test]
fn recall_counts_distinct_ids() {
    let q = query(10000, "10000", vec![4, 4, 5]);
    let r = calculate_recall(&results(&["4", "4"]), &q, &config(3, None, None));
    assert_eq!(r, Ok(Fraction { numerator: 1, denominator: 2 }));
}

#[test]
fn recall_later_ground_truth_entry_wins() {
    let mut truth = GroundTruth::new();
    truth.insert(10000, "10000".to_string(), vec![1]);
    truth.insert(10000, "10000".to_string(), vec![2, 3]);
    let q = Query { dense: vec![], recall: truth };
    assert_eq!(recall(&q, &config(5, None, None)), Ok(vec![2, 3]));
}

#[test]
fn recall_rejects_top_k_over_limit() {
    let q = query(10000, "10000", vec![1]);
    assert_eq!(
        calculate_recall(&results(&["1"]), &q, &config(101, None, None)),
        Err(RecallError::TopKTooLarge)
    );
    assert!(calculate_recall(&results(&["1"]), &q, &config(100, None, None)).is_ok());
}

#[test]
fn recall_rejects_missing_ground_truth() {
    let q = query(1, "10000", vec![1]);
    assert_eq!(
        calculate_recall(&results(&["1"]), &q, &config(10, None, None)),
        Err(RecallError::MissingGroundTruth)
    );
}

#[test]
fn recall_rejects_empty_expected_set() {
    let q = query(10000, "10000", vec![0, -3]);
    assert_eq!(
        calculate_recall(&results(&["1"]), &q, &config(10, None, None)),
        Err(RecallError::NoExpectedIds)
    );
}

#[test]
fn recall_rejects_non_numeric_result_id() {
    let q = query(10000, "10000", vec![1]);
    assert_eq!(
        calculate_recall(&results(&["1", "x"]), &q, &config(10, None, None)),
        Err(RecallError::InvalidResultId { index: 1 })
    );
}
