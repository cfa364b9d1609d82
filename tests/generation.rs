use topk_bench::config::{ingest_labels, query_labels, should_measure_recall, ConfigError, IngestConfig, QueryConfig};
use topk_bench::document::Document;
use topk_bench::generator::{lookup_result, pick_query_index, query_from_rows, tag_documents, LookupError, RowError};
use topk_bench::location::{cache_path, dataset_uri, is_remote, report_prefix, split_remote};
use topk_bench::new_run_id;

fn doc(id: &str, emb: Option<Vec<u32>>) -> Document {
    Document::new(id.to_string(), "t".to_string(), 1, "k".to_string(), emb, None)
}

fn qconfig(size: &str) -> Result<QueryConfig, ConfigError> {
    QueryConfig::new(
        "c".to_string(),
        "q".to_string(),
        10,
        2,
        size.to_string(),
        30,
        "filter".to_string(),
        "/tmp".to_string(),
        Some(7),
        None,
        true,
        false,
    )
}

#[test]
fn query_config_checks_size() {
    assert!(qconfig("100k").is_ok());
    assert!(qconfig("1m").is_ok());
    assert!(qconfig("10m").is_ok());
    assert_eq!(qconfig("5m").err(), Some(ConfigError::InvalidSize));
    assert_eq!(qconfig("").err(), Some(ConfigError::InvalidSize));
}

#[test]
fn recall_only_after_filter_runs() {
    let c = qconfig("1m").unwrap();
    assert!(should_measure_recall(&c));
    let mut w = qconfig("1m").unwrap();
    w.warmup = true;
    assert!(!should_measure_recall(&w));
    let mut o = qconfig("1m").unwrap();
    o.mode = "plain".to_string();
    assert!(!should_measure_recall(&o));
}

#[test]
fn run_labels() {
    let c = IngestConfig::new("col".to_string(), 500, 4, "in".to_string(), "m".to_string(), "1m".to_string(), "/c".to_string());
    let l = ingest_labels(&"prov".to_string(), &c, &"rid".to_string());
    assert_eq!(l[2], ("batch_size".to_string(), "500".to_string()));
    assert_eq!(l[6], ("run_id".to_string(), "rid".to_string()));
    assert_eq!(l.len(), 8);
    let q = query_labels(&"prov".to_string(), &qconfig("1m").unwrap(), &"rid".to_string());
    assert_eq!(q.len(), 13);
    assert_eq!(q[0], ("run_id".to_string(), "rid".to_string()));
    assert_eq!(q[8], ("int_filter".to_string(), "7".to_string()));
    assert_eq!(q[9], ("keyword_filter".to_string(), String::new()));
    assert_eq!(q[10], ("warmup".to_string(), "false".to_string()));
    assert_eq!(q[11], ("read_write".to_string(), "true".to_string()));
}

#[test]
fn run_ids_are_fresh_uuids() {
    let a = new_run_id();
    let b = new_run_id();
    assert_eq!(a.len(), 36);
    assert_ne!(a, b);
}

#[test]
fn picked_index_is_in_range() {
    assert_eq!(pick_query_index(0), None);
    let mut seen = [false; 3];
    for _ in 0..300 {
        let i = pick_query_index(3).unwrap();
        seen[i] = true;
    }
    assert!(seen.iter().all(|s| *s));
}

#[test]
fn single_row_becomes_query() {
    let q = query_from_rows(vec![doc("1", Some(vec![7, 8]))]).unwrap();
    assert_eq!(q.dense, vec![7, 8]);
    assert!(q.recall.get(10000, &"10000".to_string()).is_none());
    assert_eq!(query_from_rows(vec![]).err(), Some(RowError::NoDocuments));
    assert_eq!(
        query_from_rows(vec![doc("1", None), doc("2", None)]).err(),
        Some(RowError::MultipleDocuments)
    );
    assert_eq!(query_from_rows(vec![doc("1", None)]).err(), Some(RowError::MissingEmbedding));
}

#[test]
fn tags_are_synthetic() {
    let out = tag_documents(vec![doc("1", None), doc("2", None)]);
    assert_eq!(out.len(), 2);
    for (d, id) in out.iter().zip(["1", "2"]) {
        assert_eq!(d.id, id);
        let t = d.tag.as_ref().unwrap();
        let n: u64 = t.strip_prefix("tag-").unwrap().parse().unwrap();
        assert!(n < 1000);
    }
}

#[test]
fn point_lookup_result() {
    assert!(matches!(lookup_result(vec![]), Ok(None)));
    let one = lookup_result(vec![doc("5", None)]).unwrap().unwrap();
    assert_eq!(one.id, "5");
    assert_eq!(
        lookup_result(vec![doc("5", None), doc("6", None)]).err(),
        Some(LookupError::MultipleMatches { count: 2 })
    );
}

#[test]
fn remote_paths() {
    assert!(is_remote("s3://b/k"));
    assert!(!is_remote("/tmp/s3://b"));
    assert!(!is_remote("s3:/"));
    assert_eq!(
        split_remote("s3://topk-bench/docs/a.parquet"),
        Some(("topk-bench".to_string(), "docs/a.parquet".to_string()))
    );
    assert_eq!(split_remote("s3://bucket"), None);
    assert_eq!(split_remote("local/file"), None);
    assert_eq!(cache_path("/cache", "docs/a.parquet"), "/cache/docs/a.parquet");
    assert_eq!(dataset_uri("1m"), "s3://topk-bench/docs-1m.parquet");
    assert_eq!(report_prefix("prov", "10m"), "prov@10m");
}
