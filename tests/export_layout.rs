use topk_bench::export::{export_table, lex_less};
use topk_bench::metrics::{Labels, Metric};

fn metric(name: &str, value: u64, ts: i64, labels: &[(&str, &str)]) -> Metric {
    Metric {
        name: name.to_string(),
        value,
        timestamp: ts,
        labels: Labels::new(labels.iter().map(|(k, v)| (k.to_string(), v.to_string())).collect()),
    }
}

#[test]
fn export_columns_union_of_sorted_label_keys() {
    let ms = vec![
        metric("a", 1, 10, &[("run_id", "r"), ("provider", "p")]),
        metric("b", 2, 20, &[("run_id", "r"), ("mode", "m"), ("run_id", "s")]),
    ];
    let t = export_table(&ms);
    assert_eq!(t.label_keys, vec!["mode".to_string(), "provider".to_string(), "run_id".to_string()]);
    assert_eq!(t.timestamps, vec![10, 20]);
    assert_eq!(t.names, vec!["a".to_string(), "b".to_string()]);
    assert_eq!(t.values, vec![1, 2]);
    assert_eq!(t.label_columns[0], vec!["".to_string(), "m".to_string()]);
    assert_eq!(t.label_columns[1], vec!["p".to_string(), "".to_string()]);
    assert_eq!(t.label_columns[2], vec!["r".to_string(), "s".to_string()]);
}

#[test]
fn export_of_nothing_is_empty() {
    let t = export_table(&vec![]);
    assert!(t.label_keys.is_empty());
    assert!(t.label_columns.is_empty());
    assert!(t.timestamps.is_empty());
}

#[test]
fn lex_order_matches_string_order() {
    let words = ["", "a", "ab", "b", "B", "é", "e", "run_id", "run", "z9"];
    for x in words {
        for y in words {
            assert_eq!(lex_less(x, y), x < y, "{x} {y}");
        }
    }
}
