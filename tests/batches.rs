use topk_bench::decimal::{parse_u64, to_decimal};
use topk_bench::document::{batch_byte_size, max_numeric_id, BatchError, Document};
use topk_bench::worker::{prepare_batch, PreparedBatch};

fn doc(id: &str) -> Document {
    Document::new(id.to_string(), String::new(), 0, String::new(), None, None)
}

#[test]
fn max_id_is_largest_parsed_id() {
    let docs = vec![doc("7"), doc("42"), doc("013"), doc("9")];
    assert_eq!(max_numeric_id(&docs), Ok(42));
}

#[test]
fn max_id_compares_numbers_not_text() {
    let docs = vec![doc("9"), doc("10"), doc("100")];
    assert_eq!(max_numeric_id(&docs), Ok(100));
}

#[test]
fn max_id_rejects_non_numeric_id() {
    let docs = vec![doc("1"), doc("abc"), doc("3"), doc("x")];
    assert_eq!(max_numeric_id(&docs), Err(BatchError::InvalidId { index: 1 }));
}

#[test]
fn max_id_of_empty_batch_is_an_error() {
    let docs: Vec<Document> = Vec::new();
    assert_eq!(max_numeric_id(&docs), Err(BatchError::EmptyBatch));
}

#[test]
fn max_id_of_largest_u64() {
    let docs = vec![doc("18446744073709551615"), doc("0")];
    assert_eq!(max_numeric_id(&docs), Ok(u64::MAX));
    let docs = vec![doc("18446744073709551616")];
    assert_eq!(max_numeric_id(&docs), Err(BatchError::InvalidId { index: 0 }));
}

#[test]
fn parse_follows_std() {
    for s in ["0", "+5", "007", "18446744073709551615", "", "+", "-1", " 1", "1a", "18446744073709551616", "١"] {
        assert_eq!(parse_u64(s), s.parse::<u64>().ok(), "{s}");
    }
}

#[test]
fn decimal_text_follows_display() {
    for n in [0u64, 7, 10, 99, 1000, 123456789, u64::MAX] {
        assert_eq!(to_decimal(n), n.to_string());
    }
}

#[test]
fn approx_size_counts_bytes() {
    let d = Document::new(
        "12".to_string(),
        "héllo".to_string(),
        3,
        "kw".to_string(),
        Some(vec![1.0f32.to_bits(), 2.0f32.to_bits(), 0.5f32.to_bits()]),
        Some("tag-1".to_string()),
    );
    // 2 + 6 (é is two bytes) + 4 + 2 + 3 * 4
    assert_eq!(d.approx_size(), 26);
    let e = Document::new("1".to_string(), String::new(), 0, String::new(), None, None);
    assert_eq!(e.approx_size(), 5);
    assert_eq!(batch_byte_size(&vec![d, e]), 31);
}

#[test]
fn prepared_batch_has_count_size_and_max() {
    let docs = vec![doc("5"), doc("11")];
    assert_eq!(
        prepare_batch(&docs),
        Ok(PreparedBatch { doc_count: 2, byte_size: 5 + 6, max_id: 11 })
    );
    assert_eq!(prepare_batch(&vec![doc("5"), doc("five")]), Err(BatchError::InvalidId { index: 1 }));
}
