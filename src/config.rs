//! Run configurations of the two workloads.
use vstd::prelude::*;
use vstd::string::*;
use crate::decimal::{decimal_of, to_decimal};

verus! {

/// Configuration of a write (ingest) run.
pub struct IngestConfig {
    pub collection: String,
    pub batch_size: usize,
    pub concurrency: usize,
    pub input: String,
    pub mode: String,
    pub size: String,
    pub cache_dir: String,
}

impl IngestConfig {
    pub fn new(
        collection: String,
        batch_size: usize,
        concurrency: usize,
        input: String,
        mode: String,
        size: String,
        cache_dir: String,
    ) -> (r: IngestConfig)
        ensures
            r.collection == collection,
            r.batch_size == batch_size,
            r.concurrency == concurrency,
            r.input == input,
            r.mode == mode,
            r.size == size,
            r.cache_dir == cache_dir,
    {
        IngestConfig { collection, batch_size, concurrency, input, mode, size, cache_dir }
    }
}

/// Configuration of a query run.
pub struct QueryConfig {
    pub collection: String,
    pub queries: String,
    pub top_k: u32,
    pub int_filter: Option<u32>,
    pub keyword_filter: Option<String>,
    pub concurrency: usize,
    pub size: String,
    pub timeout: u64,
    pub warmup: bool,
    pub read_write: bool,
    pub mode: String,
    pub cache_dir: String,
}

#[derive(Debug, PartialEq, Eq, Structural)]
pub enum ConfigError {
    /// The dataset size tag is not one of `100k`, `1m`, `10m`.
    InvalidSize,
}

/// The dataset size tags a query run accepts.
pub open spec fn is_known_size(s: Seq<char>) -> bool {
    s == seq!['1', '0', '0', 'k'] || s == seq!['1', 'm'] || s == seq!['1', '0', 'm']
}

/// Whether `size` is a dataset size tag a query run accepts.
pub fn known_size(size: &String) -> (r: bool)
    ensures
        r == is_known_size(size@),
{
    proof {
        reveal_strlit("100k");
        reveal_strlit("1m");
        reveal_strlit("10m");
    }
    let a = String::from_str("100k");
    let b = String::from_str("1m");
    let c = String::from_str("10m");
    let r = *size == a || *size == b || *size == c;
    assert(a@ == seq!['1', '0', '0', 'k']);
    assert(b@ == seq!['1', 'm']);
    assert(c@ == seq!['1', '0', 'm']);
    r
}

impl QueryConfig {
    /// A query configuration; refused when the size tag is unknown.
    pub fn new(
        collection: String,
        queries: String,
        top_k: u32,
        concurrency: usize,
        size: String,
        timeout: u64,
        mode: String,
        cache_dir: String,
        int_filter: Option<u32>,
        keyword_filter: Option<String>,
        read_write: bool,
        warmup: bool,
    ) -> (r: Result<QueryConfig, ConfigError>)
        ensures
            r.is_err() == !is_known_size(size@),
            r matches Ok(c) ==> c.collection == collection && c.queries == queries && c.top_k
                == top_k && c.concurrency == concurrency && c.size == size && c.timeout == timeout
                && c.mode == mode && c.cache_dir == cache_dir && c.int_filter == int_filter
                && c.keyword_filter == keyword_filter && c.read_write == read_write && c.warmup
                == warmup,
    {
        if !known_size(&size) {
            return Err(ConfigError::InvalidSize);
        }
        Ok(
            QueryConfig {
                collection,
                queries,
                top_k,
                int_filter,
                keyword_filter,
                concurrency,
                size,
                timeout,
                warmup,
                read_write,
                mode,
                cache_dir,
            },
        )
    }
}

/// The text of a label list.
pub open spec fn label_texts(v: Seq<(String, String)>) -> Seq<(Seq<char>, Seq<char>)> {
    v.map_values(|e: (String, String)| (e.0@, e.1@))
}

pub open spec fn bool_text(b: bool) -> Seq<char> {
    if b {
        "true"@
    } else {
        "false"@
    }
}

pub open spec fn opt_u32_text(v: Option<u32>) -> Seq<char> {
    match v {
        Some(x) => decimal_of(x as nat),
        None => Seq::empty(),
    }
}

pub open spec fn opt_string_text(v: Option<String>) -> Seq<char> {
    match v {
        Some(x) => x@,
        None => Seq::empty(),
    }
}

fn text_of_bool(b: bool) -> (r: String)
    ensures
        r@ == bool_text(b),
{
    if b {
        String::from_str("true")
    } else {
        String::from_str("false")
    }
}

fn label(key: &str, value: String) -> (r: (String, String))
    ensures
        r.0@ == key@,
        r.1@ == value@,
{
    (String::from_str(key), value)
}

/// The labels every observation of an ingest run carries.
pub fn ingest_labels(provider: &String, config: &IngestConfig, run_id: &String) -> (r: Vec<
    (String, String),
>)
    ensures
        label_texts(r@) == seq![
            ("provider"@, provider@),
            ("collection"@, config.collection@),
            ("batch_size"@, decimal_of(config.batch_size as nat)),
            ("concurrency"@, decimal_of(config.concurrency as nat)),
            ("input"@, config.input@),
            ("size"@, config.size@),
            ("run_id"@, run_id@),
            ("mode"@, config.mode@),
        ],
{
    let r = vec![
        label("provider", provider.clone()),
        label("collection", config.collection.clone()),
        label("batch_size", to_decimal(config.batch_size as u64)),
        label("concurrency", to_decimal(config.concurrency as u64)),
        label("input", config.input.clone()),
        label("size", config.size.clone()),
        label("run_id", run_id.clone()),
        label("mode", config.mode.clone()),
    ];
    assert(label_texts(r@) =~= seq![
        ("provider"@, provider@),
        ("collection"@, config.collection@),
        ("batch_size"@, decimal_of(config.batch_size as nat)),
        ("concurrency"@, decimal_of(config.concurrency as nat)),
        ("input"@, config.input@),
        ("size"@, config.size@),
        ("run_id"@, run_id@),
        ("mode"@, config.mode@),
    ]);
    r
}

/// The labels every observation of a query run carries.
pub fn query_labels(provider: &String, config: &QueryConfig, run_id: &String) -> (r: Vec<
    (String, String),
>)
    ensures
        label_texts(r@) == seq![
            ("run_id"@, run_id@),
            ("provider"@, provider@),
            ("collection"@, config.collection@),
            ("queries"@, config.queries@),
            ("top_k"@, decimal_of(config.top_k as nat)),
            ("concurrency"@, decimal_of(config.concurrency as nat)),
            ("size"@, config.size@),
            ("timeout"@, decimal_of(config.timeout as nat)),
            ("int_filter"@, opt_u32_text(config.int_filter)),
            ("keyword_filter"@, opt_string_text(config.keyword_filter)),
            ("warmup"@, bool_text(config.warmup)),
            ("read_write"@, bool_text(config.read_write)),
            ("mode"@, config.mode@),
        ],
{
    let int_filter = match config.int_filter {
        Some(x) => to_decimal(x as u64),
        None => String::new(),
    };
    let keyword_filter = match &config.keyword_filter {
        Some(k) => k.clone(),
        None => String::new(),
    };
    let r = vec![
        label("run_id", run_id.clone()),
        label("provider", provider.clone()),
        label("collection", config.collection.clone()),
        label("queries", config.queries.clone()),
        label("top_k", to_decimal(config.top_k as u64)),
        label("concurrency", to_decimal(config.concurrency as u64)),
        label("size", config.size.clone()),
        label("timeout", to_decimal(config.timeout)),
        label("int_filter", int_filter),
        label("keyword_filter", keyword_filter),
        label("warmup", text_of_bool(config.warmup)),
        label("read_write", text_of_bool(config.read_write)),
        label("mode", config.mode.clone()),
    ];
    assert(label_texts(r@) =~= seq![
        ("run_id"@, run_id@),
        ("provider"@, provider@),
        ("collection"@, config.collection@),
        ("queries"@, config.queries@),
        ("top_k"@, decimal_of(config.top_k as nat)),
        ("concurrency"@, decimal_of(config.concurrency as nat)),
        ("size"@, config.size@),
        ("timeout"@, decimal_of(config.timeout as nat)),
        ("int_filter"@, opt_u32_text(config.int_filter)),
        ("keyword_filter"@, opt_string_text(config.keyword_filter)),
        ("warmup"@, bool_text(config.warmup)),
        ("read_write"@, bool_text(config.read_write)),
        ("mode"@, config.mode@),
    ]);
    r
}

/// After a timed query run, recall is measured when the run was a filter run
/// and not a warm-up.
pub fn should_measure_recall(config: &QueryConfig) -> (r: bool)
    ensures
        r == (config.mode@ == "filter"@ && !config.warmup),
{
    config.mode == String::from_str("filter") && !config.warmup
}

} // verus!
