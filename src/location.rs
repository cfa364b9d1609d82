//! Dataset and export locations: `s3://bucket/key` URIs and local cache paths.
use vstd::prelude::*;
use vstd::string::*;

verus! {

pub open spec fn remote_scheme() -> Seq<char> {
    "s3://"@
}

/// The path names an object in a bucket.
pub open spec fn is_remote_spec(p: Seq<char>) -> bool {
    p.len() >= 5 && p.take(5) == remote_scheme()
}

/// Bucket and key of a remote path: what follows the scheme, split at its
/// first `/`.
pub open spec fn split_remote_spec(p: Seq<char>) -> Option<(Seq<char>, Seq<char>)> {
    let rest = p.skip(5);
    if !is_remote_spec(p) {
        None
    } else if exists|j: int| 0 <= j < rest.len() && rest[j] == '/' {
        let j = choose|j: int|
            0 <= j < rest.len() && rest[j] == '/' && forall|i: int| 0 <= i < j ==> rest[i] != '/';
        Some((rest.take(j), rest.skip(j + 1)))
    } else {
        None
    }
}

pub fn is_remote(path: &str) -> (r: bool)
    ensures
        r == is_remote_spec(path@),
{
    proof {
        reveal_strlit("s3://");
    }
    let n = path.unicode_len();
    if n < 5 {
        return false;
    }
    let scheme = "s3://";
    let mut i: usize = 0;
    while i < 5
        invariant
            i <= 5 <= n,
            n == path@.len(),
            scheme@ == remote_scheme(),
            scheme@.len() == 5,
            path@.take(i as int) == scheme@.take(i as int),
        decreases 5 - i,
    {
        if path.get_char(i) != scheme.get_char(i) {
            assert(path@.take(5)[i as int] != scheme@[i as int]);
            return false;
        }
        assert(path@.take(i + 1) =~= path@.take(i as int).push(path@[i as int]));
        assert(scheme@.take(i + 1) =~= scheme@.take(i as int).push(scheme@[i as int]));
        i = i + 1;
    }
    assert(scheme@.take(5) =~= scheme@);
    true
}

/// Bucket and key of a remote path; `None` for a local path, or for a
/// remote one with no `/` after the bucket.
pub fn split_remote(path: &str) -> (r: Option<(String, String)>)
    ensures
        match split_remote_spec(path@) {
            None => r.is_none(),
            Some((b, k)) => r matches Some((rb, rk)) && rb@ == b && rk@ == k,
        },
{
    if !is_remote(path) {
        return None;
    }
    let n = path.unicode_len();
    let rest = path.substring_char(5, n);
    let ghost want = path@.skip(5);
    assert(rest@ =~= want);
    let m = rest.unicode_len();
    let mut j: usize = 0;
    while j < m
        invariant
            j <= m,
            m == rest@.len(),
            rest@ == want,
            want == path@.skip(5),
            is_remote_spec(path@),
            forall|i: int| 0 <= i < j ==> rest@[i] != '/',
        decreases m - j,
    {
        if rest.get_char(j) == '/' {
            let bucket = rest.substring_char(0, j);
            let key = rest.substring_char(j + 1, m);
            proof {
                assert(0 <= j < want.len() && want[j as int] == '/' && forall|i: int|
                    0 <= i < j ==> want[i] != '/');
                let c = choose|c: int|
                    0 <= c < want.len() && want[c] == '/' && forall|i: int|
                        0 <= i < c ==> want[i] != '/';
                assert(c == j as int) by {
                    if c < j {
                        assert(rest@[c] != '/');
                    } else if c > j {
                        assert(want[j as int] != '/');
                    }
                }
                assert(rest@.skip(j + 1) =~= rest@.subrange(j + 1, m as int));
                assert(rest@.take(j as int) =~= rest@.subrange(0, j as int));
            }
            return Some((String::from_str(bucket), String::from_str(key)));
        }
        j = j + 1;
    }
    assert(!(exists|j: int| 0 <= j < want.len() && want[j] == '/'));
    None
}

/// Where a downloaded object is kept: `<cache_dir>/<key>`.
pub fn cache_path(cache_dir: &str, key: &str) -> (r: String)
    ensures
        r@ == cache_dir@ + seq!['/'] + key@,
{
    proof {
        reveal_strlit("/");
    }
    let mut s = String::from_str(cache_dir);
    s.append("/");
    s.append(key);
    s
}

/// The documents file of a dataset size, read in read-write mode.
pub fn dataset_uri(size: &str) -> (r: String)
    ensures
        r@ == "s3://topk-bench/docs-"@ + size@ + ".parquet"@,
{
    let mut s = String::from_str("s3://topk-bench/docs-");
    s.append(size);
    s.append(".parquet");
    s
}

/// The prefix of a report line: `<provider>@<size>`.
pub fn report_prefix(provider: &str, size: &str) -> (r: String)
    ensures
        r@ == provider@ + "@"@ + size@,
{
    let mut s = String::from_str(provider);
    s.append("@");
    s.append(size);
    s
}

} // verus!
