//! The calls this library makes into other crates and into parts of std that
//! carry no specification here. Each contract states only what the called
//! function's documentation promises.
use vstd::prelude::*;
use rand::Rng;

verus! {

/// `pat` occurs in `s` as a contiguous run of characters.
pub open spec fn contains_spec(s: Seq<char>, pat: Seq<char>) -> bool {
    exists|i: int| 0 <= i && i + pat.len() <= s.len() && #[trigger] s.subrange(i, i + pat.len()) == pat
}

pub open spec fn sorted_u64(s: Seq<u64>) -> bool {
    forall|i: int, j: int| 0 <= i < j < s.len() ==> s[i] <= s[j]
}

/// Relies on `chrono::Utc::now` and `DateTime::timestamp_micros`: the current
/// time in microseconds since the Unix epoch. Nothing is promised of it.
#[verifier::external_body]
pub(crate) fn now_micros() -> (r: i64) {
    chrono::Utc::now().timestamp_micros()
}

/// Relies on `rand::rng` and `Rng::random_range`: a value drawn from
/// `low..high`, which must not be empty.
#[verifier::external_body]
pub(crate) fn random_range(low: u64, high: u64) -> (r: u64)
    requires
        low < high,
    ensures
        low <= r < high,
{
    rand::rng().random_range(low..high)
}

/// Relies on `uuid::Uuid::new_v4` and its `Display`, which writes the
/// 36-character hyphenated form.
#[verifier::external_body]
pub(crate) fn new_uuid_v4() -> (r: String)
    ensures
        r@.len() == 36,
{
    uuid::Uuid::new_v4().to_string()
}

/// Relies on `str::contains`: whether `pat` occurs in `s`.
#[verifier::external_body]
pub(crate) fn str_contains(s: &str, pat: &str) -> (r: bool)
    ensures
        r == contains_spec(s@, pat@),
{
    s.contains(pat)
}

/// Relies on `slice::sort_unstable`: the same values, in ascending order.
#[verifier::external_body]
pub(crate) fn sort_ascending(v: &mut Vec<u64>)
    ensures
        final(v)@.to_multiset() == old(v)@.to_multiset(),
        sorted_u64(final(v)@),
{
    v.sort_unstable()
}

/// Relies on `tracing_subscriber::fmt::try_init`: installs the formatting
/// subscriber as the global default; `false` when one was already set.
#[verifier::external_body]
pub(crate) fn try_init_tracing() -> (r: bool) {
    tracing_subscriber::fmt::try_init().is_ok()
}

} // verus!
