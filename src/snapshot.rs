//! A point-in-time copy of one run's observations and the statistics derived
//! from it: totals, the recent-window rate, averages and nearest-rank quantiles.
use vstd::prelude::*;
use vstd::relations::sorted_by;
use vstd::string::*;
use crate::metrics::{Metric, MetricView, views};
use crate::outside::{sort_ascending, sorted_u64};

verus! {

/// Width of the recent window of `instantaneous_rate`: one second, in microseconds.
pub const RATE_WINDOW_MICROS: i64 = 1_000_000;

/// An exact non-negative ratio; `denominator` is never zero.
#[derive(Debug, Clone, Copy, PartialEq, Eq, Structural)]
pub struct Fraction {
    pub numerator: u128,
    pub denominator: u128,
}

/// The values observed under `name`, in order.
pub open spec fn named_values(ms: Seq<MetricView>, name: Seq<char>) -> Seq<u64>
    decreases ms.len(),
{
    if ms.len() == 0 {
        Seq::empty()
    } else if ms.last().name == name {
        named_values(ms.drop_last(), name).push(ms.last().value)
    } else {
        named_values(ms.drop_last(), name)
    }
}

/// An observation stamped `ts` lies in the window that ends at `now`.
pub open spec fn in_window(now: i64, ts: i64) -> bool {
    now - ts <= RATE_WINDOW_MICROS
}

/// The values observed under `name` within the window that ends at `now`.
pub open spec fn recent_values(ms: Seq<MetricView>, name: Seq<char>, now: i64) -> Seq<u64>
    decreases ms.len(),
{
    if ms.len() == 0 {
        Seq::empty()
    } else if ms.last().name == name && in_window(now, ms.last().timestamp) {
        recent_values(ms.drop_last(), name, now).push(ms.last().value)
    } else {
        recent_values(ms.drop_last(), name, now)
    }
}

pub open spec fn seq_sum(s: Seq<u64>) -> int
    decreases s.len(),
{
    if s.len() == 0 {
        0
    } else {
        seq_sum(s.drop_last()) + s.last()
    }
}

pub open spec fn u64_leq() -> spec_fn(u64, u64) -> bool {
    |a: u64, b: u64| a <= b
}

/// The values in ascending order.
pub open spec fn sorted_values(s: Seq<u64>) -> Seq<u64> {
    s.sort_by(u64_leq())
}

/// Nearest-rank index for quantile `q_num / q_den` among `n` sorted values:
/// `round(q * (n - 1))`, halves rounded up, clamped to the last index.
pub open spec fn rank_index(n: nat, q_num: nat, q_den: nat) -> int {
    if n == 0 {
        0
    } else {
        let r: int = (2 * q_num * (n - 1) + q_den) as int / (2 * q_den) as int;
        if r > n - 1 {
            n - 1
        } else {
            r
        }
    }
}

/// The quantile of `s`: 0 when `s` is empty, else the value at the
/// nearest-rank index of its ascending order.
pub open spec fn quantile_of(s: Seq<u64>, q_num: nat, q_den: nat) -> u64 {
    if s.len() == 0 {
        0
    } else {
        sorted_values(s)[rank_index(s.len(), q_num, q_den)]
    }
}

/// The mean of `s` as a fraction, or 0/1 when `s` is empty.
pub open spec fn mean_of(s: Seq<u64>) -> Fraction {
    if s.len() == 0 {
        Fraction { numerator: 0, denominator: 1 }
    } else {
        Fraction { numerator: seq_sum(s) as u128, denominator: s.len() as u128 }
    }
}

proof fn lemma_sum_bound(s: Seq<u64>)
    ensures
        0 <= seq_sum(s) <= s.len() * u64::MAX,
    decreases s.len(),
{
    if s.len() > 0 {
        lemma_sum_bound(s.drop_last());
    }
}

/// Sum of the values, which always fits in 128 bits.
fn sum_values(v: &Vec<u64>) -> (r: u128)
    ensures
        r == seq_sum(v@),
{
    let mut acc: u128 = 0;
    let mut i: usize = 0;
    while i < v.len()
        invariant
            i <= v.len(),
            acc == seq_sum(v@.take(i as int)),
        decreases v.len() - i,
    {
        proof {
            assert(v@.take(i + 1).drop_last() =~= v@.take(i as int));
            lemma_sum_bound(v@.take(i + 1));
            assert((i + 1) * u64::MAX <= u128::MAX) by (nonlinear_arith)
                requires
                    i < usize::MAX,
            ;
        }
        acc = acc + v[i] as u128;
        i = i + 1;
    }
    assert(v@.take(i as int) =~= v@);
    acc
}

proof fn lemma_sorted_unique(a: Seq<u64>, b: Seq<u64>)
    requires
        sorted_u64(a),
        sorted_u64(b),
        a.to_multiset() == b.to_multiset(),
    ensures
        a == b,
    decreases a.len(),
{
    broadcast use vstd::seq_lib::group_to_multiset_ensures;

    a.to_multiset_ensures();
    b.to_multiset_ensures();
    assert(a.len() == b.len());
    if a.len() > 0 {
        assert(b.to_multiset().count(a[0]) > 0);
        assert(b.contains(a[0]));
        assert(b.to_multiset().count(b[0]) > 0);
        assert(a.to_multiset().count(b[0]) > 0);
        assert(a.contains(b[0]));
        let i = choose|i: int| 0 <= i < b.len() && b[i] == a[0];
        let j = choose|j: int| 0 <= j < a.len() && a[j] == b[0];
        assert(b[0] <= b[i]);
        assert(a[0] <= a[j]);
        assert(a[0] == b[0]);
        vstd::seq_lib::to_multiset_remove(a, 0);
        vstd::seq_lib::to_multiset_remove(b, 0);
        assert(a.remove(0) =~= a.drop_first());
        assert(b.remove(0) =~= b.drop_first());
        lemma_sorted_unique(a.drop_first(), b.drop_first());
        assert(a =~= b) by {
            assert forall|k: int| 0 <= k < a.len() implies a[k] == b[k] by {
                if k > 0 {
                    assert(a[k] == a.drop_first()[k - 1]);
                    assert(b[k] == b.drop_first()[k - 1]);
                }
            }
        }
    }
}

/// A sorted permutation of `s` is its ascending order.
proof fn lemma_sorted_is_sorted_values(s: Seq<u64>, t: Seq<u64>)
    requires
        sorted_u64(t),
        t.to_multiset() == s.to_multiset(),
    ensures
        t == sorted_values(s),
        t.len() == s.len(),
{
    vstd::seq_lib::to_multiset_len(s);
    vstd::seq_lib::to_multiset_len(t);
    let leq = u64_leq();
    assert(vstd::relations::total_ordering(leq));
    s.lemma_sort_by_ensures(leq);
    let w = sorted_values(s);
    assert(sorted_u64(w)) by {
        assert forall|i: int, j: int| 0 <= i < j < w.len() implies w[i] <= w[j] by {
            assert(sorted_by(w, leq));
            assert(leq(w[i], w[j]));
        }
    }
    lemma_sorted_unique(t, w);
}

/// A copy of one run's observations, taken at one moment.
pub struct Snapshot {
    metrics: Vec<Metric>,
    captured_at: i64,
}

impl View for Snapshot {
    type V = Seq<MetricView>;

    closed spec fn view(&self) -> Seq<MetricView> {
        views(self.metrics@)
    }
}

impl Snapshot {
    pub closed spec fn captured_at(&self) -> i64 {
        self.captured_at
    }

    /// A snapshot of `metrics`, taken at `captured_at` (microseconds since the
    /// Unix epoch).
    pub fn new(metrics: Vec<Metric>, captured_at: i64) -> (r: Snapshot)
        ensures
            r@ == views(metrics@),
            r.captured_at() == captured_at,
    {
        Snapshot { metrics, captured_at }
    }

    pub fn captured_at_micros(&self) -> (r: i64)
        ensures
            r == self.captured_at(),
    {
        self.captured_at
    }

    pub fn is_empty(&self) -> (r: bool)
        ensures
            r == (self@.len() == 0),
    {
        self.metrics.len() == 0
    }

    /// The values observed under `name`; with `recent_only`, only those within
    /// the window that ends at the capture time.
    fn select(&self, name: &str, recent_only: bool) -> (r: Vec<u64>)
        ensures
            !recent_only ==> r@ == named_values(self@, name@),
            recent_only ==> r@ == recent_values(self@, name@, self.captured_at()),
    {
        let want = String::from_str(name);
        let mut out: Vec<u64> = Vec::new();
        let mut i: usize = 0;
        while i < self.metrics.len()
            invariant
                i <= self.metrics.len(),
                want@ == name@,
                !recent_only ==> out@ == named_values(views(self.metrics@).take(i as int), name@),
                recent_only ==> out@ == recent_values(
                    views(self.metrics@).take(i as int),
                    name@,
                    self.captured_at,
                ),
            decreases self.metrics.len() - i,
        {
            let m = &self.metrics[i];
            let ghost all = views(self.metrics@);
            assert(all.take(i + 1).drop_last() =~= all.take(i as int));
            assert(all.take(i + 1).last() == m@);
            let keep = m.name == want && (!recent_only || (self.captured_at as i128)
                - (m.timestamp as i128) <= RATE_WINDOW_MICROS as i128);
            if keep {
                out.push(m.value);
            }
            i = i + 1;
        }
        assert(views(self.metrics@).take(i as int) =~= views(self.metrics@));
        out
    }

    /// Sum of the values observed under `name`.
    pub fn total(&self, name: &str) -> (r: u128)
        ensures
            r == seq_sum(named_values(self@, name@)),
    {
        let v = self.select(name, false);
        sum_values(&v)
    }

    /// Sum of the values observed under `name` at most one second before the
    /// capture time: a live throughput proxy, not a precise rate.
    pub fn instantaneous_rate(&self, name: &str) -> (r: u128)
        ensures
            r == seq_sum(recent_values(self@, name@, self.captured_at())),
    {
        let v = self.select(name, true);
        sum_values(&v)
    }

    /// Mean of the values observed under `name`; 0 when there are none.
    pub fn avg(&self, name: &str) -> (r: Fraction)
        ensures
            r == mean_of(named_values(self@, name@)),
    {
        let v = self.select(name, false);
        if v.len() == 0 {
            return Fraction { numerator: 0, denominator: 1 };
        }
        let s = sum_values(&v);
        Fraction { numerator: s, denominator: v.len() as u128 }
    }

    /// Nearest-rank quantile `q_num / q_den` of the values observed under
    /// `name`; 0 when there are none.
    pub fn quantile(&self, name: &str, q_num: u32, q_den: u32) -> (r: u64)
        requires
            q_den > 0,
        ensures
            r == quantile_of(named_values(self@, name@), q_num as nat, q_den as nat),
    {
        let mut v = self.select(name, false);
        let ghost vals = v@;
        if v.len() == 0 {
            return 0;
        }
        sort_ascending(&mut v);
        proof {
            lemma_sorted_is_sorted_values(vals, v@);
        }
        let n = v.len() as u128;
        proof {
            assert(2 * (q_num as u128) * (n - 1) + q_den as u128 <= u128::MAX) by (nonlinear_arith)
                requires
                    q_num <= u32::MAX,
                    q_den <= u32::MAX,
                    1 <= n <= usize::MAX,
            ;
        }
        let num = 2 * (q_num as u128) * (n - 1) + q_den as u128;
        let idx = num / (2 * q_den as u128);
        let last = n - 1;
        let i = if idx > last { last } else { idx };
        assert(i == rank_index(vals.len(), q_num as nat, q_den as nat));
        v[i as usize]
    }
}

} // verus!
