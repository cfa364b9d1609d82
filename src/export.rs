//! The columnar layout of an export: one row per observation with its time,
//! name and value, then one column per label key seen anywhere in the export,
//! keys in ascending order, a missing label read as the empty string.
use vstd::prelude::*;
use vstd::string::*;
use crate::metrics::{Metric, MetricView, lemma_map_of_domain, views};

verus! {

/// `a` comes strictly before `b` in lexicographic order of code points, the
/// order of `String`'s `Ord`.
pub open spec fn lex_lt(a: Seq<char>, b: Seq<char>) -> bool
    decreases a.len(),
{
    if a.len() == 0 {
        b.len() > 0
    } else if b.len() == 0 {
        false
    } else if a[0] != b[0] {
        a[0] < b[0]
    } else {
        lex_lt(a.drop_first(), b.drop_first())
    }
}

proof fn lemma_lex_irreflexive(a: Seq<char>)
    ensures
        !lex_lt(a, a),
    decreases a.len(),
{
    if a.len() > 0 {
        lemma_lex_irreflexive(a.drop_first());
    }
}

proof fn lemma_lex_total(a: Seq<char>, b: Seq<char>)
    ensures
        a != b ==> lex_lt(a, b) || lex_lt(b, a),
    decreases a.len(),
{
    if a.len() > 0 && b.len() > 0 && a[0] == b[0] {
        lemma_lex_total(a.drop_first(), b.drop_first());
        if a.drop_first() == b.drop_first() {
            assert(a =~= seq![a[0]] + a.drop_first());
            assert(b =~= seq![b[0]] + b.drop_first());
        }
    } else if a.len() == 0 && b.len() == 0 {
        assert(a =~= b);
    }
}

proof fn lemma_lex_transitive(a: Seq<char>, b: Seq<char>, c: Seq<char>)
    requires
        lex_lt(a, b),
        lex_lt(b, c),
    ensures
        lex_lt(a, c),
    decreases a.len(),
{
    if a.len() > 0 && b.len() > 0 && c.len() > 0 && a[0] == b[0] && b[0] == c[0] {
        lemma_lex_transitive(a.drop_first(), b.drop_first(), c.drop_first());
    }
}

/// Whether `a` comes strictly before `b`.
pub fn lex_less(a: &str, b: &str) -> (r: bool)
    ensures
        r == lex_lt(a@, b@),
{
    let n = a.unicode_len();
    let m = b.unicode_len();
    let mut i: usize = 0;
    assert(a@.skip(0) =~= a@);
    assert(b@.skip(0) =~= b@);
    while i < n && i < m
        invariant
            i <= n,
            i <= m,
            n == a@.len(),
            m == b@.len(),
            lex_lt(a@, b@) == lex_lt(a@.skip(i as int), b@.skip(i as int)),
        decreases n - i,
    {
        let x = a.get_char(i);
        let y = b.get_char(i);
        assert(a@.skip(i as int)[0] == x);
        assert(b@.skip(i as int)[0] == y);
        if x != y {
            return x < y;
        }
        assert(a@.skip(i as int).drop_first() =~= a@.skip(i + 1));
        assert(b@.skip(i as int).drop_first() =~= b@.skip(i + 1));
        i = i + 1;
    }
    i < m && i == n
}

/// Strictly ascending, hence without repeats.
pub open spec fn strictly_sorted(keys: Seq<Seq<char>>) -> bool {
    forall|i: int, j: int| 0 <= i < j < keys.len() ==> lex_lt(#[trigger] keys[i], #[trigger] keys[j])
}

/// The label keys of an export.
pub open spec fn key_set(ms: Seq<MetricView>) -> Set<Seq<char>> {
    Set::new(|k: Seq<char>| exists|r: int| 0 <= r < ms.len() && (#[trigger] ms[r]).labels.contains_key(k))
}

/// The cell of label `k` for observation `m`.
pub open spec fn label_cell(m: MetricView, k: Seq<char>) -> Seq<char> {
    if m.labels.contains_key(k) {
        m.labels[k]
    } else {
        Seq::empty()
    }
}

pub open spec fn string_views(v: Seq<String>) -> Seq<Seq<char>> {
    v.map_values(|s: String| s@)
}

/// Columns of an export, in schema order after `timestamps`, `names` and
/// `values`: one per entry of `label_keys`.
pub struct ExportTable {
    pub label_keys: Vec<String>,
    pub timestamps: Vec<i64>,
    pub names: Vec<String>,
    pub values: Vec<u64>,
    pub label_columns: Vec<Vec<String>>,
}

/// Adds `k` to a strictly sorted key list unless it is there.
fn insert_key(keys: &mut Vec<String>, k: String)
    requires
        strictly_sorted(string_views(old(keys)@)),
    ensures
        strictly_sorted(string_views(final(keys)@)),
        string_views(final(keys)@).to_set() == string_views(old(keys)@).to_set().insert(k@),
{
    let ghost before = string_views(keys@);
    let mut p: usize = 0;
    while p < keys.len() && lex_less(keys[p].as_str(), k.as_str())
        invariant
            p <= keys.len(),
            keys@ == old(keys)@,
            before == string_views(keys@),
            strictly_sorted(before),
            forall|i: int| 0 <= i < p ==> lex_lt(#[trigger] before[i], k@),
        decreases keys.len() - p,
    {
        p = p + 1;
    }
    if p < keys.len() && keys[p] == k {
        assert(before.to_set().insert(k@) =~= before.to_set()) by {
            assert(before[p as int] == k@);
        }
        return;
    }
    proof {
        if p < keys.len() {
            lemma_lex_total(before[p as int], k@);
        }
    }
    keys.insert(p, k);
    let ghost after = string_views(keys@);
    assert(after =~= before.insert(p as int, k@));
    assert forall|i: int, j: int| 0 <= i < j < after.len() implies lex_lt(
        #[trigger] after[i],
        #[trigger] after[j],
    ) by {
        if j < p {
            assert(after[i] == before[i] && after[j] == before[j]);
        } else if j == p {
            assert(after[i] == before[i]);
        } else if i < p {
            assert(after[i] == before[i] && after[j] == before[j - 1]);
            lemma_lex_total(before[p as int], k@);
            if j - 1 > p {
                lemma_lex_transitive(k@, before[p as int], before[j - 1]);
            }
            lemma_lex_transitive(before[i], k@, before[j - 1]);
        } else if i == p {
            assert(after[j] == before[j - 1]);
            if j - 1 > p {
                lemma_lex_transitive(k@, before[p as int], before[j - 1]);
            }
        } else {
            assert(after[i] == before[i - 1] && after[j] == before[j - 1]);
        }
    }
    assert(after.to_set() =~= before.to_set().insert(k@)) by {
        assert forall|x: Seq<char>| after.to_set().contains(x) implies before.to_set().insert(
            x,
        ).contains(x) && before.to_set().insert(k@).contains(x) by {
            let w = choose|w: int| 0 <= w < after.len() && after[w] == x;
            if w < p {
                assert(before[w] == x);
            } else if w > p {
                assert(before[w - 1] == x);
            }
        }
        assert forall|x: Seq<char>| before.to_set().insert(k@).contains(x) implies after.to_set().contains(
            x,
        ) by {
            if x == k@ {
                assert(after[p as int] == x);
            } else {
                let w = choose|w: int| 0 <= w < before.len() && before[w] == x;
                if w < p {
                    assert(after[w] == x);
                } else {
                    assert(after[w + 1] == x);
                }
            }
        }
    }
}

/// The export layout of `metrics`.
pub fn export_table(metrics: &Vec<Metric>) -> (r: ExportTable)
    ensures
        strictly_sorted(string_views(r.label_keys@)),
        string_views(r.label_keys@).to_set() == key_set(views(metrics@)),
        r.timestamps@.len() == metrics@.len(),
        r.names@.len() == metrics@.len(),
        r.values@.len() == metrics@.len(),
        forall|i: int|
            0 <= i < metrics@.len() ==> r.timestamps@[i] == (#[trigger] metrics@[i]).timestamp
                && r.names@[i]@ == metrics@[i].name@ && r.values@[i] == metrics@[i].value,
        r.label_columns@.len() == r.label_keys@.len(),
        forall|c: int|
            0 <= c < r.label_keys@.len() ==> (#[trigger] r.label_columns@[c])@.len() == metrics@.len(),
        forall|c: int, i: int|
            0 <= c < r.label_keys@.len() && 0 <= i < metrics@.len() ==> (#[trigger] r.label_columns@[c]@[i])@
                == label_cell(metrics@[i]@, r.label_keys@[c]@),
{
    let ghost ms = views(metrics@);
    let mut keys: Vec<String> = Vec::new();
    let mut timestamps: Vec<i64> = Vec::new();
    let mut names: Vec<String> = Vec::new();
    let mut values: Vec<u64> = Vec::new();
    let mut i: usize = 0;
    assert(string_views(keys@).to_set() =~= key_set(ms.take(0)));
    while i < metrics.len()
        invariant
            i <= metrics.len(),
            ms == views(metrics@),
            strictly_sorted(string_views(keys@)),
            string_views(keys@).to_set() == key_set(ms.take(i as int)),
            timestamps@.len() == i,
            names@.len() == i,
            values@.len() == i,
            forall|j: int|
                0 <= j < i ==> timestamps@[j] == (#[trigger] metrics@[j]).timestamp && names@[j]@
                    == metrics@[j].name@ && values@[j] == metrics@[j].value,
        decreases metrics.len() - i,
    {
        let m = &metrics[i];
        timestamps.push(m.timestamp);
        names.push(m.name.clone());
        values.push(m.value);
        let ks = m.labels.keys();
        let ghost pre = string_views(keys@).to_set();
        let mut j: usize = 0;
        while j < ks.len()
            invariant
                j <= ks.len(),
                strictly_sorted(string_views(keys@)),
                string_views(keys@).to_set() == pre.union(
                    Set::new(|k: Seq<char>| exists|t: int| 0 <= t < j && (#[trigger] ks@[t])@ == k),
                ),
            decreases ks.len() - j,
        {
            let ghost before = string_views(keys@).to_set();
            insert_key(&mut keys, ks[j].clone());
            assert(string_views(keys@).to_set() =~= pre.union(
                Set::new(|k: Seq<char>| exists|t: int| 0 <= t < j + 1 && (#[trigger] ks@[t])@ == k),
            )) by {
                assert(ks@[j as int]@ == ks@[j as int]@);
            }
            j = j + 1;
        }
        proof {
            let nxt = ms.take(i + 1);
            assert(string_views(keys@).to_set() =~= key_set(nxt)) by {
                assert forall|k: Seq<char>| key_set(nxt).contains(k) implies string_views(
                    keys@,
                ).to_set().contains(k) by {
                    let r = choose|r: int| 0 <= r < nxt.len() && (#[trigger] nxt[r]).labels.contains_key(k);
                    if r < i {
                        assert(ms.take(i as int)[r] == nxt[r]);
                        assert(key_set(ms.take(i as int)).contains(k));
                    } else {
                        lemma_map_of_domain(m.labels.pairs(), k);
                        let t = choose|t: int| 0 <= t < m.labels.pairs().len() && (#[trigger] m.labels.pairs()[t]).0 == k;
                        assert(ks@[t]@ == k);
                    }
                }
                assert forall|k: Seq<char>| string_views(keys@).to_set().contains(k) implies key_set(
                    nxt,
                ).contains(k) by {
                    if pre.contains(k) {
                        let r = choose|r: int| 0 <= r < i && (#[trigger] ms.take(i as int)[r]).labels.contains_key(k);
                        assert(nxt[r] == ms.take(i as int)[r]);
                    } else {
                        let t = choose|t: int| 0 <= t < ks@.len() && (#[trigger] ks@[t])@ == k;
                        lemma_map_of_domain(m.labels.pairs(), k);
                        assert(nxt[i as int] == m@);
                    }
                }
            }
        }
        i = i + 1;
    }
    assert(ms.take(i as int) =~= ms);
    let mut label_columns: Vec<Vec<String>> = Vec::new();
    let mut c: usize = 0;
    while c < keys.len()
        invariant
            c <= keys.len(),
            ms == views(metrics@),
            label_columns@.len() == c,
            forall|c2: int| 0 <= c2 < c ==> (#[trigger] label_columns@[c2])@.len() == metrics@.len(),
            forall|c2: int, r: int|
                0 <= c2 < c && 0 <= r < metrics@.len() ==> (#[trigger] label_columns@[c2]@[r])@
                    == label_cell(metrics@[r]@, keys@[c2]@),
        decreases keys.len() - c,
    {
        let mut col: Vec<String> = Vec::new();
        let mut r: usize = 0;
        while r < metrics.len()
            invariant
                r <= metrics.len(),
                c < keys.len(),
                col@.len() == r,
                forall|r2: int| 0 <= r2 < r ==> (#[trigger] col@[r2])@ == label_cell(metrics@[r2]@, keys@[c as int]@),
            decreases metrics.len() - r,
        {
            let cell = match metrics[r].labels.get(keys[c].as_str()) {
                Some(v) => v.clone(),
                None => String::new(),
            };
            col.push(cell);
            r = r + 1;
        }
        label_columns.push(col);
        c = c + 1;
    }
    ExportTable { label_keys: keys, timestamps, names, values, label_columns }
}

} // verus!
