//! Observations, the label sets bound to them, the recorder that stamps them,
//! and the append-only store they are kept in.
use vstd::prelude::*;
use vstd::string::*;
use crate::outside::now_micros;
use crate::snapshot::Snapshot;

verus! {

/// The label that ties an observation to one run of the harness.
pub open spec fn run_id_key() -> Seq<char> {
    seq!['r', 'u', 'n', '_', 'i', 'd']
}

/// The mapping that a list of pairs denotes: a later pair for a key replaces
/// an earlier one.
pub open spec fn map_of(pairs: Seq<(Seq<char>, Seq<char>)>) -> Map<Seq<char>, Seq<char>>
    decreases pairs.len(),
{
    if pairs.len() == 0 {
        Map::empty()
    } else {
        map_of(pairs.drop_last()).insert(pairs.last().0, pairs.last().1)
    }
}

proof fn lemma_map_of_suffix_free(pairs: Seq<(Seq<char>, Seq<char>)>, i: int, k: Seq<char>)
    requires
        0 <= i <= pairs.len(),
        forall|j: int| i <= j < pairs.len() ==> (#[trigger] pairs[j]).0 != k,
    ensures
        map_of(pairs).contains_key(k) == map_of(pairs.take(i)).contains_key(k),
        map_of(pairs).contains_key(k) ==> map_of(pairs)[k] == map_of(pairs.take(i))[k],
    decreases pairs.len() - i,
{
    if i < pairs.len() {
        let d = pairs.drop_last();
        assert(pairs.take(i) =~= d.take(i));
        assert forall|j: int| i <= j < d.len() implies (#[trigger] d[j]).0 != k by {
            assert(d[j] == pairs[j]);
        }
        lemma_map_of_suffix_free(d, i, k);
    } else {
        assert(pairs.take(i) =~= pairs);
    }
}

/// A key holds a value exactly when some pair names it.
pub proof fn lemma_map_of_domain(pairs: Seq<(Seq<char>, Seq<char>)>, k: Seq<char>)
    ensures
        map_of(pairs).contains_key(k) <==> exists|j: int| 0 <= j < pairs.len() && (#[trigger] pairs[j]).0 == k,
    decreases pairs.len(),
{
    if pairs.len() > 0 {
        let d = pairs.drop_last();
        lemma_map_of_domain(d, k);
        if exists|j: int| 0 <= j < d.len() && (#[trigger] d[j]).0 == k {
            let j = choose|j: int| 0 <= j < d.len() && (#[trigger] d[j]).0 == k;
            assert(pairs[j] == d[j]);
        }
        if exists|j: int| 0 <= j < pairs.len() && (#[trigger] pairs[j]).0 == k {
            let j = choose|j: int| 0 <= j < pairs.len() && (#[trigger] pairs[j]).0 == k;
            if j < d.len() {
                assert(d[j] == pairs[j]);
            }
        }
    }
}

/// A fixed set of string labels.
pub struct Labels {
    entries: Vec<(String, String)>,
}

impl Labels {
    pub closed spec fn pairs(&self) -> Seq<(Seq<char>, Seq<char>)> {
        self.entries@.map_values(|e: (String, String)| (e.0@, e.1@))
    }

    pub open spec fn view(&self) -> Map<Seq<char>, Seq<char>> {
        map_of(self.pairs())
    }

    /// Labels from `(key, value)` pairs; a later pair for a key wins.
    pub fn new(pairs: Vec<(String, String)>) -> (r: Labels)
        ensures
            r.pairs() == pairs@.map_values(|e: (String, String)| (e.0@, e.1@)),
    {
        Labels { entries: pairs }
    }

    /// A copy with the same pairs.
    pub fn duplicate(&self) -> (r: Labels)
        ensures
            r.pairs() == self.pairs(),
            r@ == self@,
    {
        let mut out: Vec<(String, String)> = Vec::new();
        let mut i: usize = 0;
        while i < self.entries.len()
            invariant
                i <= self.entries.len(),
                out@.len() == i,
                forall|j: int| 0 <= j < i ==> (#[trigger] out@[j]).0@ == self.entries@[j].0@
                    && out@[j].1@ == self.entries@[j].1@,
            decreases self.entries.len() - i,
        {
            let k = self.entries[i].0.clone();
            let v = self.entries[i].1.clone();
            out.push((k, v));
            i = i + 1;
        }
        let r = Labels { entries: out };
        assert(r.pairs() =~= self.pairs());
        r
    }

    /// Every key that holds a value, in the order its pairs were given,
    /// repeats included.
    pub fn keys(&self) -> (r: Vec<String>)
        ensures
            r@.len() == self.pairs().len(),
            forall|i: int| 0 <= i < r@.len() ==> (#[trigger] r@[i])@ == self.pairs()[i].0,
    {
        let mut out: Vec<String> = Vec::new();
        let mut i: usize = 0;
        while i < self.entries.len()
            invariant
                i <= self.entries.len(),
                out@.len() == i,
                forall|j: int| 0 <= j < i ==> (#[trigger] out@[j])@ == self.pairs()[j].0,
            decreases self.entries.len() - i,
        {
            out.push(self.entries[i].0.clone());
            i = i + 1;
        }
        out
    }

    /// The value bound to `key`.
    pub fn get(&self, key: &str) -> (r: Option<&String>)
        ensures
            r.is_some() == self@.contains_key(key@),
            r matches Some(v) ==> v@ == self@[key@],
    {
        let k = String::from_str(key);
        let ghost ps = self.pairs();
        let mut i: usize = self.entries.len();
        while i > 0
            invariant
                i <= self.entries.len(),
                ps == self.pairs(),
                k@ == key@,
                forall|j: int| i <= j < ps.len() ==> (#[trigger] ps[j]).0 != key@,
            decreases i,
        {
            let e = &self.entries[i - 1];
            if e.0 == k {
                proof {
                    assert(ps[i - 1] == (e.0@, e.1@));
                    lemma_map_of_suffix_free(ps, i as int, key@);
                    assert(ps.take(i as int).drop_last() =~= ps.take(i - 1));
                    assert(ps.take(i as int).last() == ps[i - 1]);
                }
                return Some(&e.1);
            }
            assert(ps[i - 1] == (e.0@, e.1@));
            i = i - 1;
        }
        proof {
            lemma_map_of_suffix_free(ps, 0, key@);
            assert(ps.take(0) =~= Seq::<(Seq<char>, Seq<char>)>::empty());
        }
        None
    }
}

/// What an observation denotes.
pub struct MetricView {
    pub name: Seq<char>,
    pub value: u64,
    pub timestamp: i64,
    pub labels: Map<Seq<char>, Seq<char>>,
}

/// One observation: a named non-negative value (a count, a byte size, a
/// number of milliseconds, or parts per million), its capture time in
/// microseconds since the Unix epoch, and its labels.
pub struct Metric {
    pub name: String,
    pub value: u64,
    pub timestamp: i64,
    pub labels: Labels,
}

impl View for Metric {
    type V = MetricView;

    open spec fn view(&self) -> MetricView {
        MetricView { name: self.name@, value: self.value, timestamp: self.timestamp, labels: self.labels@ }
    }
}

impl Metric {
    /// A copy with the same view.
    pub fn duplicate(&self) -> (r: Metric)
        ensures
            r@ == self@,
    {
        Metric {
            name: self.name.clone(),
            value: self.value,
            timestamp: self.timestamp,
            labels: self.labels.duplicate(),
        }
    }
}

/// Binds one label set to every observation it makes.
pub struct Recorder {
    metadata: Labels,
}

impl Recorder {
    pub closed spec fn labels(&self) -> Map<Seq<char>, Seq<char>> {
        self.metadata@
    }

    pub fn new(metadata: Vec<(String, String)>) -> (r: Recorder)
        ensures
            r.labels() == map_of(metadata@.map_values(|e: (String, String)| (e.0@, e.1@))),
    {
        Recorder { metadata: Labels::new(metadata) }
    }

    /// An observation of `value` under `name`, stamped with the current time
    /// and this recorder's labels.
    pub fn record(&self, name: &str, value: u64) -> (r: Metric)
        ensures
            r@.name == name@,
            r@.value == value,
            r@.labels == self.labels(),
    {
        let timestamp = now_micros();
        Metric { name: String::from_str(name), value, timestamp, labels: self.metadata.duplicate() }
    }
}

/// The views of a list of observations.
pub open spec fn views(ms: Seq<Metric>) -> Seq<MetricView> {
    ms.map_values(|m: Metric| m@)
}

/// The observation belongs to run `run_id`.
pub open spec fn of_run(m: MetricView, run_id: Seq<char>) -> bool {
    m.labels.contains_key(run_id_key()) && m.labels[run_id_key()] == run_id
}

/// The observations of run `run_id`, in the order they were appended.
pub open spec fn run_metrics(ms: Seq<MetricView>, run_id: Seq<char>) -> Seq<MetricView>
    decreases ms.len(),
{
    if ms.len() == 0 {
        Seq::empty()
    } else if of_run(ms.last(), run_id) {
        run_metrics(ms.drop_last(), run_id).push(ms.last())
    } else {
        run_metrics(ms.drop_last(), run_id)
    }
}

/// An append-only log of observations.
pub struct MetricStore {
    metrics: Vec<Metric>,
}

impl View for MetricStore {
    type V = Seq<MetricView>;

    closed spec fn view(&self) -> Seq<MetricView> {
        views(self.metrics@)
    }
}

impl MetricStore {
    pub fn new() -> (r: MetricStore)
        ensures
            r@ == Seq::<MetricView>::empty(),
    {
        let r = MetricStore { metrics: Vec::new() };
        assert(r@ =~= Seq::<MetricView>::empty());
        r
    }

    pub fn len(&self) -> (r: usize)
        ensures
            r == self@.len(),
    {
        self.metrics.len()
    }

    pub fn append(&mut self, m: Metric)
        ensures
            final(self)@ == old(self)@.push(m@),
    {
        self.metrics.push(m);
        assert(self@ =~= old(self)@.push(m@));
    }

    /// Copies of the observations of run `run_id`, taken at time `now`.
    pub fn snapshot_at(&self, run_id: &str, now: i64) -> (r: Snapshot)
        ensures
            r@ == run_metrics(self@, run_id@),
            r.captured_at() == now,
    {
        let key = "run_id";
        proof {
            reveal_strlit("run_id");
        }
        assert(key@ == run_id_key());
        let want = String::from_str(run_id);
        let mut out: Vec<Metric> = Vec::new();
        let mut i: usize = 0;
        while i < self.metrics.len()
            invariant
                i <= self.metrics.len(),
                key@ == run_id_key(),
                want@ == run_id@,
                views(out@) == run_metrics(views(self.metrics@).take(i as int), run_id@),
            decreases self.metrics.len() - i,
        {
            let m = &self.metrics[i];
            let ghost all = views(self.metrics@);
            assert(all.take(i + 1).drop_last() =~= all.take(i as int));
            assert(all.take(i + 1).last() == m@);
            let keep = match m.labels.get(key) {
                Some(v) => *v == want,
                None => false,
            };
            if keep {
                let c = m.duplicate();
                let ghost before = out@;
                out.push(c);
                assert(views(out@) =~= views(before).push(c@));
            }
            i = i + 1;
        }
        assert(views(self.metrics@).take(i as int) =~= views(self.metrics@));
        Snapshot::new(out, now)
    }

    /// Removes and returns every observation, leaving the store empty.
    pub fn flush(&mut self) -> (r: Vec<Metric>)
        ensures
            views(r@) == old(self)@,
            final(self)@ == Seq::<MetricView>::empty(),
    {
        let mut r: Vec<Metric> = Vec::new();
        std::mem::swap(&mut self.metrics, &mut r);
        assert(self@ =~= Seq::<MetricView>::empty());
        r
    }
}

/// The observations of run `run_id` held by `store` now.
pub fn snapshot_metrics(store: &MetricStore, run_id: &str) -> (r: Snapshot)
    ensures
        r@ == run_metrics(store@, run_id@),
{
    store.snapshot_at(run_id, now_micros())
}

/// Drains `store`: returns everything it held and leaves it empty.
pub fn flush_metrics(store: &mut MetricStore) -> (r: Vec<Metric>)
    ensures
        views(r@) == old(store)@,
        final(store)@ == Seq::<MetricView>::empty(),
{
    store.flush()
}

} // verus!
