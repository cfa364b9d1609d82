//! Read records and their ground truth, and the two run configurations.
use vstd::prelude::*;

verus! {

/// The ground truth of one query: for each `(int_filter, keyword_filter)`
/// pair, the ordered list of relevant document IDs. Positive IDs are true
/// positives; the others are padding.
pub struct GroundTruth {
    entries: Vec<(u32, String, Vec<i64>)>,
}

/// The mapping that a list of ground-truth entries denotes: a later entry for
/// a key replaces an earlier one.
pub open spec fn truth_map(es: Seq<(u32, Seq<char>, Seq<i64>)>) -> Map<(u32, Seq<char>), Seq<i64>>
    decreases es.len(),
{
    if es.len() == 0 {
        Map::empty()
    } else {
        truth_map(es.drop_last()).insert((es.last().0, es.last().1), es.last().2)
    }
}

proof fn lemma_truth_map_suffix_free(
    es: Seq<(u32, Seq<char>, Seq<i64>)>,
    i: int,
    k: (u32, Seq<char>),
)
    requires
        0 <= i <= es.len(),
        forall|j: int| i <= j < es.len() ==> ((#[trigger] es[j]).0, es[j].1) != k,
    ensures
        truth_map(es).contains_key(k) == truth_map(es.take(i)).contains_key(k),
        truth_map(es).contains_key(k) ==> truth_map(es)[k] == truth_map(es.take(i))[k],
    decreases es.len() - i,
{
    if i < es.len() {
        let d = es.drop_last();
        assert(es.take(i) =~= d.take(i));
        assert forall|j: int| i <= j < d.len() implies ((#[trigger] d[j]).0, d[j].1) != k by {
            assert(d[j] == es[j]);
        }
        lemma_truth_map_suffix_free(d, i, k);
    } else {
        assert(es.take(i) =~= es);
    }
}

impl GroundTruth {
    pub closed spec fn entries(&self) -> Seq<(u32, Seq<char>, Seq<i64>)> {
        self.entries@.map_values(|e: (u32, String, Vec<i64>)| (e.0, e.1@, e.2@))
    }

    pub open spec fn view(&self) -> Map<(u32, Seq<char>), Seq<i64>> {
        truth_map(self.entries())
    }

    pub fn new() -> (r: GroundTruth)
        ensures
            r@ == Map::<(u32, Seq<char>), Seq<i64>>::empty(),
    {
        let r = GroundTruth { entries: Vec::new() };
        assert(r.entries() =~= Seq::<(u32, Seq<char>, Seq<i64>)>::empty());
        r
    }

    /// Binds `ids` to the pair, replacing what was bound to it.
    pub fn insert(&mut self, int_filter: u32, keyword_filter: String, ids: Vec<i64>)
        ensures
            final(self)@ == old(self)@.insert((int_filter, keyword_filter@), ids@),
    {
        let ghost e = (int_filter, keyword_filter@, ids@);
        self.entries.push((int_filter, keyword_filter, ids));
        assert(self.entries() =~= old(self).entries().push(e));
        assert(self.entries().drop_last() =~= old(self).entries());
    }

    /// The IDs bound to the pair, if any.
    pub fn get(&self, int_filter: u32, keyword_filter: &String) -> (r: Option<&Vec<i64>>)
        ensures
            r.is_some() == self@.contains_key((int_filter, keyword_filter@)),
            r matches Some(v) ==> v@ == self@[(int_filter, keyword_filter@)],
    {
        let ghost es = self.entries();
        let ghost k = (int_filter, keyword_filter@);
        let mut i: usize = self.entries.len();
        while i > 0
            invariant
                i <= self.entries.len(),
                es == self.entries(),
                k == (int_filter, keyword_filter@),
                forall|j: int| i <= j < es.len() ==> ((#[trigger] es[j]).0, es[j].1) != k,
            decreases i,
        {
            let e = &self.entries[i - 1];
            assert(es[i - 1] == (e.0, e.1@, e.2@));
            if e.0 == int_filter && e.1 == *keyword_filter {
                proof {
                    lemma_truth_map_suffix_free(es, i as int, k);
                    assert(es.take(i as int).drop_last() =~= es.take(i - 1));
                    assert(es.take(i as int).last() == es[i - 1]);
                }
                return Some(&e.2);
            }
            i = i - 1;
        }
        proof {
            lemma_truth_map_suffix_free(es, 0, k);
            assert(es.take(0) =~= Seq::<(u32, Seq<char>, Seq<i64>)>::empty());
        }
        None
    }
}

/// A read record: the query embedding (each `f32` as its bit pattern) and the
/// ground truth used to score its results.
pub struct Query {
    pub dense: Vec<u32>,
    pub recall: GroundTruth,
}

} // verus!
