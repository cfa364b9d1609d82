//! Recall of one query's results against its ground truth.
use vstd::prelude::*;
use vstd::string::*;
use crate::config::QueryConfig;
use crate::decimal::parse_u64;
use crate::document::{Document, id_value};
use crate::query::Query;
use crate::snapshot::Fraction;

verus! {

/// Largest result count whose recall can be measured.
pub const MAX_TOP_K: u32 = 100;

/// Ground-truth key used when the run sets no integer filter.
pub const DEFAULT_INT_FILTER: u32 = 10000;

/// A defect that makes recall unmeasurable; none of them can be retried away.
#[derive(Debug, PartialEq, Eq, Structural)]
pub enum RecallError {
    /// The result at `index` (the first such) has an ID that is not an
    /// unsigned 64-bit decimal.
    InvalidResultId { index: usize },
    /// `top_k` is above `MAX_TOP_K`.
    TopKTooLarge,
    /// The ground truth has no entry for the run's filters.
    MissingGroundTruth,
    /// The ground truth for the run's filters holds no positive ID.
    NoExpectedIds,
}

/// Ground-truth keyword used when the run sets no keyword filter.
pub open spec fn default_keyword() -> Seq<char> {
    seq!['1', '0', '0', '0', '0']
}

/// The ground-truth key that a configuration selects.
pub open spec fn truth_key(c: QueryConfig) -> (u32, Seq<char>) {
    (
        match c.int_filter {
            Some(f) => f,
            None => DEFAULT_INT_FILTER,
        },
        match c.keyword_filter {
            Some(k) => k@,
            None => default_keyword(),
        },
    )
}

/// The positive IDs, in order.
pub open spec fn positives(ids: Seq<i64>) -> Seq<u64>
    decreases ids.len(),
{
    if ids.len() == 0 {
        Seq::empty()
    } else if ids.last() > 0 {
        positives(ids.drop_last()).push(ids.last() as u64)
    } else {
        positives(ids.drop_last())
    }
}

/// At most the first `n` elements.
pub open spec fn first_n(s: Seq<u64>, n: nat) -> Seq<u64> {
    if s.len() <= n {
        s
    } else {
        s.take(n as int)
    }
}

/// The expected IDs of a query under a configuration: the first `top_k`
/// positive IDs of the selected ground truth.
pub open spec fn expected_ids(q: Query, c: QueryConfig) -> Result<Seq<u64>, RecallError> {
    if c.top_k > MAX_TOP_K {
        Err(RecallError::TopKTooLarge)
    } else if !q.recall@.contains_key(truth_key(c)) {
        Err(RecallError::MissingGroundTruth)
    } else {
        Ok(first_n(positives(q.recall@[truth_key(c)]), c.top_k as nat))
    }
}

/// The IDs of the results, as a set.
pub open spec fn result_ids(results: Seq<Document>) -> Set<u64> {
    Set::new(|x: u64| exists|i: int| 0 <= i < results.len() && id_value(results[i]) == Some(x))
}

pub open spec fn all_ids_numeric(results: Seq<Document>) -> bool {
    forall|i: int| 0 <= i < results.len() ==> (#[trigger] id_value(results[i])).is_some()
}

/// The recall owed for `results`: the share of the expected IDs found among
/// them, with the errors that come first.
pub open spec fn recall_spec(results: Seq<Document>, q: Query, c: QueryConfig) -> Result<
    Fraction,
    RecallError,
> {
    match expected_ids(q, c) {
        Err(e) => Err(e),
        Ok(exp) => if exp.to_set().len() == 0 {
            Err(RecallError::NoExpectedIds)
        } else {
            Ok(
                Fraction {
                    numerator: exp.to_set().intersect(result_ids(results)).len() as u128,
                    denominator: exp.to_set().len() as u128,
                },
            )
        },
    }
}

/// The expected IDs of `query` under `config`.
pub fn recall(query: &Query, config: &QueryConfig) -> (r: Result<Vec<u64>, RecallError>)
    ensures
        match expected_ids(*query, *config) {
            Ok(e) => r matches Ok(v) && v@ == e,
            Err(e) => r == Err::<Vec<u64>, RecallError>(e),
        },
{
    if config.top_k > MAX_TOP_K {
        return Err(RecallError::TopKTooLarge);
    }
    let int_filter = match config.int_filter {
        Some(f) => f,
        None => DEFAULT_INT_FILTER,
    };
    proof {
        reveal_strlit("10000");
    }
    let keyword = match &config.keyword_filter {
        Some(k) => k.clone(),
        None => String::from_str("10000"),
    };
    assert((int_filter, keyword@) == truth_key(*config));
    let ids = match query.recall.get(int_filter, &keyword) {
        Some(ids) => ids,
        None => {
            return Err(RecallError::MissingGroundTruth);
        },
    };
    let k = config.top_k as usize;
    let mut out: Vec<u64> = Vec::new();
    let mut i: usize = 0;
    while i < ids.len()
        invariant
            i <= ids.len(),
            out@ == first_n(positives(ids@.take(i as int)), k as nat),
        decreases ids.len() - i,
    {
        assert(ids@.take(i + 1).drop_last() =~= ids@.take(i as int));
        let x = ids[i];
        if x > 0 {
            if out.len() < k {
                out.push(x as u64);
            }
            assert(out@ =~= first_n(positives(ids@.take(i + 1)), k as nat));
        }
        i = i + 1;
    }
    assert(ids@.take(i as int) =~= ids@);
    Ok(out)
}

fn occurs_before(v: &Vec<u64>, x: u64, end: usize) -> (r: bool)
    requires
        end <= v.len(),
    ensures
        r == v@.take(end as int).contains(x),
{
    let mut j: usize = 0;
    while j < end
        invariant
            j <= end <= v.len(),
            !v@.take(j as int).contains(x),
        decreases end - j,
    {
        if v[j] == x {
            assert(v@.take(end as int)[j as int] == x);
            return true;
        }
        assert(v@.take(j + 1) =~= v@.take(j as int).push(v[j as int]));
        j = j + 1;
    }
    false
}

/// Recall of `results` for `query`: the share of the expected IDs that the
/// results hold, as an exact fraction.
pub fn calculate_recall(results: &Vec<Document>, query: &Query, config: &QueryConfig) -> (r: Result<
    Fraction,
    RecallError,
>)
    ensures
        !all_ids_numeric(results@) ==> (r matches Err(RecallError::InvalidResultId { index })
            && index < results@.len() && id_value(results@[index as int]).is_none()
            && all_ids_numeric(results@.take(index as int))),
        all_ids_numeric(results@) ==> r == recall_spec(results@, *query, *config),
        r matches Ok(f) ==> 0 < f.denominator <= MAX_TOP_K && f.numerator <= f.denominator,
{
    let mut actual: Vec<u64> = Vec::new();
    let mut i: usize = 0;
    while i < results.len()
        invariant
            i <= results.len(),
            actual@.len() == i,
            forall|j: int| 0 <= j < i ==> id_value(results@[j]) == Some(#[trigger] actual@[j]),
        decreases results.len() - i,
    {
        match parse_u64(results[i].id.as_str()) {
            Some(x) => actual.push(x),
            None => {
                proof {
                    assert(!all_ids_numeric(results@)) by {
                        assert(id_value(results@[i as int]).is_none());
                    }
                    assert forall|j: int| 0 <= j < i implies (#[trigger] id_value(
                        results@.take(i as int)[j],
                    )).is_some() by {
                        assert(results@.take(i as int)[j] == results@[j]);
                        assert(id_value(results@[j]) == Some(actual@[j]));
                    }
                }
                return Err(RecallError::InvalidResultId { index: i });
            },
        }
        i = i + 1;
    }
    let ghost a_set = result_ids(results@);
    assert(a_set =~= actual@.to_set()) by {
        assert forall|x: u64| a_set.contains(x) implies actual@.to_set().contains(x) by {
            let w = choose|w: int| 0 <= w < results@.len() && id_value(results@[w]) == Some(x);
            assert(actual@[w] == x);
        }
        assert forall|x: u64| actual@.to_set().contains(x) implies a_set.contains(x) by {
            let w = choose|w: int| 0 <= w < actual@.len() && actual@[w] == x;
            assert(id_value(results@[w]) == Some(actual@[w]));
        }
    }
    assert(all_ids_numeric(results@)) by {
        assert forall|j: int| 0 <= j < results@.len() implies (#[trigger] id_value(
            results@[j],
        )).is_some() by {
            assert(id_value(results@[j]) == Some(actual@[j]));
        }
    }
    let expected = recall(query, config)?;
    let ghost exp = expected@;
    let mut distinct: u128 = 0;
    let mut found: u128 = 0;
    let mut k: usize = 0;
    assert(exp.take(0).to_set() =~= Set::<u64>::empty());
    assert(exp.take(0).to_set().intersect(a_set) =~= Set::<u64>::empty());
    while k < expected.len()
        invariant
            k <= expected.len() <= 100,
            exp == expected@,
            a_set == actual@.to_set(),
            distinct == exp.take(k as int).to_set().len(),
            found == exp.take(k as int).to_set().intersect(a_set).len(),
            found <= distinct <= k,
        decreases expected.len() - k,
    {
        broadcast use vstd::seq_lib::seq_to_set_is_finite;
        broadcast use vstd::set::group_set_axioms;

        let x = expected[k];
        let ghost before = exp.take(k as int).to_set();
        assert(exp.take(k + 1) =~= exp.take(k as int).push(x));
        proof {
            exp.take(k as int).lemma_push_to_set_commute(x);
        }
        let seen = occurs_before(&expected, x, k);
        if !seen {
            assert(!before.contains(x));
            let ghost bi = before.intersect(a_set);
            if occurs_before(&actual, x, actual.len()) {
                assert(actual@.take(actual.len() as int) =~= actual@);
                assert(before.insert(x).intersect(a_set) =~= bi.insert(x));
                found = found + 1;
            } else {
                assert(actual@.take(actual.len() as int) =~= actual@);
                assert(before.insert(x).intersect(a_set) =~= bi);
            }
            distinct = distinct + 1;
        } else {
            assert(before.insert(x) =~= before);
        }
        k = k + 1;
    }
    assert(exp.take(k as int) =~= exp);
    if distinct == 0 {
        return Err(RecallError::NoExpectedIds);
    }
    Ok(Fraction { numerator: found, denominator: distinct })
}

} // verus!
