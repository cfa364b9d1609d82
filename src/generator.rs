//! The pieces of the query and write generators that decide something:
//! which stored query to send, how a dataset row becomes a query, how
//! synthetic writes are tagged, and what a point lookup returned.
use vstd::prelude::*;
use vstd::string::*;
use crate::decimal::{decimal_of, to_decimal};
use crate::document::Document;
use crate::outside::random_range;
use crate::query::{GroundTruth, Query};

verus! {

/// Number of distinct tags given to synthetic writes.
pub const TAG_COUNT: u64 = 1000;

/// Index of a stored query drawn uniformly with replacement; `None` when
/// there is no query to draw.
pub fn pick_query_index(count: usize) -> (r: Option<usize>)
    ensures
        count == 0 ==> r.is_none(),
        count > 0 ==> (r matches Some(i) && i < count),
{
    if count == 0 {
        None
    } else {
        Some(random_range(0, count as u64) as usize)
    }
}

#[derive(Debug, PartialEq, Eq, Structural)]
pub enum RowError {
    /// The single-row batch held no row.
    NoDocuments,
    /// The single-row batch held more than one row.
    MultipleDocuments,
    /// The row carries no embedding.
    MissingEmbedding,
}

/// The query a single dataset row stands for: its embedding, with no ground
/// truth, since live traffic has none.
pub fn query_from_rows(rows: Vec<Document>) -> (r: Result<Query, RowError>)
    ensures
        rows@.len() == 0 ==> r == Err::<Query, RowError>(RowError::NoDocuments),
        rows@.len() > 1 ==> r == Err::<Query, RowError>(RowError::MultipleDocuments),
        rows@.len() == 1 ==> match rows@[0].dense_embedding {
            None => r == Err::<Query, RowError>(RowError::MissingEmbedding),
            Some(v) => r matches Ok(q) && q.dense@ == v@ && q.recall@ == Map::<
                (u32, Seq<char>),
                Seq<i64>,
            >::empty(),
        },
{
    if rows.len() == 0 {
        return Err(RowError::NoDocuments);
    }
    if rows.len() > 1 {
        return Err(RowError::MultipleDocuments);
    }
    let mut rows = rows;
    let ghost first = rows@[0];
    let doc = rows.pop().unwrap();
    assert(doc == first);
    match doc.dense_embedding {
        None => Err(RowError::MissingEmbedding),
        Some(v) => Ok(Query { dense: v, recall: GroundTruth::new() }),
    }
}

/// The tag `tag-<k>`.
pub open spec fn tag_text(k: nat) -> Seq<char> {
    "tag-"@ + decimal_of(k)
}

/// `d` is `orig` with a synthetic tag.
pub open spec fn tagged(d: Document, orig: Document) -> bool {
    &&& d.id == orig.id
    &&& d.text == orig.text
    &&& d.int_filter == orig.int_filter
    &&& d.keyword_filter == orig.keyword_filter
    &&& d.dense_embedding == orig.dense_embedding
    &&& d.tag is Some
    &&& exists|k: nat| k < TAG_COUNT && d.tag.unwrap()@ == #[trigger] tag_text(k)
}

/// Stamps each document with a tag drawn at random from `TAG_COUNT` values.
pub fn tag_documents(docs: Vec<Document>) -> (r: Vec<Document>)
    ensures
        r@.len() == docs@.len(),
        forall|i: int| 0 <= i < docs@.len() ==> tagged(#[trigger] r@[i], docs@[i]),
{
    let mut docs = docs;
    let ghost orig = docs@;
    let mut i: usize = 0;
    while i < docs.len()
        invariant
            i <= docs.len(),
            docs@.len() == orig.len(),
            forall|j: int| 0 <= j < i ==> tagged(#[trigger] docs@[j], orig[j]),
            forall|j: int| i <= j < docs@.len() ==> docs@[j] == orig[j],
        decreases docs.len() - i,
    {
        let k = random_range(0, TAG_COUNT);
        let mut t = String::from_str("tag-");
        t.append(to_decimal(k).as_str());
        assert(t@ == tag_text(k as nat));
        docs[i].tag = Some(t);
        assert(tagged(docs@[i as int], orig[i as int]));
        i = i + 1;
    }
    docs
}

#[derive(Debug, PartialEq, Eq, Structural)]
pub enum LookupError {
    /// A point lookup returned more than one document.
    MultipleMatches { count: usize },
}

/// What a point lookup found: no document, or the one document; more than
/// one breaks the provider's contract.
pub fn lookup_result(docs: Vec<Document>) -> (r: Result<Option<Document>, LookupError>)
    ensures
        docs@.len() == 0 ==> r matches Ok(None),
        docs@.len() == 1 ==> r == Ok::<Option<Document>, LookupError>(Some(docs@[0])),
        docs@.len() > 1 ==> r == Err::<Option<Document>, LookupError>(
            LookupError::MultipleMatches { count: docs@.len() as usize },
        ),
{
    if docs.len() > 1 {
        return Err(LookupError::MultipleMatches { count: docs.len() });
    }
    let mut docs = docs;
    Ok(docs.pop())
}

} // verus!
