//! Write records and the per-batch facts the writers need: approximate byte
//! size and largest numeric ID.
use vstd::prelude::*;
use vstd::utf8::encode_utf8;
use crate::decimal::{parse_u64, parse_u64_spec};

verus! {

/// A write record. The embedding holds each `f32` component as its IEEE-754
/// bit pattern (`f32::to_bits`), so the record carries it without loss.
#[derive(Clone, Debug)]
pub struct Document {
    pub id: String,
    pub text: String,
    pub int_filter: u32,
    pub keyword_filter: String,
    /// Present only on upserts; query results never carry it.
    pub dense_embedding: Option<Vec<u32>>,
    pub tag: Option<String>,
}

/// A fatal defect of a batch: it cannot be retried away.
#[derive(Debug, PartialEq, Eq, Structural)]
pub enum BatchError {
    /// The batch holds no document, so it has no largest ID.
    EmptyBatch,
    /// The document at `index` (the first such) has an ID that is not an
    /// unsigned 64-bit decimal.
    InvalidId { index: usize },
}

/// Number of bytes of the UTF-8 encoding of `s`.
pub open spec fn utf8_len(s: Seq<char>) -> nat {
    encode_utf8(s).len()
}

pub open spec fn embedding_bytes(e: Option<Vec<u32>>) -> nat {
    match e {
        Some(v) => 4 * v@.len(),
        None => 0,
    }
}

/// Approximate size: the bytes of the ID, text and keyword, four for the
/// integer facet, and four per embedding component.
pub open spec fn doc_size(d: Document) -> nat {
    utf8_len(d.id@) + utf8_len(d.text@) + 4 + utf8_len(d.keyword_filter@) + embedding_bytes(
        d.dense_embedding,
    )
}

pub open spec fn batch_size(docs: Seq<Document>) -> nat
    decreases docs.len(),
{
    if docs.len() == 0 {
        0
    } else {
        batch_size(docs.drop_last()) + doc_size(docs.last())
    }
}

/// The numeric value of a document's ID, if it has one.
pub open spec fn id_value(d: Document) -> Option<u64> {
    parse_u64_spec(d.id@)
}

pub open spec fn ids_numeric(docs: Seq<Document>) -> bool {
    forall|i: int| 0 <= i < docs.len() ==> (#[trigger] id_value(docs[i])).is_some()
}

/// `m` is the largest ID value of `docs`.
pub open spec fn is_max_id(docs: Seq<Document>, m: u64) -> bool {
    &&& forall|i: int| 0 <= i < docs.len() ==> (#[trigger] id_value(docs[i])).unwrap() <= m
    &&& exists|i: int| 0 <= i < docs.len() && (#[trigger] id_value(docs[i])) == Some(m)
}

proof fn lemma_batch_size_prefix(docs: Seq<Document>, j: int, k: int)
    requires
        0 <= j <= k <= docs.len(),
    ensures
        batch_size(docs.take(j)) <= batch_size(docs.take(k)),
    decreases k - j,
{
    if j < k {
        lemma_batch_size_prefix(docs, j, k - 1);
        assert(docs.take(k).drop_last() =~= docs.take(k - 1));
    }
}

impl Document {
    pub fn new(
        id: String,
        text: String,
        int_filter: u32,
        keyword_filter: String,
        dense_embedding: Option<Vec<u32>>,
        tag: Option<String>,
    ) -> (r: Document)
        ensures
            r.id == id,
            r.text == text,
            r.int_filter == int_filter,
            r.keyword_filter == keyword_filter,
            r.dense_embedding == dense_embedding,
            r.tag == tag,
    {
        Document { id, text, int_filter, keyword_filter, dense_embedding, tag }
    }

    /// Approximate size of the document in bytes.
    pub fn approx_size(&self) -> (r: usize)
        requires
            doc_size(*self) <= usize::MAX,
        ensures
            r == doc_size(*self),
    {
        let emb: usize = match &self.dense_embedding {
            Some(v) => v.len() * 4,
            None => 0,
        };
        self.id.as_str().len() + self.text.as_str().len() + 4 + self.keyword_filter.as_str().len()
            + emb
    }
}

/// Sum of the approximate sizes of the documents of a batch.
pub fn batch_byte_size(docs: &Vec<Document>) -> (r: usize)
    requires
        batch_size(docs@) <= usize::MAX,
    ensures
        r == batch_size(docs@),
{
    let mut total: usize = 0;
    let mut i: usize = 0;
    while i < docs.len()
        invariant
            i <= docs.len(),
            batch_size(docs@) <= usize::MAX,
            total == batch_size(docs@.take(i as int)),
        decreases docs.len() - i,
    {
        proof {
            lemma_batch_size_prefix(docs@, i + 1, docs.len() as int);
            assert(docs@.take(docs.len() as int) =~= docs@);
            assert(docs@.take(i + 1).drop_last() =~= docs@.take(i as int));
        }
        total = total + docs[i].approx_size();
        i = i + 1;
    }
    assert(docs@.take(i as int) =~= docs@);
    total
}

/// The largest numeric ID of a batch. Every ID must be numeric: one that is
/// not makes the whole batch invalid, it is never skipped.
pub fn max_numeric_id(docs: &Vec<Document>) -> (r: Result<u64, BatchError>)
    ensures
        docs@.len() == 0 ==> r == Err::<u64, BatchError>(BatchError::EmptyBatch),
        docs@.len() > 0 && ids_numeric(docs@) ==> (r matches Ok(m) && is_max_id(docs@, m)),
        docs@.len() > 0 && !ids_numeric(docs@) ==> (r matches Err(BatchError::InvalidId { index })
            && index < docs@.len() && id_value(docs@[index as int]).is_none() && ids_numeric(
            docs@.take(index as int),
        )),
{
    if docs.len() == 0 {
        return Err(BatchError::EmptyBatch);
    }
    let mut best: u64 = 0;
    let mut i: usize = 0;
    while i < docs.len()
        invariant
            0 <= i <= docs.len(),
            docs.len() > 0,
            ids_numeric(docs@.take(i as int)),
            i > 0 ==> is_max_id(docs@.take(i as int), best),
        decreases docs.len() - i,
    {
        let v = parse_u64(docs[i].id.as_str());
        match v {
            None => {
                assert(!ids_numeric(docs@)) by {
                    assert(id_value(docs@[i as int]).is_none());
                }
                return Err(BatchError::InvalidId { index: i });
            },
            Some(x) => {
                let ghost old_best = best;
                if i == 0 || x > best {
                    best = x;
                }
                proof {
                    let t = docs@.take(i + 1);
                    let p = docs@.take(i as int);
                    assert(t[i as int] == docs@[i as int]);
                    assert forall|j: int| 0 <= j < t.len() implies (#[trigger] id_value(
                        t[j],
                    )).is_some() && id_value(t[j]).unwrap() <= best by {
                        if j < i {
                            assert(t[j] == p[j]);
                        }
                    }
                    if i == 0 || x > old_best {
                        assert(id_value(t[i as int]) == Some(best));
                    } else {
                        let w = choose|w: int| 0 <= w < p.len() && #[trigger] id_value(p[w]) == Some(
                            old_best,
                        );
                        assert(t[w] == p[w]);
                        assert(id_value(t[w]) == Some(best));
                    }
                }
                i = i + 1;
            },
        }
    }
    assert(docs@.take(i as int) =~= docs@);
    Ok(best)
}

} // verus!
