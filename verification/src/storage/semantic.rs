//! The part of semantic search that the index takes: from the clusters
//! nearest to a query to the symbols whose vectors are to be compared.

use vstd::prelude::*;
use crate::error::{StorageError, StorageResult};
use crate::storage::document::{is_symbol_doc, num_at, text_at, DocView};
use crate::storage::index::{claims_vector, doc_cluster, general_error, DocumentIndex};
use crate::storage::query::{stored_views, StoredDocView};
use crate::storage::schema::{F_LANGUAGE, F_SYMBOL_ID, F_VECTOR_ID, IndexSchema};
use crate::storage::shapes::{num_or, opt_str_view};
use crate::types::SymbolId;
use crate::vector::{ClusterId, VectorId};

verus! {

/// The numbers of the clusters of a list.
pub open spec fn cluster_numbers(v: Seq<ClusterId>) -> Seq<u32> {
    Seq::new(v.len(), |i: int| v[i].spec_get())
}

/// The document is a candidate of a semantic search among the clusters:
/// a symbol with a vector in one of the clusters, of the language where one
/// is asked for, whose vector number is not zero.
pub open spec fn is_candidate(d: DocView, clusters: Seq<u32>, language: Option<Seq<char>>) -> bool {
    &&& is_symbol_doc(d)
    &&& claims_vector(d)
    &&& clusters.contains(doc_cluster(d))
    &&& language is Some ==> text_at(d, F_LANGUAGE as int) == language
    &&& num_or(d, F_VECTOR_ID as int, 0) as u32 != 0
}

/// The symbol and the vector of each candidate among the first `n`
/// documents, in the order of the store.
pub open spec fn candidates(
    docs: Seq<StoredDocView>,
    clusters: Seq<u32>,
    language: Option<Seq<char>>,
    n: int,
) -> Seq<(SymbolId, u32)>
    decreases n,
{
    if n <= 0 {
        Seq::empty()
    } else if is_candidate(docs[n - 1].doc, clusters, language) {
        candidates(docs, clusters, language, n - 1).push(
            (
                SymbolId(num_or(docs[n - 1].doc, F_SYMBOL_ID as int, 0) as u32),
                num_or(docs[n - 1].doc, F_VECTOR_ID as int, 0) as u32,
            ),
        )
    } else {
        candidates(docs, clusters, language, n - 1)
    }
}

/// The symbol of each pair with the number of its vector.
pub open spec fn candidate_views(v: Seq<(SymbolId, VectorId)>) -> Seq<(SymbolId, u32)> {
    Seq::new(v.len(), |i: int| (v[i].0, v[i].1.spec_get()))
}

fn among(clusters: &Vec<ClusterId>, number: u32) -> (r: bool)
    ensures
        r == cluster_numbers(clusters@).contains(number),
{
    let ghost numbers = cluster_numbers(clusters@);
    let mut i: usize = 0;
    while i < clusters.len()
        invariant
            i <= clusters.len(),
            numbers == cluster_numbers(clusters@),
            forall|j: int| 0 <= j < i ==> numbers[j] != number,
        decreases clusters.len() - i,
    {
        if clusters[i].get() == number {
            proof {
                assert(numbers[i as int] == number);
            }
            return true;
        }
        i = i + 1;
    }
    false
}

impl DocumentIndex {
    /// The symbols whose vectors are in one of the given clusters, each
    /// with its vector, in the order of the store; with a language given,
    /// those of that language only. Without vector support the search is
    /// disabled.
    pub fn semantic_candidates(&self, clusters: &Vec<ClusterId>, language: Option<&str>) -> (r:
        StorageResult<Vec<(SymbolId, VectorId)>>)
        ensures
            self@.engine is None ==> general_error(r, "Semantic search is disabled"@),
            self@.engine is Some ==> r is Ok && candidate_views(r->Ok_0@) == candidates(
                self@.committed,
                cluster_numbers(clusters@),
                opt_str_view(language),
                self@.committed.len() as int,
            ),
    {
        if !self.has_vector_support() {
            return Err(StorageError::General("Semantic search is disabled".to_owned()));
        }
        let s = IndexSchema::handles();
        let docs = self.stored();
        let ghost dv = stored_views(docs@);
        let ghost numbers = cluster_numbers(clusters@);
        let mut out: Vec<(SymbolId, VectorId)> = Vec::new();
        let mut i: usize = 0;
        while i < docs.len()
            invariant
                i <= docs.len(),
                s == IndexSchema::spec_handles(),
                dv == stored_views(docs@),
                numbers == cluster_numbers(clusters@),
                candidate_views(out@) == candidates(dv, numbers, opt_str_view(language), i as int),
            decreases docs.len() - i,
        {
            proof {
                assert(dv[i as int] == docs@[i as int]@);
            }
            let doc = &docs[i].doc;
            let vector = #[verifier::truncate]
            (match doc.get_u64(s.vector_id) {
                Some(n) => n,
                None => 0,
            } as u32);
            let cluster = #[verifier::truncate]
            (match doc.get_u64(s.cluster_id) {
                Some(n) => n,
                None => 0,
            } as u32);
            let wanted = doc.has_text(s.doc_type, "symbol") && doc.has_u64(s.has_vector, 1)
                && among(clusters, cluster) && (match language {
                Some(l) => doc.has_text(s.language, l),
                None => true,
            });
            if wanted {
                match VectorId::new(vector) {
                    Some(vector_id) => {
                        let symbol = SymbolId(
                            #[verifier::truncate]
                            (match doc.get_u64(s.symbol_id) {
                                Some(n) => n,
                                None => 0,
                            } as u32),
                        );
                        let ghost prev = candidate_views(out@);
                        out.push((symbol, vector_id));
                        proof {
                            assert(candidate_views(out@) =~= prev.push((symbol, vector)));
                        }
                    },
                    None => {},
                }
            }
            i = i + 1;
        }
        Ok(out)
    }
}

} // verus!
