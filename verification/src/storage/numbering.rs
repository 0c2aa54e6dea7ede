//! How the stored documents are numbered: within a segment, no two
//! documents with a vector share a number.

use vstd::prelude::*;
use crate::storage::batch::{adds_in, apply_op, apply_ops, survivors, WriteOpView};
use crate::storage::cluster_cache::ascending;
use crate::storage::index::{
    cached_doc,
    claims_vector,
    cluster_docs,
    docs_after,
    next_doc_id,
    persist_counter,
    reopened,
};
use crate::storage::document::{DocView, MetadataKey};
use crate::storage::query::StoredDocView;
use crate::storage::schema::{F_DOC_TYPE, F_HAS_VECTOR, F_META_KEY, F_META_VALUE};
use crate::storage::shapes::metadata_doc;
use crate::vector::DocId;

verus! {

/// Within a segment, no two documents that claim a vector share a number.
pub open spec fn numbered_apart(docs: Seq<StoredDocView>) -> bool {
    forall|i: int, j: int|
        0 <= i < j < docs.len() && claims_vector((#[trigger] docs[i]).doc) && claims_vector(
            (#[trigger] docs[j]).doc,
        ) && docs[i].segment == docs[j].segment ==> docs[i].doc_id != docs[j].doc_id
}

/// Every document stands in a segment below `generation`.
pub open spec fn segments_below(docs: Seq<StoredDocView>, generation: int) -> bool {
    forall|i: int| 0 <= i < docs.len() ==> (#[trigger] docs[i]).segment < generation
}

/// The numbers are strictly ascending.
pub open spec fn strictly_ascending_ids(s: Seq<DocId>) -> bool {
    forall|i: int, j: int| 0 <= i < j < s.len() ==> s[i] < s[j]
}

/// The documents stand in segments up to `segment`, those of that segment
/// under numbers below `bound`.
spec fn filled_to(docs: Seq<StoredDocView>, segment: u32, bound: int) -> bool {
    forall|i: int|
        0 <= i < docs.len() ==> (#[trigger] docs[i]).segment < segment || (docs[i].segment
            == segment && docs[i].doc_id < bound)
}

/// Each of the documents is one of the first `n` of `docs`.
spec fn taken_from(part: Seq<StoredDocView>, docs: Seq<StoredDocView>, n: int) -> bool {
    forall|k: int|
        0 <= k < part.len() ==> exists|m: int| 0 <= m < n && docs[m] == #[trigger] part[k]
}

proof fn lemma_survivors_apart(docs: Seq<StoredDocView>, op: WriteOpView, n: int)
    requires
        0 <= n <= docs.len(),
        numbered_apart(docs),
    ensures
        numbered_apart(survivors(docs, op, n)),
        taken_from(survivors(docs, op, n), docs, n),
    decreases n,
{
    if n > 0 {
        lemma_survivors_apart(docs, op, n - 1);
        let h = survivors(docs, op, n - 1);
        let g = survivors(docs, op, n);
        assert forall|k: int| 0 <= k < g.len() implies exists|m: int|
            0 <= m < n && docs[m] == #[trigger] g[k] by {
            if k < h.len() {
                assert(g[k] == h[k]);
                let m = choose|m: int| 0 <= m < n - 1 && docs[m] == h[k];
                assert(0 <= m < n && docs[m] == g[k]);
            } else {
                assert(docs[n - 1] == g[k]);
            }
        }
        assert forall|i: int, j: int|
            0 <= i < j < g.len() && claims_vector((#[trigger] g[i]).doc) && claims_vector(
                (#[trigger] g[j]).doc,
            ) && g[i].segment == g[j].segment implies g[i].doc_id != g[j].doc_id by {
            if j < h.len() {
                assert(g[i] == h[i] && g[j] == h[j]);
            } else {
                assert(g[j] == docs[n - 1]);
                assert(g[i] == h[i]);
                let m = choose|m: int| 0 <= m < n - 1 && docs[m] == h[i];
                assert(docs[m] == g[i]);
            }
        }
    }
}

proof fn lemma_survivors_filled(
    docs: Seq<StoredDocView>,
    op: WriteOpView,
    n: int,
    segment: u32,
    bound: int,
)
    requires
        0 <= n <= docs.len(),
        numbered_apart(docs),
        filled_to(docs, segment, bound),
    ensures
        numbered_apart(survivors(docs, op, n)),
        filled_to(survivors(docs, op, n), segment, bound),
{
    lemma_survivors_apart(docs, op, n);
    let g = survivors(docs, op, n);
    assert forall|i: int| 0 <= i < g.len() implies (#[trigger] g[i]).segment < segment || (
    g[i].segment == segment && g[i].doc_id < bound) by {
        let m = choose|m: int| 0 <= m < n && docs[m] == g[i];
        assert(docs[m] == g[i]);
    }
}

proof fn lemma_op_apart(
    docs: Seq<StoredDocView>,
    op: WriteOpView,
    segment: u32,
    doc_id: DocId,
)
    requires
        numbered_apart(docs),
        filled_to(docs, segment, doc_id as int),
    ensures
        numbered_apart(apply_op(docs, op, segment, doc_id)),
        op is Add ==> filled_to(apply_op(docs, op, segment, doc_id), segment, doc_id + 1),
        !(op is Add) ==> filled_to(apply_op(docs, op, segment, doc_id), segment, doc_id as int),
{
    let r = apply_op(docs, op, segment, doc_id);
    match op {
        WriteOpView::Add(d) => {
            assert forall|i: int| 0 <= i < r.len() implies (#[trigger] r[i]).segment < segment || (
            r[i].segment == segment && r[i].doc_id < doc_id + 1) by {
                if i < docs.len() {
                    assert(r[i] == docs[i]);
                }
            }
            assert forall|i: int, j: int|
                0 <= i < j < r.len() && claims_vector((#[trigger] r[i]).doc) && claims_vector(
                    (#[trigger] r[j]).doc,
                ) && r[i].segment == r[j].segment implies r[i].doc_id != r[j].doc_id by {
                assert(r[i] == docs[i]);
                if j < docs.len() {
                    assert(r[j] == docs[j]);
                }
            }
        },
        _ => {
            lemma_survivors_filled(docs, op, docs.len() as int, segment, doc_id as int);
        },
    }
}

proof fn lemma_ops_apart(
    docs: Seq<StoredDocView>,
    ops: Seq<WriteOpView>,
    segment: u32,
    n: int,
)
    requires
        0 <= n <= ops.len() <= u64::MAX,
        numbered_apart(docs),
        segments_below(docs, segment as int),
    ensures
        numbered_apart(apply_ops(docs, ops, segment, 0, n)),
        filled_to(apply_ops(docs, ops, segment, 0, n), segment, adds_in(ops, n) as int),
        adds_in(ops, n) <= n,
    decreases n,
{
    if n > 0 {
        lemma_ops_apart(docs, ops, segment, n - 1);
        let before = apply_ops(docs, ops, segment, 0, n - 1);
        let id = (0 + adds_in(ops, n - 1)) as DocId;
        lemma_op_apart(before, ops[n - 1], segment, id);
    } else {
        assert forall|i: int| 0 <= i < docs.len() implies (#[trigger] docs[i]).segment < segment
            || (docs[i].segment == segment && docs[i].doc_id < 0) by {}
    }
}

proof fn lemma_persist_apart(
    docs: Seq<StoredDocView>,
    key: Seq<char>,
    pending: Option<u64>,
    segment: u32,
    doc_id: DocId,
)
    requires
        numbered_apart(docs),
        segments_below(docs, segment + 1),
    ensures
        numbered_apart(persist_counter(docs, key, pending, segment, doc_id)),
        segments_below(persist_counter(docs, key, pending, segment, doc_id), segment + 1),
{
    let r = persist_counter(docs, key, pending, segment, doc_id);
    if r != docs {
        let next = pending->0;
        let kept = apply_op(docs, WriteOpView::DeleteMetadata(key), segment, doc_id);
        lemma_survivors_apart(docs, WriteOpView::DeleteMetadata(key), docs.len() as int);
        let added = metadata_doc(key, (next - 1) as u64);
        assert(!claims_vector(added));
        assert(r == kept.push(StoredDocView { segment, doc_id, doc: added }));
        assert forall|i: int| 0 <= i < r.len() implies (#[trigger] r[i]).segment < segment + 1 by {
            if i < kept.len() {
                assert(r[i] == kept[i]);
                let m = choose|m: int| 0 <= m < docs.len() && docs[m] == kept[i];
                assert(docs[m] == r[i]);
            }
        }
        assert forall|i: int, j: int|
            0 <= i < j < r.len() && claims_vector((#[trigger] r[i]).doc) && claims_vector(
                (#[trigger] r[j]).doc,
            ) && r[i].segment == r[j].segment implies r[i].doc_id != r[j].doc_id by {
            if j < kept.len() {
                assert(r[i] == kept[i] && r[j] == kept[j]);
            }
        }
    }
}

/// A commit keeps the documents with a vector numbered apart: the
/// documents that it adds stand in a segment of their own, one number after
/// the other.
pub proof fn lemma_commit_numbers_apart(
    committed: Seq<StoredDocView>,
    ops: Seq<WriteOpView>,
    generation: u32,
    pending_symbol: Option<u64>,
    pending_file: Option<u64>,
)
    requires
        ops.len() <= u64::MAX,
        numbered_apart(committed),
        segments_below(committed, generation as int),
    ensures
        numbered_apart(docs_after(committed, ops, generation, pending_symbol, pending_file)),
        segments_below(
            docs_after(committed, ops, generation, pending_symbol, pending_file),
            generation + 1,
        ),
{
    let n = ops.len() as int;
    lemma_ops_apart(committed, ops, generation, n);
    let base = apply_ops(committed, ops, generation, 0, n);
    assert forall|i: int| 0 <= i < base.len() implies (#[trigger] base[i]).segment < generation
        + 1 by {}
    let id = adds_in(ops, n) as DocId;
    let key = MetadataKey::SymbolCounter.spec_as_str();
    lemma_persist_apart(base, key, pending_symbol, generation, id);
    lemma_persist_apart(
        persist_counter(base, key, pending_symbol, generation, id),
        MetadataKey::FileCounter.spec_as_str(),
        pending_file,
        generation,
        next_doc_id(id),
    );
}

/// The documents of a reopened index are numbered apart, in the first
/// segment.
pub proof fn lemma_reopened_numbers_apart(docs: Seq<DocView>)
    requires
        docs.len() <= u64::MAX,
    ensures
        numbered_apart(reopened(docs)),
        segments_below(reopened(docs), 1),
{
}

/// One of the first `n` documents belongs into the list for the segment
/// and cluster and has the number.
spec fn listed(docs: Seq<StoredDocView>, segment: u32, cluster: u32, n: int, id: DocId) -> bool {
    exists|m: int| 0 <= m < n && cached_doc(#[trigger] docs[m], segment, cluster) && docs[m].doc_id == id
}

proof fn lemma_cluster_docs_apart(docs: Seq<StoredDocView>, segment: u32, cluster: u32, n: int)
    requires
        0 <= n <= docs.len(),
        numbered_apart(docs),
    ensures
        cluster_docs(docs, segment, cluster, n).no_duplicates(),
        forall|k: int|
            0 <= k < cluster_docs(docs, segment, cluster, n).len() ==> listed(
                docs,
                segment,
                cluster,
                n,
                #[trigger] cluster_docs(docs, segment, cluster, n)[k],
            ),
    decreases n,
{
    if n > 0 {
        lemma_cluster_docs_apart(docs, segment, cluster, n - 1);
        let h = cluster_docs(docs, segment, cluster, n - 1);
        let g = cluster_docs(docs, segment, cluster, n);
        assert forall|k: int| 0 <= k < g.len() implies listed(
            docs,
            segment,
            cluster,
            n,
            #[trigger] g[k],
        ) by {
            if k < h.len() {
                assert(g[k] == h[k]);
                assert(listed(docs, segment, cluster, n - 1, h[k]));
                let m = choose|m: int|
                    0 <= m < n - 1 && cached_doc(#[trigger] docs[m], segment, cluster)
                        && docs[m].doc_id == h[k];
                assert(0 <= m < n && cached_doc(docs[m], segment, cluster) && docs[m].doc_id
                    == g[k]);
            } else {
                assert(cached_doc(docs[n - 1], segment, cluster));
                assert(docs[n - 1].doc_id == g[k]);
            }
        }
        assert forall|i: int, j: int| 0 <= i < g.len() && 0 <= j < g.len() && i != j implies g[i]
            != g[j] by {
            if i < h.len() && j < h.len() {
                assert(g[i] == h[i] && g[j] == h[j]);
            } else {
                let first = if i < j {
                    i
                } else {
                    j
                };
                assert(g[first] == h[first]);
                assert(listed(docs, segment, cluster, n - 1, h[first]));
                let m = choose|m: int|
                    0 <= m < n - 1 && cached_doc(#[trigger] docs[m], segment, cluster)
                        && docs[m].doc_id == h[first];
                assert(docs[m].segment == docs[n - 1].segment);
            }
        }
    }
}

/// A list in ascending order that holds the numbers of the documents of
/// one segment and cluster, each as often as there are such documents, is
/// in strictly ascending order where documents with a vector are numbered
/// apart.
pub proof fn lemma_cached_list_strict(
    docs: Seq<StoredDocView>,
    segment: u32,
    cluster: u32,
    list: Seq<DocId>,
)
    requires
        numbered_apart(docs),
        ascending(list),
        list.to_multiset() == cluster_docs(docs, segment, cluster, docs.len() as int).to_multiset(),
    ensures
        strictly_ascending_ids(list),
{
    let all = cluster_docs(docs, segment, cluster, docs.len() as int);
    lemma_cluster_docs_apart(docs, segment, cluster, docs.len() as int);
    all.lemma_multiset_has_no_duplicates();
    list.lemma_multiset_has_no_duplicates_conv();
    assert forall|i: int, j: int| 0 <= i < j < list.len() implies list[i] < list[j] by {
        assert(list[i] <= list[j]);
        assert(list[i] != list[j]);
    }
}

} // verus!
