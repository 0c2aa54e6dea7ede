//! What holds of the index in every state, and of what is read back after
//! what was written.

use vstd::prelude::*;
use crate::error::StorageResult;
use crate::relationship::RelationshipView;
use crate::storage::batch::{
    apply_op,
    file_id_of_path,
    file_removes,
    lemma_survivors,
    op_deletes,
    survivors,
    symbol_of_path,
    WriteOpView,
};
use crate::storage::cluster_cache::{docs_of, has_cluster};
use crate::storage::numbering::{lemma_cached_list_strict, strictly_ascending_ids};
use crate::storage::document::{
    is_file_info_doc,
    is_import_doc,
    is_relationship_doc,
    is_symbol_doc,
    num_at,
    text_at,
    DocView,
    MetadataKey,
};
use crate::storage::index::{
    claims_vector,
    cluster_present,
    consistent,
    counter_step,
    doc_cluster,
    started,
    stored_counter,
    valid_doc,
    without_batch,
    IndexView,
};
use crate::storage::matching::{fuzzy_prefix, within_one_edit};
use crate::storage::query::{all_hits, all_hold, lemma_hits, term_holds, StoredDocView, TermView};
use crate::storage::reads::{
    by_name_terms,
    edges_at,
    found,
    from_terms,
    imports_at,
    import_terms,
    lemma_found,
    symbols_at,
};
use crate::storage::schema::{
    F_FILE_ID,
    F_FROM_SYMBOL_ID,
    F_IMPORT_FILE_ID,
    F_NAME,
    F_NAME_TEXT,
    F_TO_SYMBOL_ID,
    F_VECTOR_ID,
    NGRAM_MIN,
};
use crate::storage::search::{
    fuzzy_name,
    gram_match,
    is_blank,
    is_search_hit,
    lemma_search_hits,
    parses,
    search_hits,
    term_end,
    term_matches,
    term_starts,
    text_matches,
};
use crate::storage::shapes::{
    doc_from,
    doc_import,
    import_doc,
    lemma_import_round_trip,
    lemma_relationship_round_trip,
    metadata_content,
    relationship_doc,
};
use crate::parsing::ImportView;
use crate::text::contains_seq;
use crate::types::{FileId, SymbolId};
use crate::vector::assigned;

verus! {

/// In every consistent state, a document that readers see and that says its
/// symbol has a vector names a vector that the engine holds, and a cluster
/// that is not zero.
pub proof fn lemma_claimed_vectors_exist(v: IndexView, i: int)
    requires
        consistent(v),
        0 <= i < v.committed.len(),
        claims_vector(v.committed[i].doc),
    ensures
        v.engine is Some,
        assigned(v.engine->0, num_at(v.committed[i].doc, F_VECTOR_ID as int)->0 as u32) is Some,
        doc_cluster(v.committed[i].doc) > 0,
        is_symbol_doc(v.committed[i].doc),
{
    let d = v.committed[i].doc;
    assert(valid_doc(d));
}

/// A relationship that is among the stored documents is read back by the
/// lookup of the relationships that start at its first end: some hit has the
/// same ends, kind and weight, and the same line, column and context.
pub proof fn lemma_relationship_is_read_back(
    docs: Seq<StoredDocView>,
    i: int,
    from: SymbolId,
    to: SymbolId,
    rel: RelationshipView,
)
    requires
        0 <= i < docs.len(),
        docs[i].doc == relationship_doc(from, to, rel),
    ensures
        exists|k: int|
            0 <= k < all_hits(docs, from_terms(from, rel.kind)).len() && {
                let e = #[trigger] edges_at(
                    docs,
                    all_hits(docs, from_terms(from, rel.kind)),
                    rel.kind,
                )[k];
                e.0 == from && e.1 == to && e.2.kind == rel.kind && e.2.weight_bits
                    == rel.weight_bits && metadata_content(e.2.metadata) == metadata_content(
                    rel.metadata,
                )
            },
{
    lemma_relationship_round_trip(from, to, rel);
    let terms = from_terms(from, rel.kind);
    let d = docs[i].doc;
    assert(all_hold(d, terms)) by {
        assert forall|j: int| 0 <= j < terms.len() implies term_holds(d, #[trigger] terms[j]) by {
            if j == 1 {
                assert(doc_from(d) == from);
            }
        }
    }
    lemma_hits(docs, terms, docs.len() as int);
    let h = all_hits(docs, terms);
    assert(h.contains(i));
    let k = choose|k: int| 0 <= k < h.len() && h[k] == i;
    let e = edges_at(docs, h, rel.kind)[k];
    assert(e.0 == doc_from(d));
}

/// A counter hands out strictly increasing numbers: of two calls that
/// follow each other and both succeed, the second returns the number after
/// the one that the first returned.
pub proof fn lemma_counter_increases(
    pending: Option<u64>,
    first: StorageResult<u32>,
    between: Option<u64>,
    second: StorageResult<u32>,
    after: Option<u64>,
    exhausted: Seq<char>,
)
    requires
        counter_step(pending, first, between, exhausted),
        counter_step(between, second, after, exhausted),
        first is Ok,
        second is Ok,
    ensures
        second->Ok_0 == first->Ok_0 + 1,
        second->Ok_0 > first->Ok_0,
{
}

/// A batch that is lost leaves no trace in the counters: the batch opened
/// next starts from the counters that are kept, as if the lost batch had
/// never been opened, and readers see the documents they saw before.
pub proof fn lemma_counters_resume_after_abort(v: IndexView)
    requires
        consistent(v),
        v.batch is Some,
    ensures
        started(without_batch(v)).pending_symbol == Some(
            (stored_counter(v.committed, MetadataKey::SymbolCounter.spec_as_str()) + 1) as u64,
        ),
        started(without_batch(v)).pending_file == Some(
            (stored_counter(v.committed, MetadataKey::FileCounter.spec_as_str()) + 1) as u64,
        ),
        started(without_batch(v)).committed == v.committed,
        started(without_batch(v)).batch == Some(Seq::<WriteOpView>::empty()),
{
}

/// The lookup by name finds only symbols of exactly that name: never one
/// whose name merely contains it.
pub proof fn lemma_exact_name_only(
    docs: Seq<StoredDocView>,
    name: Seq<char>,
    language: Option<Seq<char>>,
    limit: int,
    k: int,
)
    requires
        forall|i: int| 0 <= i < docs.len() ==> valid_doc((#[trigger] docs[i]).doc),
        0 <= k < found(docs, by_name_terms(name, language), limit).len(),
    ensures
        symbols_at(docs, found(docs, by_name_terms(name, language), limit))[k].name == name,
        language is Some ==> symbols_at(
            docs,
            found(docs, by_name_terms(name, language), limit),
        )[k].language_id == (if language->0.len() > 0 {
            language
        } else {
            None
        }),
{
    let terms = by_name_terms(name, language);
    lemma_found(docs, terms, limit);
    let at = found(docs, terms, limit);
    let d = docs[at[k]].doc;
    assert(all_hold(d, terms));
    assert(term_holds(d, terms[0]));
    assert(term_holds(d, terms[1]));
    assert(valid_doc(d));
    if language is Some {
        assert(term_holds(d, terms[2]));
    }
}

proof fn lemma_term_end_without_blanks(q: Seq<char>, i: int)
    requires
        0 <= i <= q.len(),
        forall|j: int| 0 <= j < q.len() ==> !is_blank(#[trigger] q[j]),
    ensures
        term_end(q, i) == q.len(),
    decreases q.len() - i,
{
    if i < q.len() {
        lemma_term_end_without_blanks(q, i + 1);
    }
}

/// A query of three characters or more, without blanks and special
/// characters, matches every document whose name contains it.
pub proof fn lemma_partial_name_matches(d: DocView, q: Seq<char>)
    requires
        q.len() >= NGRAM_MIN,
        parses(q),
        forall|j: int| 0 <= j < q.len() ==> !is_blank(#[trigger] q[j]),
        text_at(d, F_NAME_TEXT as int) is Some,
        contains_seq(text_at(d, F_NAME_TEXT as int)->0, q),
    ensures
        text_matches(d, q),
{
    lemma_term_end_without_blanks(q, 0);
    assert(term_starts(q, 0));
    assert(q.subrange(0, term_end(q, 0)) =~= q);
    assert(gram_match(text_at(d, F_NAME_TEXT as int), q));
    assert(term_matches(d, q.subrange(0, term_end(q, 0))));
}

/// A query that is one edit away from the whole name of a document matches
/// the document.
pub proof fn lemma_near_name_matches(d: DocView, q: Seq<char>)
    requires
        text_at(d, F_NAME as int) is Some,
        within_one_edit(q, text_at(d, F_NAME as int)->0),
    ensures
        text_matches(d, q),
{
    let name = text_at(d, F_NAME as int)->0;
    assert(name.take(name.len() as int) =~= name);
    assert(fuzzy_prefix(q, name));
    assert(fuzzy_name(d, q));
}

/// A document that passes the filters and matches the text is among the
/// hits of the search.
pub proof fn lemma_match_is_hit(
    docs: Seq<StoredDocView>,
    q: Seq<char>,
    filters: Seq<TermView>,
    i: int,
)
    requires
        0 <= i < docs.len(),
        is_search_hit(docs[i].doc, q, filters),
    ensures
        search_hits(docs, q, filters, docs.len() as int).contains(i),
{
    lemma_search_hits(docs, q, filters, docs.len() as int);
}

/// In every consistent state with a cluster cache, the cache knows exactly
/// the clusters, none of them zero, that the documents name which readers
/// see.
pub proof fn lemma_cache_knows_clusters(v: IndexView, c: u32)
    requires
        consistent(v),
        v.cache is Some,
    ensures
        has_cluster(v.cache->0, c) == (c != 0 && exists|i: int|
            0 <= i < v.committed.len() && doc_cluster((#[trigger] v.committed[i]).doc) == c),
        v.cache->0.generation == v.generation,
{
    let docs = v.committed;
    assert(has_cluster(v.cache->0, c) == cluster_present(docs, c, docs.len() as int));
    if cluster_present(docs, c, docs.len() as int) {
        let i = choose|i: int|
            0 <= i < docs.len() && claims_vector((#[trigger] docs[i]).doc) && doc_cluster(
                docs[i].doc,
            ) == c && c != 0;
        assert(0 <= i < docs.len() && doc_cluster(docs[i].doc) == c);
    }
    if c != 0 && exists|i: int|
        0 <= i < docs.len() && doc_cluster((#[trigger] docs[i]).doc) == c {
        let i = choose|i: int| 0 <= i < docs.len() && doc_cluster((#[trigger] docs[i]).doc) == c;
        assert(valid_doc(docs[i].doc));
        assert(claims_vector(docs[i].doc));
    }
}

/// In every consistent state with a cluster cache, each list of the cache
/// is in strictly ascending order: it names no document twice.
pub proof fn lemma_cached_lists_name_no_document_twice(v: IndexView, segment: u32, cluster: u32)
    requires
        consistent(v),
        v.cache is Some,
        docs_of(v.cache->0, segment, cluster) is Some,
    ensures
        strictly_ascending_ids(docs_of(v.cache->0, segment, cluster)->0),
{
    lemma_cached_list_strict(
        v.committed,
        segment,
        cluster,
        docs_of(v.cache->0, segment, cluster)->0,
    );
}

/// Once a file is removed, nothing that is left refers to it: no symbol or
/// file record is stored under its path or its identifier, no import belongs
/// to its identifier, and no relationship starts or ends at one of its
/// symbols.
pub proof fn lemma_file_removal_cascades(docs: Seq<StoredDocView>, path: Seq<char>, k: int)
    requires
        0 <= k < survivors(docs, WriteOpView::RemoveFile(path), docs.len() as int).len(),
    ensures
        ({
            let d = survivors(docs, WriteOpView::RemoveFile(path), docs.len() as int)[k].doc;
            &&& text_at(d, crate::storage::schema::F_FILE_PATH as int) != Some(path)
            &&& forall|file: u64|
                file_id_of_path(docs, path, file) ==> {
                    &&& (is_symbol_doc(d) || is_file_info_doc(d)) ==> num_at(d, F_FILE_ID as int)
                        != Some(file)
                    &&& is_import_doc(d) ==> num_at(d, F_IMPORT_FILE_ID as int) != Some(file)
                }
            &&& forall|symbol: u64|
                symbol_of_path(docs, path, symbol) && is_relationship_doc(d) ==> num_at(
                    d,
                    F_FROM_SYMBOL_ID as int,
                ) != Some(symbol) && num_at(d, F_TO_SYMBOL_ID as int) != Some(symbol)
        }),
{
    let op = WriteOpView::RemoveFile(path);
    lemma_survivors(docs, op, docs.len() as int);
    let d = survivors(docs, op, docs.len() as int)[k].doc;
    assert(!op_deletes(docs, op, d));
    assert(!file_removes(docs, path, d));
}

/// An import that is among the stored documents is read back by the lookup
/// of the imports of its file, unchanged: path, alias and both flags.
pub proof fn lemma_import_is_read_back(docs: Seq<StoredDocView>, i: int, import: ImportView)
    requires
        0 <= i < docs.len(),
        docs[i].doc == import_doc(import),
    ensures
        exists|k: int|
            0 <= k < all_hits(docs, import_terms(import.file_id)).len() && #[trigger] imports_at(
                docs,
                all_hits(docs, import_terms(import.file_id)),
                import.file_id,
            )[k] == import,
{
    lemma_import_round_trip(import);
    let terms = import_terms(import.file_id);
    let d = docs[i].doc;
    assert(all_hold(d, terms)) by {
        assert forall|j: int| 0 <= j < terms.len() implies term_holds(d, #[trigger] terms[j]) by {
        }
    }
    lemma_hits(docs, terms, docs.len() as int);
    let h = all_hits(docs, terms);
    assert(h.contains(i));
    let k = choose|k: int| 0 <= k < h.len() && h[k] == i;
    assert(imports_at(docs, h, import.file_id)[k] == doc_import(d, import.file_id));
}

/// The lookups read the content of the documents alone: two stores that
/// hold documents of the same content in the same order give the same hits.
pub proof fn lemma_hits_by_content(
    a: Seq<StoredDocView>,
    b: Seq<StoredDocView>,
    terms: Seq<TermView>,
    n: int,
)
    requires
        a.len() == b.len(),
        0 <= n <= a.len(),
        forall|i: int| 0 <= i < a.len() ==> (#[trigger] a[i]).doc == b[i].doc,
    ensures
        crate::storage::query::hits(a, terms, n) == crate::storage::query::hits(b, terms, n),
    decreases n,
{
    if n > 0 {
        lemma_hits_by_content(a, b, terms, n - 1);
        assert(a[n - 1].doc == b[n - 1].doc);
    }
}

/// An index that is opened again from the documents that were kept of it
/// returns, for every file, the imports that it returned before it was
/// closed: the same paths, aliases and flags, in the same order.
pub proof fn lemma_imports_survive_reopening(
    before: Seq<StoredDocView>,
    file_id: FileId,
    limit: int,
)
    ensures
        imports_at(
            crate::storage::index::reopened(crate::storage::index::contents(before)),
            found(
                crate::storage::index::reopened(crate::storage::index::contents(before)),
                import_terms(file_id),
                limit,
            ),
            file_id,
        ) == imports_at(before, found(before, import_terms(file_id), limit), file_id),
{
    let after = crate::storage::index::reopened(crate::storage::index::contents(before));
    let terms = import_terms(file_id);
    assert(after.len() == before.len());
    lemma_hits_by_content(after, before, terms, before.len() as int);
    lemma_found(before, terms, limit);
    let at = found(before, terms, limit);
    assert(found(after, terms, limit) == at);
    assert(imports_at(after, at, file_id) =~= imports_at(before, at, file_id));
}

/// A document that is stored and holds no metadata key is still stored
/// after a counter is made durable.
pub proof fn lemma_persist_keeps(
    docs: Seq<StoredDocView>,
    key: Seq<char>,
    pending: Option<u64>,
    segment: u32,
    doc_id: u64,
    x: StoredDocView,
)
    requires
        docs.contains(x),
        text_at(x.doc, crate::storage::schema::F_META_KEY as int) is None,
    ensures
        crate::storage::index::persist_counter(docs, key, pending, segment, doc_id).contains(x),
{
    let after = crate::storage::index::persist_counter(docs, key, pending, segment, doc_id);
    if after != docs {
        let op = WriteOpView::DeleteMetadata(key);
        let i = choose|i: int| 0 <= i < docs.len() && docs[i] == x;
        lemma_survivors(docs, op, docs.len() as int);
        let kept = survivors(docs, op, docs.len() as int);
        assert(!op_deletes(docs, op, docs[i].doc));
        assert(kept.contains(docs[i]));
        let k = choose|k: int| 0 <= k < kept.len() && kept[k] == x;
        assert(after[k] == x);
    }
}

/// What a batch adds last is among the documents that readers see once the
/// batch is committed: a symbol, relationship, file record or import that
/// was stored is there to be read.
pub proof fn lemma_last_add_is_committed(v: IndexView, d: DocView)
    requires
        v.batch is Some,
        v.batch->0.len() > 0,
        v.batch->0.last() == WriteOpView::Add(d),
        text_at(d, crate::storage::schema::F_META_KEY as int) is None,
    ensures
        exists|i: int|
            0 <= i < crate::storage::index::committed_after(v).len()
                && (#[trigger] crate::storage::index::committed_after(v)[i]).doc == d,
{
    let ops = v.batch->0;
    let n = ops.len() as int;
    let base = crate::storage::batch::apply_ops(v.committed, ops, v.generation, 0, n);
    let x = base.last();
    assert(x.doc == d);
    assert(base[base.len() - 1] == x);
    assert(base.contains(x));
    let id = crate::storage::batch::adds_in(ops, n) as u64;
    let with_symbols = crate::storage::index::persist_counter(
        base,
        MetadataKey::SymbolCounter.spec_as_str(),
        v.pending_symbol,
        v.generation,
        id,
    );
    lemma_persist_keeps(
        base,
        MetadataKey::SymbolCounter.spec_as_str(),
        v.pending_symbol,
        v.generation,
        id,
        x,
    );
    lemma_persist_keeps(
        with_symbols,
        MetadataKey::FileCounter.spec_as_str(),
        v.pending_file,
        v.generation,
        crate::storage::index::next_doc_id(id),
        x,
    );
    let last = crate::storage::index::committed_after(v);
    let i = choose|i: int| 0 <= i < last.len() && last[i] == x;
    assert(last[i].doc == d);
}

/// The content of those of the first `n` documents that match every term,
/// in order.
pub open spec fn matching(docs: Seq<StoredDocView>, terms: Seq<TermView>, n: int) -> Seq<DocView>
    decreases n,
{
    if n <= 0 {
        Seq::empty()
    } else if all_hold(docs[n - 1].doc, terms) {
        matching(docs, terms, n - 1).push(docs[n - 1].doc)
    } else {
        matching(docs, terms, n - 1)
    }
}

proof fn lemma_matching_hits(docs: Seq<StoredDocView>, terms: Seq<TermView>, n: int)
    requires
        0 <= n <= docs.len(),
    ensures
        matching(docs, terms, n).len() == crate::storage::query::hits(docs, terms, n).len(),
        forall|k: int|
            0 <= k < matching(docs, terms, n).len() ==> #[trigger] matching(docs, terms, n)[k]
                == docs[crate::storage::query::hits(docs, terms, n)[k]].doc,
    decreases n,
{
    if n > 0 {
        lemma_matching_hits(docs, terms, n - 1);
    }
}

proof fn lemma_matching_prefix(a: Seq<StoredDocView>, b: Seq<StoredDocView>, terms: Seq<TermView>, n: int)
    requires
        0 <= n <= a.len(),
        n <= b.len(),
        forall|i: int| 0 <= i < n ==> a[i] == b[i],
    ensures
        matching(a, terms, n) == matching(b, terms, n),
    decreases n,
{
    if n > 0 {
        lemma_matching_prefix(a, b, terms, n - 1);
    }
}

/// An operation that deletes no document matching the terms leaves the
/// matching documents as they are, in their order.
proof fn lemma_matching_survives(
    docs: Seq<StoredDocView>,
    op: WriteOpView,
    terms: Seq<TermView>,
    n: int,
)
    requires
        0 <= n <= docs.len(),
        forall|i: int|
            0 <= i < docs.len() && op_deletes(docs, op, (#[trigger] docs[i]).doc) ==> !all_hold(
                docs[i].doc,
                terms,
            ),
    ensures
        matching(
            survivors(docs, op, n),
            terms,
            survivors(docs, op, n).len() as int,
        ) == matching(docs, terms, n),
    decreases n,
{
    if n > 0 {
        lemma_matching_survives(docs, op, terms, n - 1);
        let h = survivors(docs, op, n - 1);
        let g = survivors(docs, op, n);
        if !op_deletes(docs, op, docs[n - 1].doc) {
            assert(g == h.push(docs[n - 1]));
            lemma_matching_prefix(g, h, terms, h.len() as int);
        }
    }
}

/// An operation that deletes every document matching the terms leaves no
/// matching document.
proof fn lemma_matching_deleted(
    docs: Seq<StoredDocView>,
    op: WriteOpView,
    terms: Seq<TermView>,
    n: int,
)
    requires
        0 <= n <= docs.len(),
        forall|i: int|
            0 <= i < docs.len() && all_hold((#[trigger] docs[i]).doc, terms) ==> op_deletes(
                docs,
                op,
                docs[i].doc,
            ),
    ensures
        matching(survivors(docs, op, n), terms, survivors(docs, op, n).len() as int).len() == 0,
    decreases n,
{
    if n > 0 {
        lemma_matching_deleted(docs, op, terms, n - 1);
        let h = survivors(docs, op, n - 1);
        let g = survivors(docs, op, n);
        if !op_deletes(docs, op, docs[n - 1].doc) {
            assert(g == h.push(docs[n - 1]));
            lemma_matching_prefix(g, h, terms, h.len() as int);
        }
    }
}

/// The value kept under a key is the value of the first matching document.
proof fn lemma_metadata_by_matching(docs: Seq<StoredDocView>, key: Seq<char>)
    ensures
        crate::storage::index::metadata_value(docs, key) == (if matching(
            docs,
            crate::storage::index::metadata_terms(key),
            docs.len() as int,
        ).len() > 0 {
            num_at(
                matching(docs, crate::storage::index::metadata_terms(key), docs.len() as int)[0],
                crate::storage::schema::F_META_VALUE as int,
            )
        } else {
            None
        }),
{
    lemma_matching_hits(docs, crate::storage::index::metadata_terms(key), docs.len() as int);
}

/// Making a counter durable changes the counter that is kept under its key
/// to the last number handed out, and no counter under another key.
pub proof fn lemma_counter_is_kept(
    docs: Seq<StoredDocView>,
    key: Seq<char>,
    other: Seq<char>,
    pending: Option<u64>,
    segment: u32,
    doc_id: u64,
)
    requires
        other != key,
        pending is Some ==> 1 <= pending->0 <= 0x1_0000_0000,
    ensures
        stored_counter(
            crate::storage::index::persist_counter(docs, key, pending, segment, doc_id),
            key,
        ) == (if pending is Some && pending->0 - 1 > stored_counter(docs, key) {
            (pending->0 - 1) as u32
        } else {
            stored_counter(docs, key)
        }),
        stored_counter(
            crate::storage::index::persist_counter(docs, key, pending, segment, doc_id),
            other,
        ) == stored_counter(docs, other),
{
    let after = crate::storage::index::persist_counter(docs, key, pending, segment, doc_id);
    if pending is Some && pending->0 - 1 > stored_counter(docs, key) {
        let op = WriteOpView::DeleteMetadata(key);
        let kept = survivors(docs, op, docs.len() as int);
        let value = (pending->0 - 1) as u64;
        let added = crate::storage::shapes::metadata_doc(key, value);
        let x = StoredDocView { segment, doc_id, doc: added };
        assert(after == kept.push(x));
        assert(added.len() == crate::storage::schema::NUM_FIELDS);
        let terms = crate::storage::index::metadata_terms(key);
        let others = crate::storage::index::metadata_terms(other);
        // Under the key itself: what was kept is deleted, what is added is found.
        assert forall|i: int| 0 <= i < docs.len() && all_hold(
            (#[trigger] docs[i]).doc,
            terms,
        ) implies op_deletes(docs, op, docs[i].doc) by {
            assert(term_holds(docs[i].doc, terms[1]));
        }
        lemma_matching_deleted(docs, op, terms, docs.len() as int);
        lemma_matching_prefix(after, kept, terms, kept.len() as int);
        assert(all_hold(added, terms)) by {
            assert forall|j: int| 0 <= j < terms.len() implies term_holds(
                added,
                #[trigger] terms[j],
            ) by {}
        }
        assert(matching(after, terms, after.len() as int) == matching(
            after,
            terms,
            after.len() - 1,
        ).push(added));
        lemma_metadata_by_matching(after, key);
        assert(matching(after, terms, after.len() as int)[0] == added);
        // Under another key: nothing that matches is deleted or added.
        assert forall|i: int| 0 <= i < docs.len() && op_deletes(
            docs,
            op,
            (#[trigger] docs[i]).doc,
        ) implies !all_hold(docs[i].doc, others) by {
            if all_hold(docs[i].doc, others) {
                assert(term_holds(docs[i].doc, others[1]));
            }
        }
        lemma_matching_survives(docs, op, others, docs.len() as int);
        lemma_matching_prefix(after, kept, others, kept.len() as int);
        assert(!all_hold(added, others)) by {
            if all_hold(added, others) {
                assert(term_holds(added, others[1]));
            }
        }
        lemma_metadata_by_matching(after, other);
        lemma_metadata_by_matching(docs, other);
    }
}

/// After a commit the symbol counter that is kept is the last number that
/// the batch handed out, where the batch handed out numbers beyond the
/// counter; so the batch opened next hands out the number after it, without
/// a gap.
pub proof fn lemma_commit_keeps_symbol_counter(v: IndexView)
    requires
        consistent(v),
        v.batch is Some,
    ensures
        ({
            let ops = v.batch->0;
            let base = crate::storage::batch::apply_ops(
                v.committed,
                ops,
                v.generation,
                0,
                ops.len() as int,
            );
            let key = MetadataKey::SymbolCounter.spec_as_str();
            stored_counter(crate::storage::index::committed_after(v), key) == (if v.pending_symbol->0
                - 1 > stored_counter(base, key) {
                (v.pending_symbol->0 - 1) as u32
            } else {
                stored_counter(base, key)
            })
        }),
{
    crate::storage::document::lemma_metadata_keys_differ();
    let ops = v.batch->0;
    let n = ops.len() as int;
    let base = crate::storage::batch::apply_ops(v.committed, ops, v.generation, 0, n);
    let id = crate::storage::batch::adds_in(ops, n) as u64;
    let sk = MetadataKey::SymbolCounter.spec_as_str();
    let fk = MetadataKey::FileCounter.spec_as_str();
    lemma_counter_is_kept(base, sk, fk, v.pending_symbol, v.generation, id);
    let with_symbols = crate::storage::index::persist_counter(
        base,
        sk,
        v.pending_symbol,
        v.generation,
        id,
    );
    lemma_counter_is_kept(
        with_symbols,
        fk,
        sk,
        v.pending_file,
        v.generation,
        crate::storage::index::next_doc_id(id),
    );
}

} // verus!
