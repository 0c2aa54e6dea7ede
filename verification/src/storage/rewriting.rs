//! What writing the cluster assignments into the documents does to the
//! document of an assigned symbol.

use vstd::prelude::*;
use crate::storage::batch::{
    adds_in,
    apply_op,
    apply_ops,
    is_among,
    lemma_survivors,
    survivors,
    WriteOpView,
};
use crate::storage::document::{num_at, text_at, DocView, MetadataKey};
use crate::storage::index::{
    assignment_ops,
    commit_result,
    consistent,
    docs_after,
    next_doc_id,
    persist_counter,
    started,
    valid_doc,
    with_cluster,
    IndexView,
};
use crate::storage::query::{all_hold, term_holds, StoredDocView};
use crate::storage::reads::{by_id_terms, found, lemma_found};
use crate::storage::schema::{
    F_CLUSTER_ID,
    F_HAS_VECTOR,
    F_META_KEY,
    F_SYMBOL_ID,
    F_VECTOR_ID,
    NUM_FIELDS,
};
use crate::storage::shapes::metadata_doc;
use crate::types::SymbolId;

verus! {

/// The only document of the symbol is the given one: it names the symbol,
/// some stored document holds it, and every stored document of the symbol
/// holds it.
pub open spec fn only_document_of(docs: Seq<StoredDocView>, symbol: u32, d: DocView) -> bool {
    &&& num_at(d, F_SYMBOL_ID as int) == Some(symbol as u64)
    &&& exists|i: int| 0 <= i < docs.len() && (#[trigger] docs[i]).doc == d
    &&& forall|i: int|
        0 <= i < docs.len() && num_at((#[trigger] docs[i]).doc, F_SYMBOL_ID as int) == Some(
            symbol as u64,
        ) ==> docs[i].doc == d
}

/// The document that readers see of a symbol: the first one with its
/// number.
pub open spec fn first_document_of(docs: Seq<StoredDocView>, symbol: u32) -> DocView {
    docs[found(docs, by_id_terms(SymbolId(symbol), None), 1)[0]].doc
}

/// Readers see a document of the symbol.
pub open spec fn sees_symbol(docs: Seq<StoredDocView>, symbol: u32) -> bool {
    found(docs, by_id_terms(SymbolId(symbol), None), 1).len() > 0
}

/// The documents once the first `n` assignments are written into them.
spec fn rewritten(
    docs: Seq<StoredDocView>,
    assignments: Seq<(u32, u32)>,
    segment: u32,
    n: int,
) -> Seq<StoredDocView> {
    apply_ops(
        docs,
        assignment_ops(docs, assignments, n),
        segment,
        0,
        assignment_ops(docs, assignments, n).len() as int,
    )
}

proof fn lemma_same_start(
    docs: Seq<StoredDocView>,
    a: Seq<WriteOpView>,
    b: Seq<WriteOpView>,
    segment: u32,
    m: int,
)
    requires
        0 <= m <= a.len(),
        m <= b.len(),
        forall|i: int| 0 <= i < m ==> a[i] == b[i],
    ensures
        adds_in(a, m) == adds_in(b, m),
        apply_ops(docs, a, segment, 0, m) == apply_ops(docs, b, segment, 0, m),
    decreases m,
{
    if m > 0 {
        lemma_same_start(docs, a, b, segment, m - 1);
    }
}

proof fn lemma_first_document(docs: Seq<StoredDocView>, symbol: u32)
    requires
        sees_symbol(docs, symbol),
    ensures
        num_at(first_document_of(docs, symbol), F_SYMBOL_ID as int) == Some(symbol as u64),
{
    let terms = by_id_terms(SymbolId(symbol), None);
    lemma_found(docs, terms, 1);
    let d = first_document_of(docs, symbol);
    assert(all_hold(d, terms));
    assert(terms[1] == crate::storage::query::TermView::Num(F_SYMBOL_ID as int, symbol as u64));
    assert(term_holds(d, terms[1]));
}

proof fn lemma_rewrite_step(
    before: Seq<StoredDocView>,
    symbol: u32,
    added: DocView,
    segment: u32,
    first: u64,
    second: u64,
)
    requires
        num_at(added, F_SYMBOL_ID as int) == Some(symbol as u64),
    ensures
        only_document_of(
            apply_op(
                apply_op(before, WriteOpView::DeleteSymbol(symbol as u64), segment, first),
                WriteOpView::Add(added),
                segment,
                second,
            ),
            symbol,
            added,
        ),
        forall|other: u32, d: DocView|
            other != symbol && #[trigger] only_document_of(before, other, d) ==> only_document_of(
                apply_op(
                    apply_op(before, WriteOpView::DeleteSymbol(symbol as u64), segment, first),
                    WriteOpView::Add(added),
                    segment,
                    second,
                ),
                other,
                d,
            ),
{
    let op = WriteOpView::DeleteSymbol(symbol as u64);
    let kept = survivors(before, op, before.len() as int);
    lemma_survivors(before, op, before.len() as int);
    let after = kept.push(StoredDocView { segment, doc_id: second, doc: added });
    assert(after == apply_op(apply_op(before, op, segment, first), WriteOpView::Add(added), segment, second));
    assert(after[kept.len() as int].doc == added);
    assert forall|i: int|
        0 <= i < after.len() && num_at((#[trigger] after[i]).doc, F_SYMBOL_ID as int) == Some(
            symbol as u64,
        ) implies after[i].doc == added by {
        if i < kept.len() {
            assert(after[i] == kept[i]);
        }
    }
    assert forall|other: u32, d: DocView|
        other != symbol && #[trigger] only_document_of(before, other, d) implies only_document_of(
        after,
        other,
        d,
    ) by {
        let i = choose|i: int| 0 <= i < before.len() && (#[trigger] before[i]).doc == d;
        assert(num_at(before[i].doc, F_SYMBOL_ID as int) == Some(other as u64));
        assert(kept.contains(before[i]));
        let k = choose|k: int| 0 <= k < kept.len() && kept[k] == before[i];
        assert(after[k] == kept[k]);
        assert(after[k].doc == d);
        assert forall|j: int|
            0 <= j < after.len() && num_at((#[trigger] after[j]).doc, F_SYMBOL_ID as int) == Some(
                other as u64,
            ) implies after[j].doc == d by {
            if j < kept.len() {
                assert(after[j] == kept[j]);
                assert(is_among(before, before.len() as int, kept[j]));
                let m = choose|m: int| 0 <= m < before.len() && #[trigger] before[m] == kept[j];
                assert(before[m].doc == after[j].doc);
            }
        }
    }
}

proof fn lemma_rewritten(
    docs: Seq<StoredDocView>,
    assignments: Seq<(u32, u32)>,
    segment: u32,
    k: int,
    n: int,
)
    requires
        0 <= k < n <= assignments.len(),
        sees_symbol(docs, assignments[k].0),
        forall|j: int| k < j < assignments.len() ==> assignments[j].0 != assignments[k].0,
        forall|i: int| 0 <= i < docs.len() ==> (#[trigger] docs[i]).doc.len() == NUM_FIELDS,
    ensures
        only_document_of(
            rewritten(docs, assignments, segment, n),
            assignments[k].0,
            with_cluster(
                first_document_of(docs, assignments[k].0),
                assignments[k].0,
                assignments[k].1,
            ),
        ),
    decreases n,
{
    let symbol = assignments[k].0;
    let target = with_cluster(first_document_of(docs, symbol), symbol, assignments[k].1);
    let pair = assignments[n - 1];
    let rest = assignment_ops(docs, assignments, n - 1);
    let ops = assignment_ops(docs, assignments, n);
    let before = rewritten(docs, assignments, segment, n - 1);
    lemma_first_document(docs, symbol);
    lemma_found(docs, by_id_terms(SymbolId(symbol), None), 1);
    assert(first_document_of(docs, symbol).len() == NUM_FIELDS);
    assert(num_at(target, F_SYMBOL_ID as int) == Some(symbol as u64));
    if n - 1 > k {
        lemma_rewritten(docs, assignments, segment, k, n - 1);
    }
    if sees_symbol(docs, pair.0) {
        let added = with_cluster(first_document_of(docs, pair.0), pair.0, pair.1);
        lemma_first_document(docs, pair.0);
        lemma_found(docs, by_id_terms(SymbolId(pair.0), None), 1);
        assert(first_document_of(docs, pair.0).len() == NUM_FIELDS);
        assert(num_at(added, F_SYMBOL_ID as int) == Some(pair.0 as u64));
        let m = rest.len() as int;
        assert(ops == rest.push(WriteOpView::DeleteSymbol(pair.0 as u64)).push(
            WriteOpView::Add(added),
        ));
        lemma_same_start(docs, ops, rest, segment, m);
        let first = (0 + adds_in(ops, m)) as u64;
        let second = (0 + adds_in(ops, m + 1)) as u64;
        assert(apply_ops(docs, ops, segment, 0, m + 1) == apply_op(
            before,
            ops[m],
            segment,
            first,
        ));
        assert(rewritten(docs, assignments, segment, n) == apply_op(
            apply_ops(docs, ops, segment, 0, m + 1),
            ops[m + 1],
            segment,
            second,
        ));
        lemma_rewrite_step(before, pair.0, added, segment, first, second);
        if n - 1 > k {
            assert(only_document_of(before, symbol, target));
        }
    } else {
        assert(ops == rest);
    }
}

proof fn lemma_persist_only(
    docs: Seq<StoredDocView>,
    key: Seq<char>,
    pending: Option<u64>,
    segment: u32,
    doc_id: u64,
    symbol: u32,
    d: DocView,
)
    requires
        only_document_of(docs, symbol, d),
        text_at(d, F_META_KEY as int) is None,
    ensures
        only_document_of(persist_counter(docs, key, pending, segment, doc_id), symbol, d),
{
    let after = persist_counter(docs, key, pending, segment, doc_id);
    if after != docs {
        let op = WriteOpView::DeleteMetadata(key);
        let kept = survivors(docs, op, docs.len() as int);
        lemma_survivors(docs, op, docs.len() as int);
        let added = metadata_doc(key, (pending->0 - 1) as u64);
        assert(after == kept.push(StoredDocView { segment, doc_id, doc: added }));
        assert(num_at(added, F_SYMBOL_ID as int) is None);
        let i = choose|i: int| 0 <= i < docs.len() && (#[trigger] docs[i]).doc == d;
        assert(kept.contains(docs[i]));
        let k = choose|k: int| 0 <= k < kept.len() && kept[k] == docs[i];
        assert(after[k] == kept[k]);
        assert(after[k].doc == d);
        assert forall|j: int|
            0 <= j < after.len() && num_at((#[trigger] after[j]).doc, F_SYMBOL_ID as int) == Some(
                symbol as u64,
            ) implies after[j].doc == d by {
            if j < kept.len() {
                assert(after[j] == kept[j]);
                assert(is_among(docs, docs.len() as int, kept[j]));
                let m = choose|m: int| 0 <= m < docs.len() && #[trigger] docs[m] == kept[j];
                assert(docs[m].doc == after[j].doc);
            }
        }
    }
}

/// Writing the cluster assignments into the documents, with no batch open,
/// rewrites the document of every assigned symbol that readers see, where
/// that document holds no metadata key: after the commit the symbol has one
/// document, which names the cluster of the symbol's last assignment and
/// claims the vector, and is in every other field the document that readers
/// saw before.
pub proof fn lemma_assigned_symbol_is_rewritten(v: IndexView, post: IndexView, k: int)
    requires
        consistent(v),
        v.batch is None,
        v.engine is Some,
        0 <= k < v.engine->0.len(),
        forall|j: int| k < j < v.engine->0.len() ==> v.engine->0[j].0 != v.engine->0[k].0,
        sees_symbol(v.committed, v.engine->0[k].0),
        text_at(first_document_of(v.committed, v.engine->0[k].0), F_META_KEY as int) is None,
        commit_result(
            started(v),
            started(v).batch->0 + assignment_ops(
                v.committed,
                v.engine->0,
                v.engine->0.len() as int,
            ),
            started(v).pending_symbol,
            started(v).pending_file,
            post,
        ),
    ensures
        only_document_of(
            post.committed,
            v.engine->0[k].0,
            with_cluster(
                first_document_of(v.committed, v.engine->0[k].0),
                v.engine->0[k].0,
                v.engine->0[k].1,
            ),
        ),
        num_at(
            with_cluster(
                first_document_of(v.committed, v.engine->0[k].0),
                v.engine->0[k].0,
                v.engine->0[k].1,
            ),
            F_CLUSTER_ID as int,
        ) == Some(v.engine->0[k].1 as u64),
        num_at(
            with_cluster(
                first_document_of(v.committed, v.engine->0[k].0),
                v.engine->0[k].0,
                v.engine->0[k].1,
            ),
            F_HAS_VECTOR as int,
        ) == Some(1u64),
        forall|f: int|
            0 <= f < first_document_of(v.committed, v.engine->0[k].0).len() && f != F_CLUSTER_ID
                && f != F_HAS_VECTOR && f != F_VECTOR_ID ==> with_cluster(
                first_document_of(v.committed, v.engine->0[k].0),
                v.engine->0[k].0,
                v.engine->0[k].1,
            )[f] == first_document_of(v.committed, v.engine->0[k].0)[f],
{
    let engine = v.engine->0;
    let n = engine.len() as int;
    let ops = assignment_ops(v.committed, engine, n);
    let all = started(v).batch->0 + ops;
    assert(all =~= ops);
    assert forall|i: int| 0 <= i < v.committed.len() implies (#[trigger] v.committed[i]).doc.len()
        == NUM_FIELDS by {
        assert(valid_doc(v.committed[i].doc));
    }
    lemma_rewritten(v.committed, engine, v.generation, k, n);
    lemma_found(v.committed, by_id_terms(SymbolId(engine[k].0), None), 1);
    let d = first_document_of(v.committed, engine[k].0);
    assert(valid_doc(d));
    let target = with_cluster(d, engine[k].0, engine[k].1);
    assert(text_at(target, F_META_KEY as int) is None);
    let base = apply_ops(v.committed, ops, v.generation, 0, ops.len() as int);
    assert(base == rewritten(v.committed, engine, v.generation, n));
    let id = adds_in(ops, ops.len() as int) as u64;
    let with_symbols = persist_counter(
        base,
        MetadataKey::SymbolCounter.spec_as_str(),
        started(v).pending_symbol,
        v.generation,
        id,
    );
    lemma_persist_only(
        base,
        MetadataKey::SymbolCounter.spec_as_str(),
        started(v).pending_symbol,
        v.generation,
        id,
        engine[k].0,
        target,
    );
    lemma_persist_only(
        with_symbols,
        MetadataKey::FileCounter.spec_as_str(),
        started(v).pending_file,
        v.generation,
        next_doc_id(id),
        engine[k].0,
        target,
    );
    assert(post.committed == docs_after(
        v.committed,
        ops,
        v.generation,
        started(v).pending_symbol,
        started(v).pending_file,
    ));
}

} // verus!
