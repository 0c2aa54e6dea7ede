//! Write operations and what a batch of them does to the stored documents.

use vstd::prelude::*;
use crate::storage::document::{
    is_file_info_doc,
    is_import_doc,
    is_relationship_doc,
    is_symbol_doc,
    num_at,
    text_at,
    DocView,
    Document,
};
use crate::storage::query::{stored_views, StoredDoc, StoredDocView};
use crate::storage::schema::{
    F_FILE_ID,
    F_FILE_PATH,
    F_FROM_SYMBOL_ID,
    F_IMPORT_FILE_ID,
    F_META_KEY,
    F_SYMBOL_ID,
    F_TO_SYMBOL_ID,
    IndexSchema,
};
use crate::vector::DocId;

verus! {

/// One operation of a batch.
#[derive(Debug)]
pub enum WriteOp {
    /// Adds a document.
    Add(Document),
    /// Deletes the documents whose symbol is the given one.
    DeleteSymbol(u64),
    /// Deletes the relationships that start or end at the given symbol.
    DeleteRelationships(u64),
    /// Deletes the imports of the given file.
    DeleteImports(u64),
    /// Deletes the metadata kept under the given key.
    DeleteMetadata(String),
    /// Deletes a file with everything that belongs to it.
    RemoveFile(String),
    /// Deletes every document.
    DeleteAll,
}

/// The mathematical content of a [`WriteOp`].
pub enum WriteOpView {
    Add(DocView),
    DeleteSymbol(u64),
    DeleteRelationships(u64),
    DeleteImports(u64),
    DeleteMetadata(Seq<char>),
    RemoveFile(Seq<char>),
    DeleteAll,
}

impl View for WriteOp {
    type V = WriteOpView;

    open spec fn view(&self) -> WriteOpView {
        match *self {
            WriteOp::Add(d) => WriteOpView::Add(d@),
            WriteOp::DeleteSymbol(n) => WriteOpView::DeleteSymbol(n),
            WriteOp::DeleteRelationships(n) => WriteOpView::DeleteRelationships(n),
            WriteOp::DeleteImports(n) => WriteOpView::DeleteImports(n),
            WriteOp::DeleteMetadata(k) => WriteOpView::DeleteMetadata(k@),
            WriteOp::RemoveFile(p) => WriteOpView::RemoveFile(p@),
            WriteOp::DeleteAll => WriteOpView::DeleteAll,
        }
    }
}

/// The content of each operation of a list.
pub open spec fn op_views(v: Seq<WriteOp>) -> Seq<WriteOpView> {
    Seq::new(v.len(), |i: int| v[i]@)
}

// ---------------------------------------------------------------------------
// Removing a file
// ---------------------------------------------------------------------------

/// The document is stored under the path.
pub open spec fn at_path(d: DocView, path: Seq<char>) -> bool {
    text_at(d, F_FILE_PATH as int) == Some(path)
}

/// `file` is the identifier of a document stored under the path.
pub open spec fn file_id_of_path(docs: Seq<StoredDocView>, path: Seq<char>, file: u64) -> bool {
    exists|i: int|
        0 <= i < docs.len() && at_path((#[trigger] docs[i]).doc, path) && num_at(
            docs[i].doc,
            F_FILE_ID as int,
        ) == Some(file)
}

/// The document is a symbol or a file record of the file at the path: it is
/// stored under the path, or under an identifier of the path.
pub open spec fn belongs_to_path(docs: Seq<StoredDocView>, path: Seq<char>, d: DocView) -> bool {
    at_path(d, path) || ((is_symbol_doc(d) || is_file_info_doc(d)) && num_at(d, F_FILE_ID as int)
        is Some && file_id_of_path(docs, path, num_at(d, F_FILE_ID as int)->0))
}

/// `symbol` is the identifier of a symbol of the file at the path.
pub open spec fn symbol_of_path(docs: Seq<StoredDocView>, path: Seq<char>, symbol: u64) -> bool {
    exists|i: int|
        0 <= i < docs.len() && is_symbol_doc((#[trigger] docs[i]).doc) && belongs_to_path(
            docs,
            path,
            docs[i].doc,
        ) && num_at(docs[i].doc, F_SYMBOL_ID as int) == Some(symbol)
}

/// Removing the file at the path removes the document: the file's record and
/// symbols, the imports of the file, and the relationships that start or end
/// at one of its symbols.
pub open spec fn file_removes(docs: Seq<StoredDocView>, path: Seq<char>, d: DocView) -> bool {
    ||| belongs_to_path(docs, path, d)
    ||| (is_import_doc(d) && num_at(d, F_IMPORT_FILE_ID as int) is Some && file_id_of_path(
        docs,
        path,
        num_at(d, F_IMPORT_FILE_ID as int)->0,
    ))
    ||| (is_relationship_doc(d) && num_at(d, F_FROM_SYMBOL_ID as int) is Some && symbol_of_path(
        docs,
        path,
        num_at(d, F_FROM_SYMBOL_ID as int)->0,
    ))
    ||| (is_relationship_doc(d) && num_at(d, F_TO_SYMBOL_ID as int) is Some && symbol_of_path(
        docs,
        path,
        num_at(d, F_TO_SYMBOL_ID as int)->0,
    ))
}

// ---------------------------------------------------------------------------
// Applying operations
// ---------------------------------------------------------------------------

/// The operation, applied to `docs`, deletes the document.
pub open spec fn op_deletes(docs: Seq<StoredDocView>, op: WriteOpView, d: DocView) -> bool {
    match op {
        WriteOpView::Add(_) => false,
        WriteOpView::DeleteSymbol(n) => num_at(d, F_SYMBOL_ID as int) == Some(n),
        WriteOpView::DeleteRelationships(n) => num_at(d, F_FROM_SYMBOL_ID as int) == Some(n)
            || num_at(d, F_TO_SYMBOL_ID as int) == Some(n),
        WriteOpView::DeleteImports(n) => is_import_doc(d) && num_at(d, F_IMPORT_FILE_ID as int)
            == Some(n),
        WriteOpView::DeleteMetadata(k) => text_at(d, F_META_KEY as int) == Some(k),
        WriteOpView::RemoveFile(p) => file_removes(docs, p, d),
        WriteOpView::DeleteAll => true,
    }
}

/// Those of the first `n` documents that the operation leaves, in order.
pub open spec fn survivors(docs: Seq<StoredDocView>, op: WriteOpView, n: int) -> Seq<StoredDocView>
    decreases n,
{
    if n <= 0 {
        Seq::empty()
    } else if op_deletes(docs, op, docs[n - 1].doc) {
        survivors(docs, op, n - 1)
    } else {
        survivors(docs, op, n - 1).push(docs[n - 1])
    }
}

/// The documents after one operation. An added document goes to the end,
/// into segment `segment` under the number `doc_id`; a deletion leaves the
/// other documents in their order.
pub open spec fn apply_op(docs: Seq<StoredDocView>, op: WriteOpView, segment: u32, doc_id: DocId)
    -> Seq<StoredDocView> {
    match op {
        WriteOpView::Add(d) => docs.push(StoredDocView { segment, doc_id, doc: d }),
        _ => survivors(docs, op, docs.len() as int),
    }
}

/// The number of additions among the first `n` operations.
pub open spec fn adds_in(ops: Seq<WriteOpView>, n: int) -> nat
    decreases n,
{
    if n <= 0 {
        0
    } else if ops[n - 1] is Add {
        adds_in(ops, n - 1) + 1
    } else {
        adds_in(ops, n - 1)
    }
}

/// The documents after the first `n` operations, applied in order. The
/// documents added get the numbers from `first_id` on.
pub open spec fn apply_ops(
    docs: Seq<StoredDocView>,
    ops: Seq<WriteOpView>,
    segment: u32,
    first_id: nat,
    n: int,
) -> Seq<StoredDocView>
    decreases n,
{
    if n <= 0 {
        docs
    } else {
        apply_op(
            apply_ops(docs, ops, segment, first_id, n - 1),
            ops[n - 1],
            segment,
            (first_id + adds_in(ops, n - 1)) as DocId,
        )
    }
}

pub proof fn lemma_adds_bounded(ops: Seq<WriteOpView>, n: int)
    requires
        0 <= n <= ops.len(),
    ensures
        adds_in(ops, n) <= n,
    decreases n,
{
    if n > 0 {
        lemma_adds_bounded(ops, n - 1);
    }
}

/// The document is one of the first `n` of the list.
pub open spec fn is_among(docs: Seq<StoredDocView>, n: int, x: StoredDocView) -> bool {
    exists|j: int| 0 <= j < n && #[trigger] docs[j] == x
}

/// What the survivors of an operation are: exactly the documents that the
/// operation does not delete, each with its content, in their order.
pub proof fn lemma_survivors(docs: Seq<StoredDocView>, op: WriteOpView, n: int)
    requires
        0 <= n <= docs.len(),
    ensures
        survivors(docs, op, n).len() <= n,
        forall|k: int|
            0 <= k < survivors(docs, op, n).len() ==> !op_deletes(
                docs,
                op,
                (#[trigger] survivors(docs, op, n)[k]).doc,
            ) && is_among(docs, n, survivors(docs, op, n)[k]),
        forall|i: int|
            0 <= i < n && !op_deletes(docs, op, docs[i].doc) ==> survivors(docs, op, n).contains(
                #[trigger] docs[i],
            ),
    decreases n,
{
    if n > 0 {
        lemma_survivors(docs, op, n - 1);
        let h = survivors(docs, op, n - 1);
        let g = survivors(docs, op, n);
        assert forall|k: int| 0 <= k < g.len() implies !op_deletes(docs, op, (#[trigger] g[k]).doc)
            && is_among(docs, n, g[k]) by {
            if k < h.len() {
                assert(g[k] == h[k]);
                assert(is_among(docs, n - 1, h[k]));
                let j = choose|j: int| 0 <= j < n - 1 && #[trigger] docs[j] == h[k];
                assert(0 <= j < n && docs[j] == g[k]);
            } else {
                assert(g[k] == docs[n - 1]);
            }
        }
        assert forall|i: int| 0 <= i < n && !op_deletes(docs, op, docs[i].doc) implies g.contains(
            #[trigger] docs[i],
        ) by {
            if i < n - 1 {
                assert(h.contains(docs[i]));
                let k = choose|k: int| 0 <= k < h.len() && h[k] == docs[i];
                assert(g[k] == docs[i]);
            } else {
                assert(g[h.len() as int] == docs[i]);
            }
        }
    }
}

fn contains_u64(v: &Vec<u64>, x: u64) -> (r: bool)
    ensures
        r == v@.contains(x),
{
    let mut i: usize = 0;
    while i < v.len()
        invariant
            i <= v.len(),
            forall|j: int| 0 <= j < i ==> v@[j] != x,
        decreases v.len() - i,
    {
        if v[i] == x {
            return true;
        }
        i = i + 1;
    }
    false
}

/// The identifiers of the documents stored under the path.
fn file_ids_of_path(docs: &Vec<StoredDoc>, path: &str) -> (r: Vec<u64>)
    ensures
        forall|f: u64| r@.contains(f) == file_id_of_path(stored_views(docs@), path@, f),
{
    let s = IndexSchema::handles();
    let ghost dv = stored_views(docs@);
    let mut out: Vec<u64> = Vec::new();
    let mut i: usize = 0;
    while i < docs.len()
        invariant
            i <= docs.len(),
            dv == stored_views(docs@),
            s == IndexSchema::spec_handles(),
            forall|f: u64|
                out@.contains(f) == (exists|j: int|
                    0 <= j < i && at_path((#[trigger] dv[j]).doc, path@) && num_at(
                        dv[j].doc,
                        F_FILE_ID as int,
                    ) == Some(f)),
        decreases docs.len() - i,
    {
        let ghost prev = out@;
        proof {
            assert(dv[i as int] == docs@[i as int]@);
        }
        let mut added: Option<u64> = None;
        if docs[i].doc.has_text(s.file_path, path) {
            match docs[i].doc.get_u64(s.file_id) {
                Some(f) => {
                    out.push(f);
                    added = Some(f);
                },
                None => {},
            }
        }
        proof {
            assert forall|f: u64| out@.contains(f) == (exists|j: int|
                0 <= j < i + 1 && at_path((#[trigger] dv[j]).doc, path@) && num_at(
                    dv[j].doc,
                    F_FILE_ID as int,
                ) == Some(f)) by {
                let here = at_path(dv[i as int].doc, path@) && num_at(
                    dv[i as int].doc,
                    F_FILE_ID as int,
                ) == Some(f);
                if added is Some {
                    assert(out@ == prev.push(added->0));
                    if prev.contains(f) {
                        let k = choose|k: int| 0 <= k < prev.len() && prev[k] == f;
                        assert(out@[k] == f);
                    }
                    if f == added->0 {
                        assert(out@[prev.len() as int] == f);
                    }
                    if out@.contains(f) {
                        let k = choose|k: int| 0 <= k < out@.len() && out@[k] == f;
                        if k < prev.len() {
                            assert(prev[k] == f);
                        }
                    }
                }
                if exists|j: int|
                    0 <= j < i + 1 && at_path((#[trigger] dv[j]).doc, path@) && num_at(
                        dv[j].doc,
                        F_FILE_ID as int,
                    ) == Some(f) {
                    let j = choose|j: int|
                        0 <= j < i + 1 && at_path((#[trigger] dv[j]).doc, path@) && num_at(
                            dv[j].doc,
                            F_FILE_ID as int,
                        ) == Some(f);
                    if j < i {
                        assert(prev.contains(f));
                    }
                }
                if prev.contains(f) {
                    let j = choose|j: int|
                        0 <= j < i && at_path((#[trigger] dv[j]).doc, path@) && num_at(
                            dv[j].doc,
                            F_FILE_ID as int,
                        ) == Some(f);
                    assert(0 <= j < i + 1);
                }
                if here {
                    assert(0 <= i < i + 1 && at_path(dv[i as int].doc, path@));
                }
            }
        }
        i = i + 1;
    }
    out
}

/// Whether the document is a symbol or a file record of the file at the
/// path, given the identifiers of the path.
fn belongs_exec(doc: &Document, path: &str, file_ids: &Vec<u64>) -> (r: bool)
    ensures
        r == (at_path(doc@, path@) || ((is_symbol_doc(doc@) || is_file_info_doc(doc@)) && num_at(
            doc@,
            F_FILE_ID as int,
        ) is Some && file_ids@.contains(num_at(doc@, F_FILE_ID as int)->0))),
{
    let s = IndexSchema::handles();
    if doc.has_text(s.file_path, path) {
        return true;
    }
    if doc.has_text(s.doc_type, "symbol") || doc.has_text(s.doc_type, "file_info") {
        match doc.get_u64(s.file_id) {
            Some(f) => contains_u64(file_ids, f),
            None => false,
        }
    } else {
        false
    }
}

/// The identifiers of the symbols of the file at the path.
fn symbols_of_path(docs: &Vec<StoredDoc>, path: &str, file_ids: &Vec<u64>) -> (r: Vec<u64>)
    requires
        forall|f: u64| file_ids@.contains(f) == file_id_of_path(stored_views(docs@), path@, f),
    ensures
        forall|x: u64| r@.contains(x) == symbol_of_path(stored_views(docs@), path@, x),
{
    let s = IndexSchema::handles();
    let ghost dv = stored_views(docs@);
    let mut out: Vec<u64> = Vec::new();
    let mut i: usize = 0;
    while i < docs.len()
        invariant
            i <= docs.len(),
            dv == stored_views(docs@),
            s == IndexSchema::spec_handles(),
            forall|f: u64| file_ids@.contains(f) == file_id_of_path(dv, path@, f),
            forall|x: u64|
                out@.contains(x) == (exists|j: int|
                    0 <= j < i && is_symbol_doc((#[trigger] dv[j]).doc) && belongs_to_path(
                        dv,
                        path@,
                        dv[j].doc,
                    ) && num_at(dv[j].doc, F_SYMBOL_ID as int) == Some(x)),
        decreases docs.len() - i,
    {
        let ghost prev = out@;
        proof {
            assert(dv[i as int] == docs@[i as int]@);
        }
        let mut added: Option<u64> = None;
        if docs[i].doc.has_text(s.doc_type, "symbol") && belongs_exec(&docs[i].doc, path, file_ids) {
            match docs[i].doc.get_u64(s.symbol_id) {
                Some(x) => {
                    out.push(x);
                    added = Some(x);
                },
                None => {},
            }
        }
        proof {
            assert forall|x: u64| out@.contains(x) == (exists|j: int|
                0 <= j < i + 1 && is_symbol_doc((#[trigger] dv[j]).doc) && belongs_to_path(
                    dv,
                    path@,
                    dv[j].doc,
                ) && num_at(dv[j].doc, F_SYMBOL_ID as int) == Some(x)) by {
                let here = is_symbol_doc(dv[i as int].doc) && belongs_to_path(
                    dv,
                    path@,
                    dv[i as int].doc,
                ) && num_at(dv[i as int].doc, F_SYMBOL_ID as int) == Some(x);
                if added is Some {
                    assert(out@ == prev.push(added->0));
                    if prev.contains(x) {
                        let k = choose|k: int| 0 <= k < prev.len() && prev[k] == x;
                        assert(out@[k] == x);
                    }
                    if x == added->0 {
                        assert(out@[prev.len() as int] == x);
                    }
                    if out@.contains(x) {
                        let k = choose|k: int| 0 <= k < out@.len() && out@[k] == x;
                        if k < prev.len() {
                            assert(prev[k] == x);
                        }
                    }
                }
                if exists|j: int|
                    0 <= j < i + 1 && is_symbol_doc((#[trigger] dv[j]).doc) && belongs_to_path(
                        dv,
                        path@,
                        dv[j].doc,
                    ) && num_at(dv[j].doc, F_SYMBOL_ID as int) == Some(x) {
                    let j = choose|j: int|
                        0 <= j < i + 1 && is_symbol_doc((#[trigger] dv[j]).doc) && belongs_to_path(
                            dv,
                            path@,
                            dv[j].doc,
                        ) && num_at(dv[j].doc, F_SYMBOL_ID as int) == Some(x);
                    if j < i {
                        assert(prev.contains(x));
                    }
                }
                if prev.contains(x) {
                    let j = choose|j: int|
                        0 <= j < i && is_symbol_doc((#[trigger] dv[j]).doc) && belongs_to_path(
                            dv,
                            path@,
                            dv[j].doc,
                        ) && num_at(dv[j].doc, F_SYMBOL_ID as int) == Some(x);
                    assert(0 <= j < i + 1);
                }
                if here {
                    assert(0 <= i < i + 1 && is_symbol_doc(dv[i as int].doc));
                }
            }
        }
        i = i + 1;
    }
    out
}

/// What the deletion needs to know of the documents before it runs: for the
/// removal of a file, the identifiers of the file and of its symbols.
pub struct DeleteContext {
    pub file_ids: Vec<u64>,
    pub symbol_ids: Vec<u64>,
}

impl DeleteContext {
    /// The context is the one of the operation on the documents.
    pub open spec fn is_for(&self, docs: Seq<StoredDocView>, op: WriteOpView) -> bool {
        op matches WriteOpView::RemoveFile(p) ==> {
            &&& forall|f: u64| self.file_ids@.contains(f) == file_id_of_path(docs, p, f)
            &&& forall|x: u64| self.symbol_ids@.contains(x) == symbol_of_path(docs, p, x)
        }
    }

    /// Gathers what the operation needs to know of the documents.
    pub fn gather(docs: &Vec<StoredDoc>, op: &WriteOp) -> (r: DeleteContext)
        ensures
            r.is_for(stored_views(docs@), op@),
    {
        match op {
            WriteOp::RemoveFile(p) => {
                let file_ids = file_ids_of_path(docs, p.as_str());
                let symbol_ids = symbols_of_path(docs, p.as_str(), &file_ids);
                DeleteContext { file_ids, symbol_ids }
            },
            _ => DeleteContext { file_ids: Vec::new(), symbol_ids: Vec::new() },
        }
    }
}

/// Whether the operation, applied to `docs`, deletes the document.
fn deletes(op: &WriteOp, context: &DeleteContext, doc: &Document, Ghost(docs): Ghost<
    Seq<StoredDocView>,
>) -> (r: bool)
    requires
        context.is_for(docs, op@),
    ensures
        r == op_deletes(docs, op@, doc@),
{
    let s = IndexSchema::handles();
    match op {
        WriteOp::Add(_) => false,
        WriteOp::DeleteSymbol(n) => doc.has_u64(s.symbol_id, *n),
        WriteOp::DeleteRelationships(n) => doc.has_u64(s.from_symbol_id, *n) || doc.has_u64(
            s.to_symbol_id,
            *n,
        ),
        WriteOp::DeleteImports(n) => doc.has_text(s.doc_type, "import") && doc.has_u64(
            s.import_file_id,
            *n,
        ),
        WriteOp::DeleteMetadata(k) => doc.has_text(s.meta_key, k.as_str()),
        WriteOp::RemoveFile(p) => {
            if belongs_exec(doc, p.as_str(), &context.file_ids) {
                return true;
            }
            if doc.has_text(s.doc_type, "import") {
                match doc.get_u64(s.import_file_id) {
                    Some(f) => {
                        if contains_u64(&context.file_ids, f) {
                            return true;
                        }
                    },
                    None => {},
                }
            }
            if doc.has_text(s.doc_type, "relationship") {
                match doc.get_u64(s.from_symbol_id) {
                    Some(x) => {
                        if contains_u64(&context.symbol_ids, x) {
                            return true;
                        }
                    },
                    None => {},
                }
                match doc.get_u64(s.to_symbol_id) {
                    Some(x) => {
                        if contains_u64(&context.symbol_ids, x) {
                            return true;
                        }
                    },
                    None => {},
                }
            }
            false
        },
        WriteOp::DeleteAll => true,
    }
}

/// Applies one operation to the documents.
pub fn apply(docs: &mut Vec<StoredDoc>, op: &WriteOp, segment: u32, doc_id: DocId)
    ensures
        stored_views(final(docs)@) == apply_op(stored_views(old(docs)@), op@, segment, doc_id),
{
    match op {
        WriteOp::Add(d) => {
            let ghost before = docs@;
            docs.push(StoredDoc { segment, doc_id, doc: d.duplicate() });
            proof {
                assert(stored_views(docs@) =~= stored_views(before).push(
                    StoredDocView { segment, doc_id, doc: d@ },
                ));
            }
        },
        _ => {
            let context = DeleteContext::gather(docs, op);
            let ghost before = docs@;
            let ghost bv = stored_views(docs@);
            let mut kept: Vec<StoredDoc> = Vec::new();
            let mut i: usize = 0;
            while i < docs.len()
                invariant
                    i <= docs.len(),
                    docs@ == before,
                    bv == stored_views(before),
                    !(op@ is Add),
                    context.is_for(bv, op@),
                    stored_views(kept@) == survivors(bv, op@, i as int),
                decreases docs.len() - i,
            {
                proof {
                    assert(bv[i as int] == before[i as int]@);
                }
                if !deletes(op, &context, &docs[i].doc, Ghost(bv)) {
                    let ghost prev = kept@;
                    let copy = StoredDoc {
                        segment: docs[i].segment,
                        doc_id: docs[i].doc_id,
                        doc: docs[i].doc.duplicate(),
                    };
                    proof {
                        assert(copy@ == before[i as int]@);
                    }
                    kept.push(copy);
                    proof {
                        assert(stored_views(kept@) =~= stored_views(prev).push(bv[i as int]));
                    }
                }
                i = i + 1;
            }
            *docs = kept;
        },
    }
}

} // verus!
