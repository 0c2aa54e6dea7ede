//! Reading the index: lookups of symbols, files, imports and relationships
//! among the documents that readers see.

use vstd::prelude::*;
use crate::error::{StorageError, StorageResult};
use crate::parsing::{Import, ImportView};
use crate::relationship::{RelationKind, Relationship, RelationshipView};
use crate::text::opt_to_owned;
use crate::storage::document::{is_symbol_doc, num_at, text_at, DocView};
use crate::storage::index::{valid_doc, DocumentIndex};
use crate::storage::query::{
    all_hits,
    all_hold,
    find_hits,
    first_n,
    lemma_hits,
    stored_views,
    term_holds,
    term_views,
    StoredDoc,
    StoredDocView,
    Term,
    TermView,
};
use crate::storage::schema::{
    F_DOC_TYPE,
    F_FILE_HASH,
    F_FILE_ID,
    F_FILE_PATH,
    F_FILE_TIMESTAMP,
    F_FROM_SYMBOL_ID,
    F_IMPORT_FILE_ID,
    F_LANGUAGE,
    F_NAME,
    F_RELATION_KIND,
    F_SYMBOL_ID,
    F_TO_SYMBOL_ID,
    IndexSchema,
};
use crate::storage::shapes::{
    doc_from,
    doc_import,
    doc_relationship,
    doc_symbol,
    doc_to,
    document_to_import,
    document_to_relationship,
    document_to_symbol,
    num_or,
    opt_str_view,
};
use crate::symbol::{Symbol, SymbolView};
use crate::types::{FileId, SymbolId};

verus! {

/// The content of each symbol of a list.
pub open spec fn symbol_views(v: Seq<Symbol>) -> Seq<SymbolView> {
    Seq::new(v.len(), |i: int| v[i]@)
}

/// The content of each import of a list.
pub open spec fn import_views(v: Seq<Import>) -> Seq<ImportView> {
    Seq::new(v.len(), |i: int| v[i]@)
}

/// The content of each relationship of a list, with its two ends.
pub open spec fn edge_views(v: Seq<(SymbolId, SymbolId, Relationship)>) -> Seq<
    (SymbolId, SymbolId, RelationshipView),
> {
    Seq::new(v.len(), |i: int| (v[i].0, v[i].1, v[i].2@))
}

/// The characters of each string of a list.
pub open spec fn path_views(v: Seq<String>) -> Seq<Seq<char>> {
    Seq::new(v.len(), |i: int| v[i]@)
}

/// The first term of every lookup: the type of the documents looked for.
pub open spec fn type_term(doc_type: Seq<char>) -> TermView {
    TermView::Text(F_DOC_TYPE as int, doc_type)
}

/// The symbols that the documents at the given positions describe.
pub open spec fn symbols_at(docs: Seq<StoredDocView>, at: Seq<int>) -> Seq<SymbolView> {
    Seq::new(at.len(), |k: int| doc_symbol(docs[at[k]].doc)->Ok_0)
}

/// The relationships of kind `kind` that the documents at the given
/// positions describe.
pub open spec fn edges_at(docs: Seq<StoredDocView>, at: Seq<int>, kind: RelationKind) -> Seq<
    (SymbolId, SymbolId, RelationshipView),
> {
    Seq::new(
        at.len(),
        |k: int|
            (doc_from(docs[at[k]].doc), doc_to(docs[at[k]].doc), doc_relationship(
                docs[at[k]].doc,
                kind,
            )),
    )
}

/// The imports of file `file_id` that the documents at the given positions
/// describe.
pub open spec fn imports_at(docs: Seq<StoredDocView>, at: Seq<int>, file_id: FileId) -> Seq<
    ImportView,
> {
    Seq::new(at.len(), |k: int| doc_import(docs[at[k]].doc, file_id))
}

/// The terms that find symbols: the type, then the given terms.
pub open spec fn symbol_terms(rest: Seq<TermView>) -> Seq<TermView> {
    seq![type_term("symbol"@)] + rest
}

/// The term for an optional language.
pub open spec fn language_terms(language: Option<Seq<char>>) -> Seq<TermView> {
    match language {
        Some(l) => seq![TermView::Text(F_LANGUAGE as int, l)],
        None => Seq::empty(),
    }
}

/// The terms that find the symbol with a number, in any language or in a
/// given one.
pub open spec fn by_id_terms(id: SymbolId, language: Option<Seq<char>>) -> Seq<TermView> {
    symbol_terms(seq![TermView::Num(F_SYMBOL_ID as int, id.0 as u64)] + language_terms(language))
}

/// The terms that find the symbols with a name, in any language or in a
/// given one.
pub open spec fn by_name_terms(name: Seq<char>, language: Option<Seq<char>>) -> Seq<TermView> {
    symbol_terms(seq![TermView::Text(F_NAME as int, name)] + language_terms(language))
}

/// The terms that find the symbols of a file.
pub open spec fn by_file_terms(file_id: FileId) -> Seq<TermView> {
    symbol_terms(seq![TermView::Num(F_FILE_ID as int, file_id.0 as u64)])
}

/// The terms that find the relationships of a kind.
pub open spec fn by_kind_terms(kind: RelationKind) -> Seq<TermView> {
    seq![type_term("relationship"@), TermView::Text(F_RELATION_KIND as int, kind.spec_name())]
}

/// The terms that find the relationships of a kind that start at a symbol.
pub open spec fn from_terms(from: SymbolId, kind: RelationKind) -> Seq<TermView> {
    seq![
        type_term("relationship"@),
        TermView::Num(F_FROM_SYMBOL_ID as int, from.0 as u64),
        TermView::Text(F_RELATION_KIND as int, kind.spec_name()),
    ]
}

/// The terms that find the relationships of a kind that end at a symbol.
pub open spec fn to_terms(to: SymbolId, kind: RelationKind) -> Seq<TermView> {
    seq![
        type_term("relationship"@),
        TermView::Num(F_TO_SYMBOL_ID as int, to.0 as u64),
        TermView::Text(F_RELATION_KIND as int, kind.spec_name()),
    ]
}

/// The terms that find the imports of a file.
pub open spec fn import_terms(file_id: FileId) -> Seq<TermView> {
    seq![type_term("import"@), TermView::Num(F_IMPORT_FILE_ID as int, file_id.0 as u64)]
}

/// The terms that find the record of the file at a path.
pub open spec fn file_by_path_terms(path: Seq<char>) -> Seq<TermView> {
    seq![type_term("file_info"@), TermView::Text(F_FILE_PATH as int, path)]
}

/// The terms that find the record of the file with a number.
pub open spec fn file_by_id_terms(file_id: FileId) -> Seq<TermView> {
    seq![type_term("file_info"@), TermView::Num(F_FILE_ID as int, file_id.0 as u64)]
}

/// The first `limit` hits of the terms among the documents.
pub open spec fn found(docs: Seq<StoredDocView>, terms: Seq<TermView>, limit: int) -> Seq<int> {
    first_n(all_hits(docs, terms), limit)
}

/// Every position that a lookup finds is the position of a document that
/// matches every term.
pub proof fn lemma_found(docs: Seq<StoredDocView>, terms: Seq<TermView>, limit: int)
    ensures
        found(docs, terms, limit).len() <= all_hits(docs, terms).len(),
        limit >= 0 ==> found(docs, terms, limit).len() <= limit,
        forall|k: int|
            0 <= k < found(docs, terms, limit).len() ==> 0 <= #[trigger] found(
                docs,
                terms,
                limit,
            )[k] < docs.len() && all_hold(docs[found(docs, terms, limit)[k]].doc, terms)
                && found(docs, terms, limit)[k] == all_hits(docs, terms)[k],
{
    lemma_hits(docs, terms, docs.len() as int);
}

/// The positions found, as the numbers that the store hands out.
spec fn positions(v: Seq<usize>) -> Seq<int> {
    Seq::new(v.len(), |k: int| v[k] as int)
}

/// The first `limit` documents that match the terms, by position.
fn lookup(docs: &Vec<StoredDoc>, terms: &Vec<Term>, limit: usize) -> (r: Vec<usize>)
    ensures
        positions(r@) == found(stored_views(docs@), term_views(terms@), limit as int),
        forall|k: int| 0 <= k < r@.len() ==> #[trigger] r@[k] < docs@.len(),
{
    let r = find_hits(docs, terms, limit);
    proof {
        assert(positions(r@) =~= found(stored_views(docs@), term_views(terms@), limit as int));
    }
    r
}

fn symbol_type_term() -> (r: Term)
    ensures
        r@ == type_term("symbol"@),
{
    Term::text(IndexSchema::handles().doc_type, "symbol")
}

impl DocumentIndex {
    /// The symbols described by the first `limit` documents that match the
    /// terms, which ask for symbols first of all.
    fn read_symbols(&self, terms: &Vec<Term>, limit: usize) -> (r: Vec<Symbol>)
        requires
            self.wf(),
            terms@.len() > 0,
            terms@[0]@ == type_term("symbol"@),
        ensures
            symbol_views(r@) == symbols_at(
                self@.committed,
                found(self@.committed, term_views(terms@), limit as int),
            ),
    {
        let docs = self.stored();
        let at = lookup(docs, terms, limit);
        let ghost dv = stored_views(docs@);
        let ghost tv = term_views(terms@);
        let ghost hits = found(dv, tv, limit as int);
        let mut out: Vec<Symbol> = Vec::new();
        let mut k: usize = 0;
        proof {
            lemma_found(dv, tv, limit as int);
        }
        while k < at.len()
            invariant
                k <= at.len(),
                self.wf(),
                docs@ == self.stored_docs(),
                dv == stored_views(docs@),
                dv == self@.committed,
                tv == term_views(terms@),
                tv.len() > 0,
                tv[0] == type_term("symbol"@),
                hits == found(dv, tv, limit as int),
                positions(at@) == hits,
                forall|j: int| 0 <= j < at@.len() ==> #[trigger] at@[j] < docs@.len(),
                forall|j: int|
                    0 <= j < hits.len() ==> 0 <= #[trigger] hits[j] < dv.len() && all_hold(
                        dv[hits[j]].doc,
                        tv,
                    ),
                out@.len() == k,
                forall|j: int| 0 <= j < k ==> (#[trigger] out@[j])@ == doc_symbol(dv[hits[j]].doc)->Ok_0,
            decreases at.len() - k,
        {
            let i = at[k];
            proof {
                assert(positions(at@)[k as int] == i as int);
                assert(hits[k as int] == i);
                assert(dv[i as int] == docs@[i as int]@);
                assert(all_hold(dv[i as int].doc, tv));
                assert(term_holds(dv[i as int].doc, tv[0]));
                assert(is_symbol_doc(dv[i as int].doc));
                assert(valid_doc(dv[i as int].doc));
                assert(doc_symbol(dv[i as int].doc) is Ok);
            }
            match document_to_symbol(&docs[i].doc) {
                Ok(symbol) => {
                    out.push(symbol);
                },
                Err(_) => {
                    proof {
                        assert(false);
                    }
                },
            }
            k = k + 1;
        }
        proof {
            assert(symbol_views(out@) =~= symbols_at(dv, hits));
        }
        out
    }

    /// Finds a symbol by its number.
    pub fn find_symbol_by_id(&self, id: SymbolId) -> (r: StorageResult<Option<Symbol>>)
        requires
            self.wf(),
        ensures
            r is Ok,
            r->Ok_0 is Some == (found(self@.committed, by_id_terms(id, None), 1).len() > 0),
            r->Ok_0 is Some ==> r->Ok_0->0@ == symbols_at(
                self@.committed,
                found(self@.committed, by_id_terms(id, None), 1),
            )[0],
    {
        let s = IndexSchema::handles();
        let mut terms: Vec<Term> = Vec::new();
        terms.push(symbol_type_term());
        terms.push(Term::num(s.symbol_id, id.value() as u64));
        proof {
            assert(term_views(terms@) =~= by_id_terms(id, None));
        }
        let mut symbols = self.read_symbols(&terms, 1);
        proof {
            lemma_found(self@.committed, by_id_terms(id, None), 1);
            assert(symbol_views(symbols@).len() == symbols@.len());
        }
        let ghost all = symbol_views(symbols@);
        match symbols.pop() {
            Some(symbol) => {
                proof {
                    assert(all[0] == symbol@);
                }
                Ok(Some(symbol))
            },
            None => Ok(None),
        }
    }

    /// Finds a symbol by its number among the symbols of a language.
    pub fn find_symbol_by_id_with_language(&self, id: SymbolId, language: &str) -> (r: StorageResult<
        Option<Symbol>,
    >)
        requires
            self.wf(),
        ensures
            r is Ok,
            r->Ok_0 is Some == (found(self@.committed, by_id_terms(id, Some(language@)), 1).len()
                > 0),
            r->Ok_0 is Some ==> r->Ok_0->0@ == symbols_at(
                self@.committed,
                found(self@.committed, by_id_terms(id, Some(language@)), 1),
            )[0],
    {
        let s = IndexSchema::handles();
        let mut terms: Vec<Term> = Vec::new();
        terms.push(symbol_type_term());
        terms.push(Term::num(s.symbol_id, id.value() as u64));
        terms.push(Term::text(s.language, language));
        proof {
            assert(term_views(terms@) =~= by_id_terms(id, Some(language@)));
        }
        let mut symbols = self.read_symbols(&terms, 1);
        proof {
            lemma_found(self@.committed, by_id_terms(id, Some(language@)), 1);
            assert(symbol_views(symbols@).len() == symbols@.len());
        }
        let ghost all = symbol_views(symbols@);
        match symbols.pop() {
            Some(symbol) => {
                proof {
                    assert(all[0] == symbol@);
                }
                Ok(Some(symbol))
            },
            None => Ok(None),
        }
    }

    /// The symbols whose name is exactly `name`, in any language or in the
    /// given one: the first hundred in the order of the store.
    pub fn find_symbols_by_name(&self, name: &str, language_filter: Option<&str>) -> (r:
        StorageResult<Vec<Symbol>>)
        requires
            self.wf(),
        ensures
            r is Ok,
            symbol_views(r->Ok_0@) == symbols_at(
                self@.committed,
                found(self@.committed, by_name_terms(name@, opt_str_view(language_filter)), 100),
            ),
    {
        let s = IndexSchema::handles();
        let mut terms: Vec<Term> = Vec::new();
        terms.push(symbol_type_term());
        terms.push(Term::text(s.name, name));
        match language_filter {
            Some(l) => {
                terms.push(Term::text(s.language, l));
            },
            None => {},
        }
        proof {
            assert(term_views(terms@) =~= by_name_terms(name@, opt_str_view(language_filter)));
        }
        Ok(self.read_symbols(&terms, 100))
    }

    /// The symbols of a file: the first thousand in the order of the store.
    pub fn find_symbols_by_file(&self, file_id: FileId) -> (r: StorageResult<Vec<Symbol>>)
        requires
            self.wf(),
        ensures
            r is Ok,
            symbol_views(r->Ok_0@) == symbols_at(
                self@.committed,
                found(self@.committed, by_file_terms(file_id), 1000),
            ),
    {
        let s = IndexSchema::handles();
        let mut terms: Vec<Term> = Vec::new();
        terms.push(symbol_type_term());
        terms.push(Term::num(s.file_id, file_id.value() as u64));
        proof {
            assert(term_views(terms@) =~= by_file_terms(file_id));
        }
        Ok(self.read_symbols(&terms, 1000))
    }

    /// The first `limit` symbols in the order of the store.
    pub fn get_all_symbols(&self, limit: usize) -> (r: StorageResult<Vec<Symbol>>)
        requires
            self.wf(),
        ensures
            r is Ok,
            symbol_views(r->Ok_0@) == symbols_at(
                self@.committed,
                found(self@.committed, symbol_terms(Seq::empty()), limit as int),
            ),
    {
        let mut terms: Vec<Term> = Vec::new();
        terms.push(symbol_type_term());
        proof {
            assert(term_views(terms@) =~= symbol_terms(Seq::empty()));
        }
        Ok(self.read_symbols(&terms, limit))
    }

    /// The number of documents of a type.
    fn count_type(&self, doc_type: &str) -> (r: usize)
        ensures
            r == all_hits(self@.committed, seq![type_term(doc_type@)]).len(),
    {
        let s = IndexSchema::handles();
        let docs = self.stored();
        let mut terms: Vec<Term> = Vec::new();
        terms.push(Term::text(s.doc_type, doc_type));
        proof {
            assert(term_views(terms@) =~= seq![type_term(doc_type@)]);
            lemma_hits(stored_views(docs@), seq![type_term(doc_type@)], docs@.len() as int);
        }
        let at = lookup(docs, &terms, docs.len());
        at.len()
    }

    /// The number of symbols.
    pub fn count_symbols(&self) -> (r: StorageResult<usize>)
        ensures
            r is Ok,
            r->Ok_0 as nat == all_hits(self@.committed, seq![type_term("symbol"@)]).len(),
    {
        Ok(self.count_type("symbol"))
    }

    /// The number of relationships.
    pub fn count_relationships(&self) -> (r: StorageResult<usize>)
        ensures
            r is Ok,
            r->Ok_0 as nat == all_hits(self@.committed, seq![type_term("relationship"@)]).len(),
    {
        Ok(self.count_type("relationship"))
    }

    /// The number of files.
    pub fn count_files(&self) -> (r: StorageResult<usize>)
        ensures
            r is Ok,
            r->Ok_0 as nat == all_hits(self@.committed, seq![type_term("file_info"@)]).len(),
    {
        Ok(self.count_type("file_info"))
    }

    /// The relationships described by the first `limit` documents that
    /// match the terms.
    fn read_edges(&self, terms: &Vec<Term>, kind: RelationKind, limit: usize) -> (r: Vec<
        (SymbolId, SymbolId, Relationship),
    >)
        ensures
            edge_views(r@) == edges_at(
                self@.committed,
                found(self@.committed, term_views(terms@), limit as int),
                kind,
            ),
    {
        let docs = self.stored();
        let at = lookup(docs, terms, limit);
        let ghost dv = stored_views(docs@);
        let ghost hits = found(dv, term_views(terms@), limit as int);
        let mut out: Vec<(SymbolId, SymbolId, Relationship)> = Vec::new();
        let mut k: usize = 0;
        while k < at.len()
            invariant
                k <= at.len(),
                dv == stored_views(docs@),
                positions(at@) == hits,
                forall|j: int| 0 <= j < at@.len() ==> #[trigger] at@[j] < docs@.len(),
                out@.len() == k,
                forall|j: int|
                    0 <= j < k ==> (#[trigger] out@[j]).0 == doc_from(dv[hits[j]].doc) && out@[j].1
                        == doc_to(dv[hits[j]].doc) && out@[j].2@ == doc_relationship(
                        dv[hits[j]].doc,
                        kind,
                    ),
            decreases at.len() - k,
        {
            let i = at[k];
            proof {
                assert(positions(at@)[k as int] == i as int);
                assert(dv[i as int] == docs@[i as int]@);
            }
            out.push(document_to_relationship(&docs[i].doc, kind));
            k = k + 1;
        }
        proof {
            assert(edge_views(out@) =~= edges_at(dv, hits, kind));
        }
        out
    }

    /// The relationships of a kind that start at a symbol, each with its
    /// weight and metadata: the first thousand in the order of the store.
    pub fn get_relationships_from(&self, from_id: SymbolId, kind: RelationKind) -> (r: StorageResult<
        Vec<(SymbolId, SymbolId, Relationship)>,
    >)
        ensures
            r is Ok,
            edge_views(r->Ok_0@) == edges_at(
                self@.committed,
                found(self@.committed, from_terms(from_id, kind), 1000),
                kind,
            ),
    {
        let s = IndexSchema::handles();
        let mut terms: Vec<Term> = Vec::new();
        terms.push(Term::text(s.doc_type, "relationship"));
        terms.push(Term::num(s.from_symbol_id, from_id.value() as u64));
        terms.push(Term::text(s.relation_kind, kind.name()));
        proof {
            assert(term_views(terms@) =~= from_terms(from_id, kind));
        }
        Ok(self.read_edges(&terms, kind, 1000))
    }

    /// The relationships of a kind that end at a symbol, each with its
    /// weight and metadata: the first thousand in the order of the store.
    pub fn get_relationships_to(&self, to_id: SymbolId, kind: RelationKind) -> (r: StorageResult<
        Vec<(SymbolId, SymbolId, Relationship)>,
    >)
        ensures
            r is Ok,
            edge_views(r->Ok_0@) == edges_at(
                self@.committed,
                found(self@.committed, to_terms(to_id, kind), 1000),
                kind,
            ),
    {
        let s = IndexSchema::handles();
        let mut terms: Vec<Term> = Vec::new();
        terms.push(Term::text(s.doc_type, "relationship"));
        terms.push(Term::num(s.to_symbol_id, to_id.value() as u64));
        terms.push(Term::text(s.relation_kind, kind.name()));
        proof {
            assert(term_views(terms@) =~= to_terms(to_id, kind));
        }
        Ok(self.read_edges(&terms, kind, 1000))
    }

    /// The relationships of a kind: the first ten thousand in the order of
    /// the store.
    pub fn get_all_relationships_by_kind(&self, kind: RelationKind) -> (r: StorageResult<
        Vec<(SymbolId, SymbolId, Relationship)>,
    >)
        ensures
            r is Ok,
            edge_views(r->Ok_0@) == edges_at(
                self@.committed,
                found(self@.committed, by_kind_terms(kind), 10000),
                kind,
            ),
    {
        let s = IndexSchema::handles();
        let mut terms: Vec<Term> = Vec::new();
        terms.push(Term::text(s.doc_type, "relationship"));
        terms.push(Term::text(s.relation_kind, kind.name()));
        proof {
            assert(term_views(terms@) =~= by_kind_terms(kind));
        }
        Ok(self.read_edges(&terms, kind, 10000))
    }

    /// The imports of a file: the first thousand in the order of the store.
    pub fn get_imports_for_file(&self, file_id: FileId) -> (r: StorageResult<Vec<Import>>)
        ensures
            r is Ok,
            import_views(r->Ok_0@) == imports_at(
                self@.committed,
                found(self@.committed, import_terms(file_id), 1000),
                file_id,
            ),
    {
        let s = IndexSchema::handles();
        let docs = self.stored();
        let mut terms: Vec<Term> = Vec::new();
        terms.push(Term::text(s.doc_type, "import"));
        terms.push(Term::num(s.import_file_id, file_id.value() as u64));
        proof {
            assert(term_views(terms@) =~= import_terms(file_id));
        }
        let at = lookup(docs, &terms, 1000);
        let ghost dv = stored_views(docs@);
        let ghost hits = found(dv, import_terms(file_id), 1000);
        let mut out: Vec<Import> = Vec::new();
        let mut k: usize = 0;
        while k < at.len()
            invariant
                k <= at.len(),
                dv == stored_views(docs@),
                positions(at@) == hits,
                forall|j: int| 0 <= j < at@.len() ==> #[trigger] at@[j] < docs@.len(),
                out@.len() == k,
                forall|j: int|
                    0 <= j < k ==> (#[trigger] out@[j])@ == doc_import(dv[hits[j]].doc, file_id),
            decreases at.len() - k,
        {
            let i = at[k];
            proof {
                assert(positions(at@)[k as int] == i as int);
                assert(dv[i as int] == docs@[i as int]@);
            }
            out.push(document_to_import(&docs[i].doc, file_id));
            k = k + 1;
        }
        proof {
            assert(import_views(out@) =~= imports_at(dv, hits, file_id));
        }
        Ok(out)
    }
}

// ---------------------------------------------------------------------------
// Files and whole-store reads
// ---------------------------------------------------------------------------

/// The file number that a document names, where it names one that is not
/// zero.
pub open spec fn doc_file_id(d: DocView) -> Option<FileId> {
    match num_at(d, F_FILE_ID as int) {
        Some(n) => if n as u32 == 0 {
            None
        } else {
            Some(FileId(n as u32))
        },
        None => None,
    }
}

/// The outcome of reading the number and the hash of a file record: both,
/// or an error that names the field that cannot be read.
pub open spec fn file_info_read(d: DocView, r: StorageResult<Option<(FileId, String)>>) -> bool {
    if doc_file_id(d) is None {
        r matches Err(StorageError::InvalidFieldValue { field, reason }) && field@ == "file_id"@
            && reason@ == "not a valid u32"@
    } else if text_at(d, F_FILE_HASH as int) is None {
        r matches Err(StorageError::InvalidFieldValue { field, reason }) && field@ == "file_hash"@
            && reason@ == "missing from document"@
    } else {
        r matches Ok(Some(pair)) && pair.0 == doc_file_id(d)->0 && pair.1@ == text_at(
            d,
            F_FILE_HASH as int,
        )->0
    }
}

/// The paths of those of the first `n` positions whose document names a
/// path, in order.
pub open spec fn paths_at(docs: Seq<StoredDocView>, at: Seq<int>, n: int) -> Seq<Seq<char>>
    decreases n,
{
    if n <= 0 {
        Seq::empty()
    } else {
        match text_at(docs[at[n - 1]].doc, F_FILE_PATH as int) {
            Some(p) => paths_at(docs, at, n - 1).push(p),
            None => paths_at(docs, at, n - 1),
        }
    }
}

/// The relationships of those of the first `n` positions whose document
/// names a known kind, in order.
pub open spec fn known_edges_at(docs: Seq<StoredDocView>, at: Seq<int>, n: int) -> Seq<
    (SymbolId, SymbolId, RelationshipView),
>
    decreases n,
{
    if n <= 0 {
        Seq::empty()
    } else {
        let d = docs[at[n - 1]].doc;
        match text_at(d, F_RELATION_KIND as int) {
            Some(k) => match RelationKind::spec_parse(k) {
                Some(kind) => known_edges_at(docs, at, n - 1).push(
                    (doc_from(d), doc_to(d), doc_relationship(d, kind)),
                ),
                None => known_edges_at(docs, at, n - 1),
            },
            None => known_edges_at(docs, at, n - 1),
        }
    }
}

/// The record of a file: its number, path, hash and timestamp.
pub struct FileRecord {
    pub file_id: FileId,
    pub path: String,
    pub hash: String,
    pub timestamp: u64,
}

/// The mathematical content of a [`FileRecord`].
pub struct FileRecordView {
    pub file_id: FileId,
    pub path: Seq<char>,
    pub hash: Seq<char>,
    pub timestamp: u64,
}

impl View for FileRecord {
    type V = FileRecordView;

    open spec fn view(&self) -> FileRecordView {
        FileRecordView {
            file_id: self.file_id,
            path: self.path@,
            hash: self.hash@,
            timestamp: self.timestamp,
        }
    }
}

/// The content of each file record of a list.
pub open spec fn record_views(v: Seq<FileRecord>) -> Seq<FileRecordView> {
    Seq::new(v.len(), |i: int| v[i]@)
}

/// The record that a document describes; a path or hash that is missing
/// reads as empty, a missing timestamp as zero.
pub open spec fn doc_record(d: DocView) -> FileRecordView {
    FileRecordView {
        file_id: FileId(num_or(d, F_FILE_ID as int, 0) as u32),
        path: match text_at(d, F_FILE_PATH as int) {
            Some(p) => p,
            None => Seq::empty(),
        },
        hash: match text_at(d, F_FILE_HASH as int) {
            Some(h) => h,
            None => Seq::empty(),
        },
        timestamp: num_or(d, F_FILE_TIMESTAMP as int, 0),
    }
}

/// The first of the positions whose document names no valid file number.
pub open spec fn first_bad_record(docs: Seq<StoredDocView>, at: Seq<int>, from: int) -> Option<int>
    decreases at.len() - from,
{
    if from < 0 || from >= at.len() {
        None
    } else if doc_file_id(docs[at[from]].doc) is None {
        Some(from)
    } else {
        first_bad_record(docs, at, from + 1)
    }
}

/// The result is the error of a record without a valid file number.
pub open spec fn invalid_file_id<T>(r: StorageResult<T>) -> bool {
    r matches Err(StorageError::InvalidFieldValue { field, reason }) && field@ == "file_id"@
        && reason@ == "not a valid u32"@
}

/// The records that the documents at the given positions describe.
pub open spec fn records_at(docs: Seq<StoredDocView>, at: Seq<int>) -> Seq<FileRecordView> {
    Seq::new(at.len(), |k: int| doc_record(docs[at[k]].doc))
}

impl DocumentIndex {
    /// The number and the hash of the file at a path, where the index has a
    /// record of it.
    pub fn get_file_info(&self, path: &str) -> (r: StorageResult<Option<(FileId, String)>>)
        ensures
            found(self@.committed, file_by_path_terms(path@), 1).len() == 0 ==> (r matches Ok(None)),
            found(self@.committed, file_by_path_terms(path@), 1).len() > 0 ==> file_info_read(
                self@.committed[found(self@.committed, file_by_path_terms(path@), 1)[0]].doc,
                r,
            ),
    {
        let s = IndexSchema::handles();
        let docs = self.stored();
        let mut terms: Vec<Term> = Vec::new();
        terms.push(Term::text(s.doc_type, "file_info"));
        terms.push(Term::text(s.file_path, path));
        proof {
            assert(term_views(terms@) =~= file_by_path_terms(path@));
        }
        let at = lookup(docs, &terms, 1);
        if at.len() == 0 {
            return Ok(None);
        }
        let i = at[0];
        proof {
            assert(positions(at@)[0] == i as int);
            assert(stored_views(docs@)[i as int] == docs@[i as int]@);
        }
        let doc = &docs[i].doc;
        let file_id = match doc.get_u64(s.file_id) {
            Some(n) => FileId::new(#[verifier::truncate] (n as u32)),
            None => None,
        };
        let file_id = match file_id {
            Some(f) => f,
            None => {
                return Err(
                    StorageError::InvalidFieldValue {
                        field: "file_id".to_owned(),
                        reason: "not a valid u32".to_owned(),
                    },
                );
            },
        };
        match doc.get_text(s.file_hash) {
            Some(h) => Ok(Some((file_id, h.to_owned()))),
            None => Err(
                StorageError::InvalidFieldValue {
                    field: "file_hash".to_owned(),
                    reason: "missing from document".to_owned(),
                },
            ),
        }
    }

    /// The path of the file with a number, where the index has a record of
    /// it that names a path.
    pub fn get_file_path(&self, file_id: FileId) -> (r: StorageResult<Option<String>>)
        ensures
            r is Ok,
            found(self@.committed, file_by_id_terms(file_id), 1).len() == 0 ==> r->Ok_0 is None,
            found(self@.committed, file_by_id_terms(file_id), 1).len() > 0 ==> crate::text::opt_view(
                r->Ok_0,
            ) == text_at(
                self@.committed[found(self@.committed, file_by_id_terms(file_id), 1)[0]].doc,
                F_FILE_PATH as int,
            ),
    {
        let s = IndexSchema::handles();
        let docs = self.stored();
        let mut terms: Vec<Term> = Vec::new();
        terms.push(Term::text(s.doc_type, "file_info"));
        terms.push(Term::num(s.file_id, file_id.value() as u64));
        proof {
            assert(term_views(terms@) =~= file_by_id_terms(file_id));
        }
        let at = lookup(docs, &terms, 1);
        if at.len() == 0 {
            return Ok(None);
        }
        let i = at[0];
        proof {
            assert(positions(at@)[0] == i as int);
            assert(stored_views(docs@)[i as int] == docs@[i as int]@);
        }
        Ok(opt_to_owned(docs[i].doc.get_text(s.file_path)))
    }

    /// The paths of all files that the index has a record of, in the order
    /// of the store; at most a hundred thousand records are read.
    pub fn get_all_indexed_paths(&self) -> (r: StorageResult<Vec<String>>)
        ensures
            r is Ok,
            path_views(r->Ok_0@) == paths_at(
                self@.committed,
                found(self@.committed, seq![type_term("file_info"@)], 100000),
                found(self@.committed, seq![type_term("file_info"@)], 100000).len() as int,
            ),
    {
        let s = IndexSchema::handles();
        let docs = self.stored();
        let mut terms: Vec<Term> = Vec::new();
        terms.push(Term::text(s.doc_type, "file_info"));
        proof {
            assert(term_views(terms@) =~= seq![type_term("file_info"@)]);
        }
        let at = lookup(docs, &terms, 100000);
        let ghost dv = stored_views(docs@);
        let ghost hits = found(dv, seq![type_term("file_info"@)], 100000);
        let mut out: Vec<String> = Vec::new();
        let mut k: usize = 0;
        while k < at.len()
            invariant
                k <= at.len(),
                s == IndexSchema::spec_handles(),
                dv == stored_views(docs@),
                positions(at@) == hits,
                forall|j: int| 0 <= j < at@.len() ==> #[trigger] at@[j] < docs@.len(),
                path_views(out@) == paths_at(dv, hits, k as int),
            decreases at.len() - k,
        {
            let i = at[k];
            proof {
                assert(positions(at@)[k as int] == i as int);
                assert(dv[i as int] == docs@[i as int]@);
            }
            match docs[i].doc.get_text(s.file_path) {
                Some(p) => {
                    let ghost prev = path_views(out@);
                    out.push(p.to_owned());
                    proof {
                        assert(path_views(out@) =~= prev.push(p@));
                    }
                },
                None => {},
            }
            k = k + 1;
        }
        Ok(out)
    }

    /// Every relationship of a known kind, with its ends, weight and
    /// metadata, in the order of the store; at most a million documents are
    /// read.
    pub fn query_relationships(&self) -> (r: StorageResult<Vec<(SymbolId, SymbolId, Relationship)>>)
        ensures
            r is Ok,
            edge_views(r->Ok_0@) == known_edges_at(
                self@.committed,
                found(self@.committed, seq![type_term("relationship"@)], 1000000),
                found(self@.committed, seq![type_term("relationship"@)], 1000000).len() as int,
            ),
    {
        let s = IndexSchema::handles();
        let docs = self.stored();
        let mut terms: Vec<Term> = Vec::new();
        terms.push(Term::text(s.doc_type, "relationship"));
        proof {
            assert(term_views(terms@) =~= seq![type_term("relationship"@)]);
        }
        let at = lookup(docs, &terms, 1000000);
        let ghost dv = stored_views(docs@);
        let ghost hits = found(dv, seq![type_term("relationship"@)], 1000000);
        let mut out: Vec<(SymbolId, SymbolId, Relationship)> = Vec::new();
        let mut k: usize = 0;
        while k < at.len()
            invariant
                k <= at.len(),
                s == IndexSchema::spec_handles(),
                dv == stored_views(docs@),
                positions(at@) == hits,
                forall|j: int| 0 <= j < at@.len() ==> #[trigger] at@[j] < docs@.len(),
                edge_views(out@) == known_edges_at(dv, hits, k as int),
            decreases at.len() - k,
        {
            let i = at[k];
            proof {
                assert(positions(at@)[k as int] == i as int);
                assert(dv[i as int] == docs@[i as int]@);
            }
            let kind = match docs[i].doc.get_text(s.relation_kind) {
                Some(name) => RelationKind::parse(name),
                None => None,
            };
            match kind {
                Some(kind) => {
                    let ghost prev = edge_views(out@);
                    let edge = document_to_relationship(&docs[i].doc, kind);
                    let ghost ev = (edge.0, edge.1, edge.2@);
                    out.push(edge);
                    proof {
                        assert(edge_views(out@) =~= prev.push(ev));
                    }
                },
                None => {},
            }
            k = k + 1;
        }
        Ok(out)
    }

    /// The record of every file, in the order of the store; at most a
    /// hundred thousand records are read. A record without a valid file
    /// number makes the whole read fail.
    pub fn query_file_info(&self) -> (r: StorageResult<Vec<FileRecord>>)
        ensures
            first_bad_record(
                self@.committed,
                found(self@.committed, seq![type_term("file_info"@)], 100000),
                0,
            ) is Some ==> invalid_file_id(r),
            first_bad_record(
                self@.committed,
                found(self@.committed, seq![type_term("file_info"@)], 100000),
                0,
            ) is None ==> r is Ok && record_views(r->Ok_0@) == records_at(
                self@.committed,
                found(self@.committed, seq![type_term("file_info"@)], 100000),
            ),
    {
        let s = IndexSchema::handles();
        let docs = self.stored();
        let mut terms: Vec<Term> = Vec::new();
        terms.push(Term::text(s.doc_type, "file_info"));
        proof {
            assert(term_views(terms@) =~= seq![type_term("file_info"@)]);
        }
        let at = lookup(docs, &terms, 100000);
        let ghost dv = stored_views(docs@);
        let ghost hits = found(dv, seq![type_term("file_info"@)], 100000);
        let mut out: Vec<FileRecord> = Vec::new();
        let mut k: usize = 0;
        while k < at.len()
            invariant
                k <= at.len(),
                s == IndexSchema::spec_handles(),
                dv == stored_views(docs@),
                positions(at@) == hits,
                forall|j: int| 0 <= j < at@.len() ==> #[trigger] at@[j] < docs@.len(),
                first_bad_record(dv, hits, 0) == first_bad_record(dv, hits, k as int),
                dv == self@.committed,
                hits == found(dv, seq![type_term("file_info"@)], 100000),
                out@.len() == k,
                forall|j: int| 0 <= j < k ==> (#[trigger] out@[j])@ == doc_record(dv[hits[j]].doc),
            decreases at.len() - k,
        {
            let i = at[k];
            proof {
                assert(positions(at@)[k as int] == i as int);
                assert(dv[i as int] == docs@[i as int]@);
            }
            let doc = &docs[i].doc;
            let number = match doc.get_u64(s.file_id) {
                Some(n) => #[verifier::truncate]
                (n as u32),
                None => 0,
            };
            proof {
                assert(hits[k as int] == i as int);
                assert((number == 0) == (doc_file_id(dv[hits[k as int]].doc) is None));
            }
            let file_id = match FileId::new(number) {
                Some(f) => f,
                None => {
                    return Err(
                        StorageError::InvalidFieldValue {
                            field: "file_id".to_owned(),
                            reason: "not a valid u32".to_owned(),
                        },
                    );
                },
            };
            let path = match doc.get_text(s.file_path) {
                Some(p) => p.to_owned(),
                None => String::new(),
            };
            let hash = match doc.get_text(s.file_hash) {
                Some(h) => h.to_owned(),
                None => String::new(),
            };
            let timestamp = match doc.get_u64(s.file_timestamp) {
                Some(t) => t,
                None => 0,
            };
            out.push(FileRecord { file_id, path, hash, timestamp });
            k = k + 1;
        }
        proof {
            assert(record_views(out@) =~= records_at(dv, hits));
        }
        Ok(out)
    }

    /// The number of symbol documents.
    pub fn count_symbol_documents(&self) -> (r: StorageResult<u64>)
        ensures
            r is Ok,
            r->Ok_0 as nat == all_hits(self@.committed, seq![type_term("symbol"@)]).len(),
    {
        Ok(self.count_type("symbol") as u64)
    }
}

} // verus!
