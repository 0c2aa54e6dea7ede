//! The shapes of documents: how symbols, relationships, files, imports and
//! metadata are written as documents and read back.

use vstd::prelude::*;
use crate::error::StorageError;
use crate::parsing::{Import, ImportView};
use crate::relationship::{
    lemma_relation_name_round_trip,
    RelationKind,
    Relationship,
    RelationshipMetadata,
    RelationshipMetadataView,
    RelationshipView,
    DEFAULT_WEIGHT_BITS,
};
use crate::storage::document::{
    empty_doc,
    is_import_doc,
    is_relationship_doc,
    is_symbol_doc,
    num_at,
    real_at,
    set_num,
    set_opt_num,
    set_opt_text,
    set_real,
    set_text,
    text_at,
    DocView,
    Document,
    MetadataKey,
};
use crate::storage::schema::{
    Field,
    IndexSchema,
    NUM_FIELDS,
    F_DOC_TYPE,
    F_SYMBOL_ID,
    F_FILE_PATH,
    F_LINE_NUMBER,
    F_COLUMN,
    F_END_LINE,
    F_END_COLUMN,
    F_NAME,
    F_NAME_TEXT,
    F_DOC_COMMENT,
    F_SIGNATURE,
    F_CONTEXT,
    F_MODULE,
    F_KIND,
    F_VISIBILITY,
    F_SCOPE_CONTEXT,
    F_LANGUAGE,
    F_FROM_SYMBOL_ID,
    F_TO_SYMBOL_ID,
    F_RELATION_KIND,
    F_RELATION_WEIGHT,
    F_RELATION_LINE,
    F_RELATION_COLUMN,
    F_RELATION_CONTEXT,
    F_FILE_ID,
    F_FILE_HASH,
    F_FILE_TIMESTAMP,
    F_META_KEY,
    F_META_VALUE,
    F_CLUSTER_ID,
    F_VECTOR_ID,
    F_HAS_VECTOR,
    F_IMPORT_FILE_ID,
    F_IMPORT_PATH,
    F_IMPORT_ALIAS,
    F_IMPORT_IS_GLOB,
    F_IMPORT_IS_TYPE_ONLY,
};
use crate::symbol::{
    lemma_scope_text_round_trip,
    opt_scope_view,
    scope_of_text,
    scope_text,
    LanguageId,
    ScopeContext,
    ScopeContextView,
    Symbol,
    SymbolView,
    Visibility,
};
use crate::text::opt_to_owned;
use crate::types::{lemma_kind_name_round_trip, FileId, Range, SymbolId, SymbolKind};

verus! {

/// The characters of an optional string slice.
pub open spec fn opt_str_view(o: Option<&str>) -> Option<Seq<char>> {
    match o {
        Some(s) => Some(s@),
        None => None,
    }
}

/// What is written of a symbol into its document.
pub struct SymbolEntry {
    pub id: SymbolId,
    pub name: Seq<char>,
    pub kind: SymbolKind,
    pub file_id: FileId,
    pub file_path: Seq<char>,
    pub range: Range,
    pub doc_comment: Option<Seq<char>>,
    pub signature: Option<Seq<char>>,
    pub module: Seq<char>,
    pub context: Option<Seq<char>>,
    pub visibility: Visibility,
    pub scope: Option<ScopeContextView>,
    pub language: Option<Seq<char>>,
}

/// The text under which an optional scope is stored.
pub open spec fn stored_scope_text(scope: Option<ScopeContextView>) -> Seq<char> {
    match scope {
        Some(s) => scope_text(s),
        None => "None"@,
    }
}

/// The text under which an optional language is stored.
pub open spec fn stored_language(language: Option<Seq<char>>) -> Seq<char> {
    match language {
        Some(l) => l,
        None => Seq::empty(),
    }
}

/// The fields that every symbol document holds.
pub open spec fn symbol_doc_base(e: SymbolEntry) -> DocView {
    let d = set_text(empty_doc(), F_DOC_TYPE as int, "symbol"@);
    let d = set_num(d, F_SYMBOL_ID as int, e.id.0 as u64);
    let d = set_num(d, F_FILE_ID as int, e.file_id.0 as u64);
    let d = set_text(d, F_NAME as int, e.name);
    let d = set_text(d, F_NAME_TEXT as int, e.name);
    let d = set_text(d, F_FILE_PATH as int, e.file_path);
    let d = set_num(d, F_LINE_NUMBER as int, e.range.start_line as u64);
    let d = set_num(d, F_COLUMN as int, e.range.start_column as u64);
    let d = set_num(d, F_END_LINE as int, e.range.end_line as u64);
    let d = set_num(d, F_END_COLUMN as int, e.range.end_column as u64);
    let d = set_opt_text(d, F_DOC_COMMENT as int, e.doc_comment);
    let d = set_opt_text(d, F_SIGNATURE as int, e.signature);
    let d = set_opt_text(d, F_CONTEXT as int, e.context);
    let d = set_text(d, F_MODULE as int, e.module);
    let d = set_text(d, F_KIND as int, e.kind.spec_name());
    let d = set_num(d, F_VISIBILITY as int, e.visibility.spec_code());
    let d = set_text(d, F_SCOPE_CONTEXT as int, stored_scope_text(e.scope));
    set_text(d, F_LANGUAGE as int, stored_language(e.language))
}

/// The document of a symbol. With vector support the document also says
/// that the symbol has no vector and no cluster yet, and names the vector
/// that will be made for it.
pub open spec fn symbol_doc(e: SymbolEntry, with_vector: bool) -> DocView {
    let d = symbol_doc_base(e);
    if with_vector {
        let d = set_num(d, F_CLUSTER_ID as int, 0);
        let d = set_num(d, F_VECTOR_ID as int, e.id.0 as u64);
        set_num(d, F_HAS_VECTOR as int, 0)
    } else {
        d
    }
}

/// The number of a field, or `default` where the document has none.
pub open spec fn num_or(d: DocView, f: int, default: u64) -> u64 {
    match num_at(d, f) {
        Some(n) => n,
        None => default,
    }
}

/// The symbol that a document describes, or the name of the first required
/// field that the document lacks.
pub open spec fn doc_symbol(d: DocView) -> Result<SymbolView, Seq<char>> {
    if num_at(d, F_SYMBOL_ID as int) is None {
        Err("symbol_id"@)
    } else if text_at(d, F_NAME as int) is None {
        Err("name"@)
    } else if text_at(d, F_KIND as int) is None {
        Err("kind"@)
    } else if num_at(d, F_FILE_ID as int) is None {
        Err("file_id"@)
    } else {
        let start_line = num_or(d, F_LINE_NUMBER as int, 0) as u32;
        Ok(
            SymbolView {
                id: SymbolId(num_at(d, F_SYMBOL_ID as int)->0 as u32),
                name: text_at(d, F_NAME as int)->0,
                kind: match SymbolKind::spec_parse(text_at(d, F_KIND as int)->0) {
                    Some(k) => k,
                    None => SymbolKind::Function,
                },
                file_id: FileId(num_at(d, F_FILE_ID as int)->0 as u32),
                range: Range {
                    start_line,
                    start_column: num_or(d, F_COLUMN as int, 0) as u16,
                    end_line: num_or(d, F_END_LINE as int, start_line as u64) as u32,
                    end_column: num_or(d, F_END_COLUMN as int, 0) as u16,
                },
                file_path: match text_at(d, F_FILE_PATH as int) {
                    Some(p) => p,
                    None => "<unknown>"@,
                },
                signature: text_at(d, F_SIGNATURE as int),
                doc_comment: text_at(d, F_DOC_COMMENT as int),
                module: text_at(d, F_MODULE as int),
                visibility: match num_at(d, F_VISIBILITY as int) {
                    Some(v) => Visibility::spec_from_code(v),
                    None => Visibility::Private,
                },
                scope_context: match text_at(d, F_SCOPE_CONTEXT as int) {
                    Some(s) => scope_of_text(s),
                    None => None,
                },
                language_id: match text_at(d, F_LANGUAGE as int) {
                    Some(l) => if l.len() > 0 {
                        Some(l)
                    } else {
                        None
                    },
                    None => None,
                },
            },
        )
    }
}

/// The symbol that is read back from the document of an entry.
pub open spec fn entry_symbol(e: SymbolEntry) -> SymbolView {
    SymbolView {
        id: e.id,
        name: e.name,
        kind: e.kind,
        file_id: e.file_id,
        range: e.range,
        file_path: e.file_path,
        signature: e.signature,
        doc_comment: e.doc_comment,
        module: Some(e.module),
        visibility: e.visibility,
        scope_context: e.scope,
        language_id: match e.language {
            Some(l) => if l.len() > 0 {
                Some(l)
            } else {
                None
            },
            None => None,
        },
    }
}

/// A symbol written as a document is read back as it was written: every
/// field is kept, the name verbatim.
pub proof fn lemma_symbol_round_trip(e: SymbolEntry, with_vector: bool)
    ensures
        doc_symbol(symbol_doc(e, with_vector)) == Ok::<SymbolView, Seq<char>>(entry_symbol(e)),
        is_symbol_doc(symbol_doc(e, with_vector)),
        text_at(symbol_doc(e, with_vector), F_NAME as int) == Some(e.name),
        num_at(symbol_doc(e, with_vector), F_SYMBOL_ID as int) == Some(e.id.0 as u64),
        num_at(symbol_doc(e, with_vector), F_FILE_ID as int) == Some(e.file_id.0 as u64),
        text_at(symbol_doc(e, with_vector), F_FILE_PATH as int) == Some(e.file_path),
        text_at(symbol_doc(e, with_vector), F_LANGUAGE as int) == Some(stored_language(e.language)),
        num_at(symbol_doc(e, with_vector), F_HAS_VECTOR as int) != Some(1u64),
{
    lemma_kind_name_round_trip(e.kind);
    match e.scope {
        Some(s) => {
            lemma_scope_text_round_trip(s);
        },
        None => {
            reveal_strlit("None");
            reveal_strlit("Module");
            reveal_strlit("Global");
            reveal_strlit("Package");
            reveal_strlit("Parameter");
            reveal_strlit("ClassMember");
            assert("None"@.len() == 4);
            assert("Module"@.len() == 6);
            assert("Global"@.len() == 6);
            assert("Package"@.len() == 7);
            assert("Parameter"@.len() == 9);
            assert("ClassMember"@.len() == 11);
            assert(scope_of_text("None"@) is None);
        },
    }
    let d = symbol_doc(e, with_vector);
    assert(d.len() == NUM_FIELDS);
    assert(Visibility::spec_from_code(e.visibility.spec_code()) == e.visibility);
    assert(doc_symbol(d)->Ok_0.range == e.range);
    assert(doc_symbol(d)->Ok_0 == entry_symbol(e));
}

// ---------------------------------------------------------------------------
// Relationships
// ---------------------------------------------------------------------------

/// The document of a relationship from one symbol to another.
pub open spec fn relationship_doc(from: SymbolId, to: SymbolId, rel: RelationshipView) -> DocView {
    let d = set_text(empty_doc(), F_DOC_TYPE as int, "relationship"@);
    let d = set_num(d, F_FROM_SYMBOL_ID as int, from.0 as u64);
    let d = set_num(d, F_TO_SYMBOL_ID as int, to.0 as u64);
    let d = set_text(d, F_RELATION_KIND as int, rel.kind.spec_name());
    let d = set_real(d, F_RELATION_WEIGHT as int, rel.weight_bits);
    match rel.metadata {
        Some(m) => {
            let d = set_opt_num(
                d,
                F_RELATION_LINE as int,
                match m.line {
                    Some(l) => Some(l as u64),
                    None => None,
                },
            );
            let d = set_opt_num(
                d,
                F_RELATION_COLUMN as int,
                match m.column {
                    Some(c) => Some(c as u64),
                    None => None,
                },
            );
            set_opt_text(d, F_RELATION_CONTEXT as int, m.context)
        },
        None => d,
    }
}

/// The position and context that a relationship document holds; nothing
/// where it holds none of the three.
pub open spec fn doc_relationship_metadata(d: DocView) -> Option<RelationshipMetadataView> {
    if num_at(d, F_RELATION_LINE as int) is None && num_at(d, F_RELATION_COLUMN as int) is None
        && text_at(d, F_RELATION_CONTEXT as int) is None {
        None
    } else {
        Some(
            RelationshipMetadataView {
                line: match num_at(d, F_RELATION_LINE as int) {
                    Some(l) => Some(l as u32),
                    None => None,
                },
                column: match num_at(d, F_RELATION_COLUMN as int) {
                    Some(c) => Some(c as u16),
                    None => None,
                },
                context: text_at(d, F_RELATION_CONTEXT as int),
            },
        )
    }
}

/// The relationship of kind `kind` that a document describes: its weight,
/// one where none is stored, and its metadata.
pub open spec fn doc_relationship(d: DocView, kind: RelationKind) -> RelationshipView {
    RelationshipView {
        kind,
        weight_bits: match real_at(d, F_RELATION_WEIGHT as int) {
            Some(b) => b,
            None => DEFAULT_WEIGHT_BITS,
        },
        metadata: doc_relationship_metadata(d),
    }
}

/// The symbol at the start of a relationship document.
pub open spec fn doc_from(d: DocView) -> SymbolId {
    SymbolId(num_or(d, F_FROM_SYMBOL_ID as int, 0) as u32)
}

/// The symbol at the end of a relationship document.
pub open spec fn doc_to(d: DocView) -> SymbolId {
    SymbolId(num_or(d, F_TO_SYMBOL_ID as int, 0) as u32)
}

/// The position and context of optional metadata, absent metadata counting
/// as metadata that says nothing.
pub open spec fn metadata_content(m: Option<RelationshipMetadataView>) -> RelationshipMetadataView {
    match m {
        Some(v) => v,
        None => RelationshipMetadataView { line: None, column: None, context: None },
    }
}

/// A relationship written as a document is read back with the same ends,
/// kind, weight, line, column and context.
pub proof fn lemma_relationship_round_trip(from: SymbolId, to: SymbolId, rel: RelationshipView)
    ensures
        is_relationship_doc(relationship_doc(from, to, rel)),
        doc_from(relationship_doc(from, to, rel)) == from,
        doc_to(relationship_doc(from, to, rel)) == to,
        text_at(relationship_doc(from, to, rel), F_RELATION_KIND as int) == Some(
            rel.kind.spec_name(),
        ),
        RelationKind::spec_parse(rel.kind.spec_name()) == Some(rel.kind),
        doc_relationship(relationship_doc(from, to, rel), rel.kind).kind == rel.kind,
        doc_relationship(relationship_doc(from, to, rel), rel.kind).weight_bits == rel.weight_bits,
        metadata_content(doc_relationship(relationship_doc(from, to, rel), rel.kind).metadata)
            == metadata_content(rel.metadata),
{
    lemma_relation_name_round_trip(rel.kind);
    let d = relationship_doc(from, to, rel);
    assert(d.len() == NUM_FIELDS);
}

// ---------------------------------------------------------------------------
// Files, imports, metadata
// ---------------------------------------------------------------------------

/// The document of an indexed file.
pub open spec fn file_info_doc(file_id: FileId, path: Seq<char>, hash: Seq<char>, timestamp: u64) -> DocView {
    let d = set_text(empty_doc(), F_DOC_TYPE as int, "file_info"@);
    let d = set_num(d, F_FILE_ID as int, file_id.0 as u64);
    let d = set_text(d, F_FILE_PATH as int, path);
    let d = set_text(d, F_FILE_HASH as int, hash);
    set_num(d, F_FILE_TIMESTAMP as int, timestamp)
}

/// The number under which a flag is stored.
pub open spec fn flag(b: bool) -> u64 {
    if b {
        1
    } else {
        0
    }
}

/// The document of an import.
pub open spec fn import_doc(i: ImportView) -> DocView {
    let d = set_text(empty_doc(), F_DOC_TYPE as int, "import"@);
    let d = set_num(d, F_IMPORT_FILE_ID as int, i.file_id.0 as u64);
    let d = set_text(d, F_IMPORT_PATH as int, i.path);
    let d = set_opt_text(d, F_IMPORT_ALIAS as int, i.alias);
    let d = set_num(d, F_IMPORT_IS_GLOB as int, flag(i.is_glob));
    set_num(d, F_IMPORT_IS_TYPE_ONLY as int, flag(i.is_type_only))
}

/// The import of file `file_id` that a document describes.
pub open spec fn doc_import(d: DocView, file_id: FileId) -> ImportView {
    ImportView {
        path: match text_at(d, F_IMPORT_PATH as int) {
            Some(p) => p,
            None => Seq::empty(),
        },
        alias: text_at(d, F_IMPORT_ALIAS as int),
        file_id,
        is_glob: num_at(d, F_IMPORT_IS_GLOB as int) == Some(1u64),
        is_type_only: num_at(d, F_IMPORT_IS_TYPE_ONLY as int) == Some(1u64),
    }
}

/// An import written as a document is read back unchanged: path, alias and
/// both flags.
pub proof fn lemma_import_round_trip(i: ImportView)
    ensures
        is_import_doc(import_doc(i)),
        num_at(import_doc(i), F_IMPORT_FILE_ID as int) == Some(i.file_id.0 as u64),
        text_at(import_doc(i), F_IMPORT_PATH as int) is Some,
        doc_import(import_doc(i), i.file_id) == i,
{
    let d = import_doc(i);
    assert(d.len() == NUM_FIELDS);
}

/// The document of a metadata entry.
pub open spec fn metadata_doc(key: Seq<char>, value: u64) -> DocView {
    let d = set_text(empty_doc(), F_DOC_TYPE as int, "metadata"@);
    let d = set_text(d, F_META_KEY as int, key);
    set_num(d, F_META_VALUE as int, value)
}

// ---------------------------------------------------------------------------
// Writing
// ---------------------------------------------------------------------------

fn set_opt(doc: &mut Document, field: Field, text: Option<&str>)
    requires
        old(doc).wf(),
        field.spec_index() < NUM_FIELDS,
    ensures
        final(doc).wf(),
        final(doc)@ == set_opt_text(old(doc)@, field.spec_index(), opt_str_view(text)),
{
    match text {
        Some(t) => {
            doc.add_text(field, t);
        },
        None => {},
    }
}

/// Writes a symbol as a document.
pub fn symbol_document(
    symbol_id: SymbolId,
    name: &str,
    kind: SymbolKind,
    file_id: FileId,
    file_path: &str,
    range: Range,
    doc_comment: Option<&str>,
    signature: Option<&str>,
    module: &str,
    context: Option<&str>,
    visibility: Visibility,
    scope_context: &Option<ScopeContext>,
    language_id: Option<&str>,
    with_vector: bool,
) -> (doc: Document)
    ensures
        doc.wf(),
        doc@ == symbol_doc(
            SymbolEntry {
                id: symbol_id,
                name: name@,
                kind,
                file_id,
                file_path: file_path@,
                range,
                doc_comment: opt_str_view(doc_comment),
                signature: opt_str_view(signature),
                module: module@,
                context: opt_str_view(context),
                visibility,
                scope: opt_scope_view(*scope_context),
                language: opt_str_view(language_id),
            },
            with_vector,
        ),
{
    let s = IndexSchema::handles();
    let mut doc = Document::new();
    doc.add_text(s.doc_type, "symbol");
    doc.add_u64(s.symbol_id, symbol_id.value() as u64);
    doc.add_u64(s.file_id, file_id.value() as u64);
    doc.add_text(s.name, name);
    doc.add_text(s.name_text, name);
    doc.add_text(s.file_path, file_path);
    doc.add_u64(s.line_number, range.start_line as u64);
    doc.add_u64(s.column, range.start_column as u64);
    doc.add_u64(s.end_line, range.end_line as u64);
    doc.add_u64(s.end_column, range.end_column as u64);
    set_opt(&mut doc, s.doc_comment, doc_comment);
    set_opt(&mut doc, s.signature, signature);
    set_opt(&mut doc, s.context, context);
    doc.add_text(s.module, module);
    doc.add_text(s.kind, kind.name());
    doc.add_u64(s.visibility, visibility.code());
    match scope_context {
        Some(scope) => {
            let text = scope.to_text();
            doc.add_text(s.scope_context, text.as_str());
        },
        None => {
            doc.add_text(s.scope_context, "None");
        },
    }
    match language_id {
        Some(lang) => {
            doc.add_text(s.language, lang);
        },
        None => {
            doc.add_text(s.language, "");
            proof {
                reveal_strlit("");
                assert(""@ =~= Seq::<char>::empty());
            }
        },
    }
    if with_vector {
        doc.add_u64(s.cluster_id, 0);
        doc.add_u64(s.vector_id, symbol_id.value() as u64);
        doc.add_u64(s.has_vector, 0);
    }
    doc
}

/// Writes a relationship as a document.
pub fn relationship_document(from: SymbolId, to: SymbolId, rel: &Relationship) -> (doc: Document)
    ensures
        doc.wf(),
        doc@ == relationship_doc(from, to, rel@),
{
    let s = IndexSchema::handles();
    let mut doc = Document::new();
    doc.add_text(s.doc_type, "relationship");
    doc.add_u64(s.from_symbol_id, from.value() as u64);
    doc.add_u64(s.to_symbol_id, to.value() as u64);
    doc.add_text(s.relation_kind, rel.kind.name());
    doc.add_real(s.relation_weight, rel.weight_bits);
    match &rel.metadata {
        Some(m) => {
            match m.line {
                Some(l) => {
                    doc.add_u64(s.relation_line, l as u64);
                },
                None => {},
            }
            match m.column {
                Some(c) => {
                    doc.add_u64(s.relation_column, c as u64);
                },
                None => {},
            }
            match &m.context {
                Some(c) => {
                    doc.add_text(s.relation_context, c.as_str());
                },
                None => {},
            }
        },
        None => {},
    }
    doc
}

/// Writes the record of an indexed file as a document.
pub fn file_info_document(file_id: FileId, path: &str, hash: &str, timestamp: u64) -> (doc:
    Document)
    ensures
        doc.wf(),
        doc@ == file_info_doc(file_id, path@, hash@, timestamp),
{
    let s = IndexSchema::handles();
    let mut doc = Document::new();
    doc.add_text(s.doc_type, "file_info");
    doc.add_u64(s.file_id, file_id.value() as u64);
    doc.add_text(s.file_path, path);
    doc.add_text(s.file_hash, hash);
    doc.add_u64(s.file_timestamp, timestamp);
    doc
}

/// Writes an import as a document.
pub fn import_document(import: &Import) -> (doc: Document)
    ensures
        doc.wf(),
        doc@ == import_doc(import@),
{
    let s = IndexSchema::handles();
    let mut doc = Document::new();
    doc.add_text(s.doc_type, "import");
    doc.add_u64(s.import_file_id, import.file_id.value() as u64);
    doc.add_text(s.import_path, import.path.as_str());
    match &import.alias {
        Some(a) => {
            doc.add_text(s.import_alias, a.as_str());
        },
        None => {},
    }
    doc.add_u64(
        s.import_is_glob,
        if import.is_glob {
            1
        } else {
            0
        },
    );
    doc.add_u64(
        s.import_is_type_only,
        if import.is_type_only {
            1
        } else {
            0
        },
    );
    doc
}

/// Writes a metadata entry as a document.
pub fn metadata_document(key: MetadataKey, value: u64) -> (doc: Document)
    ensures
        doc.wf(),
        doc@ == metadata_doc(key.spec_as_str(), value),
{
    let s = IndexSchema::handles();
    let mut doc = Document::new();
    doc.add_text(s.doc_type, "metadata");
    doc.add_text(s.meta_key, key.as_str());
    doc.add_u64(s.meta_value, value);
    doc
}

// ---------------------------------------------------------------------------
// Reading
// ---------------------------------------------------------------------------

fn missing(field: &str) -> (r: StorageError)
    ensures
        r matches StorageError::InvalidFieldValue { field: f, reason } && f@ == field@ && reason@
            == "missing from document"@,
{
    StorageError::InvalidFieldValue {
        field: field.to_owned(),
        reason: "missing from document".to_owned(),
    }
}

/// The outcome of reading a symbol: the symbol, or an error that names the
/// first required field that the document lacks.
pub open spec fn symbol_read(d: DocView, r: Result<Symbol, StorageError>) -> bool {
    match doc_symbol(d) {
        Ok(v) => r is Ok && r->Ok_0@ == v,
        Err(f) => r matches Err(StorageError::InvalidFieldValue { field, reason }) && field@ == f
            && reason@ == "missing from document"@,
    }
}

/// Reads a symbol from a document. The identifier, the name, the kind and
/// the file are required; every other field has a default.
pub fn document_to_symbol(doc: &Document) -> (r: Result<Symbol, StorageError>)
    ensures
        symbol_read(doc@, r),
{
    let s = IndexSchema::handles();
    let symbol_id = match doc.get_u64(s.symbol_id) {
        Some(n) => n,
        None => {
            return Err(missing("symbol_id"));
        },
    };
    let name = match doc.get_text(s.name) {
        Some(t) => t.to_owned(),
        None => {
            return Err(missing("name"));
        },
    };
    let kind = match doc.get_text(s.kind) {
        Some(t) => SymbolKind::from_str_with_default(t),
        None => {
            return Err(missing("kind"));
        },
    };
    let file_id = match doc.get_u64(s.file_id) {
        Some(n) => n,
        None => {
            return Err(missing("file_id"));
        },
    };
    let start_line = #[verifier::truncate]
    (match doc.get_u64(s.line_number) {
        Some(n) => n,
        None => 0,
    } as u32);
    let start_column = #[verifier::truncate]
    (match doc.get_u64(s.column) {
        Some(n) => n,
        None => 0,
    } as u16);
    let end_line = #[verifier::truncate]
    (match doc.get_u64(s.end_line) {
        Some(n) => n,
        None => start_line as u64,
    } as u32);
    let end_column = #[verifier::truncate]
    (match doc.get_u64(s.end_column) {
        Some(n) => n,
        None => 0,
    } as u16);
    let signature = opt_to_owned(doc.get_text(s.signature));
    let doc_comment = opt_to_owned(doc.get_text(s.doc_comment));
    let module = opt_to_owned(doc.get_text(s.module));
    let visibility = match doc.get_u64(s.visibility) {
        Some(v) => Visibility::from_code(v),
        None => Visibility::Private,
    };
    let scope_context = match doc.get_text(s.scope_context) {
        Some(t) => ScopeContext::from_text(t),
        None => None,
    };
    let file_path = match doc.get_text(s.file_path) {
        Some(p) => p.to_owned(),
        None => "<unknown>".to_owned(),
    };
    let language_id = match doc.get_text(s.language) {
        Some(l) => if l.unicode_len() > 0 {
            Some(LanguageId::new(l))
        } else {
            None
        },
        None => None,
    };
    let symbol = Symbol {
        id: SymbolId(#[verifier::truncate] (symbol_id as u32)),
        name,
        kind,
        file_id: FileId(#[verifier::truncate] (file_id as u32)),
        range: Range { start_line, start_column, end_line, end_column },
        file_path,
        signature,
        doc_comment,
        module,
        visibility,
        scope_context,
        language_id,
    };
    proof {
        assert(symbol@ == doc_symbol(doc@)->Ok_0);
    }
    Ok(symbol)
}

/// Reads the relationship of kind `kind` that a document describes, with
/// its two ends.
pub fn document_to_relationship(doc: &Document, kind: RelationKind) -> (r: (
    SymbolId,
    SymbolId,
    Relationship,
))
    ensures
        r.0 == doc_from(doc@),
        r.1 == doc_to(doc@),
        r.2@ == doc_relationship(doc@, kind),
{
    let s = IndexSchema::handles();
    let from = match doc.get_u64(s.from_symbol_id) {
        Some(n) => n,
        None => 0,
    };
    let to = match doc.get_u64(s.to_symbol_id) {
        Some(n) => n,
        None => 0,
    };
    let weight_bits = match doc.get_real(s.relation_weight) {
        Some(b) => b,
        None => DEFAULT_WEIGHT_BITS,
    };
    let line = doc.get_u64(s.relation_line);
    let column = doc.get_u64(s.relation_column);
    let context = opt_to_owned(doc.get_text(s.relation_context));
    let metadata = if line.is_none() && column.is_none() && context.is_none() {
        None
    } else {
        Some(
            RelationshipMetadata {
                line: match line {
                    Some(l) => Some(#[verifier::truncate] (l as u32)),
                    None => None,
                },
                column: match column {
                    Some(c) => Some(#[verifier::truncate] (c as u16)),
                    None => None,
                },
                context,
            },
        )
    };
    (
        SymbolId(#[verifier::truncate] (from as u32)),
        SymbolId(#[verifier::truncate] (to as u32)),
        Relationship { kind, weight_bits, metadata },
    )
}

/// Reads the import of file `file_id` that a document describes.
pub fn document_to_import(doc: &Document, file_id: FileId) -> (r: Import)
    ensures
        r@ == doc_import(doc@, file_id),
{
    let s = IndexSchema::handles();
    let path = match doc.get_text(s.import_path) {
        Some(p) => p.to_owned(),
        None => String::new(),
    };
    let alias = opt_to_owned(doc.get_text(s.import_alias));
    let is_glob = doc.has_u64(s.import_is_glob, 1);
    let is_type_only = doc.has_u64(s.import_is_type_only, 1);
    Import { path, alias, file_id, is_glob, is_type_only }
}

} // verus!
