//! The schema of the document store: every field of every document shape,
//! with its type and whether it is stored, indexed and fast.

use vstd::prelude::*;
use crate::error::StorageError;
use crate::text::str_eq;

verus! {

/// The handle of a schema field: its position in the schema.
#[derive(Debug, Clone, Copy, PartialEq, Eq, Hash, Structural)]
pub struct Field(pub u32);

/// How the text of a field is cut into search terms.
#[derive(Debug, Clone, Copy, PartialEq, Eq, Structural)]
pub enum Tokenizer {
    /// Words: runs of letters and digits, in lower case.
    Default,
    /// Every run of 3 to 10 characters of the text.
    Ngram,
}

/// The type of a field's values.
#[derive(Debug, Clone, Copy, PartialEq, Eq, Structural)]
pub enum FieldType {
    /// Text matched as a whole, never cut into terms.
    Str,
    /// Text cut into terms by a tokenizer.
    Text(Tokenizer),
    /// An unsigned 64-bit number.
    U64,
    /// A real number, kept as its bit pattern.
    Real,
}

/// One field of the schema.
#[derive(Debug, Clone)]
pub struct FieldEntry {
    pub name: String,
    pub field_type: FieldType,
    pub stored: bool,
    pub indexed: bool,
    pub fast: bool,
}

/// The mathematical content of a [`FieldEntry`].
pub struct FieldEntryView {
    pub name: Seq<char>,
    pub field_type: FieldType,
    pub stored: bool,
    pub indexed: bool,
    pub fast: bool,
}

/// The fields of a store, in the order of their handles.
#[derive(Debug)]
pub struct Schema {
    pub entries: Vec<FieldEntry>,
}

/// The smallest and the largest length of an n-gram term.
pub const NGRAM_MIN: usize = 3;

pub const NGRAM_MAX: usize = 10;

/// The number of fields of the index schema.
pub const NUM_FIELDS: usize = 37;
pub const F_DOC_TYPE: usize = 0;
pub const F_SYMBOL_ID: usize = 1;
pub const F_FILE_PATH: usize = 2;
pub const F_LINE_NUMBER: usize = 3;
pub const F_COLUMN: usize = 4;
pub const F_END_LINE: usize = 5;
pub const F_END_COLUMN: usize = 6;
pub const F_NAME: usize = 7;
pub const F_NAME_TEXT: usize = 8;
pub const F_DOC_COMMENT: usize = 9;
pub const F_SIGNATURE: usize = 10;
pub const F_CONTEXT: usize = 11;
pub const F_MODULE: usize = 12;
pub const F_KIND: usize = 13;
pub const F_VISIBILITY: usize = 14;
pub const F_SCOPE_CONTEXT: usize = 15;
pub const F_LANGUAGE: usize = 16;
pub const F_FROM_SYMBOL_ID: usize = 17;
pub const F_TO_SYMBOL_ID: usize = 18;
pub const F_RELATION_KIND: usize = 19;
pub const F_RELATION_WEIGHT: usize = 20;
pub const F_RELATION_LINE: usize = 21;
pub const F_RELATION_COLUMN: usize = 22;
pub const F_RELATION_CONTEXT: usize = 23;
pub const F_FILE_ID: usize = 24;
pub const F_FILE_HASH: usize = 25;
pub const F_FILE_TIMESTAMP: usize = 26;
pub const F_META_KEY: usize = 27;
pub const F_META_VALUE: usize = 28;
pub const F_CLUSTER_ID: usize = 29;
pub const F_VECTOR_ID: usize = 30;
pub const F_HAS_VECTOR: usize = 31;
pub const F_IMPORT_FILE_ID: usize = 32;
pub const F_IMPORT_PATH: usize = 33;
pub const F_IMPORT_ALIAS: usize = 34;
pub const F_IMPORT_IS_GLOB: usize = 35;
pub const F_IMPORT_IS_TYPE_ONLY: usize = 36;

impl View for FieldEntry {
    type V = FieldEntryView;

    open spec fn view(&self) -> FieldEntryView {
        FieldEntryView {
            name: self.name@,
            field_type: self.field_type,
            stored: self.stored,
            indexed: self.indexed,
            fast: self.fast,
        }
    }
}

impl View for Schema {
    type V = Seq<FieldEntryView>;

    open spec fn view(&self) -> Seq<FieldEntryView> {
        Seq::new(self.entries@.len(), |i: int| self.entries@[i]@)
    }
}

impl Field {
    pub open spec fn spec_index(self) -> int {
        self.0 as int
    }

    /// The position of the field in its schema.
    pub fn field_id(&self) -> (r: u32)
        ensures
            r == self.0,
    {
        self.0
    }
}

impl FieldEntry {
    pub fn name(&self) -> (r: &str)
        ensures
            r@ == self@.name,
    {
        self.name.as_str()
    }

    pub fn field_type(&self) -> (r: FieldType)
        ensures
            r == self@.field_type,
    {
        self.field_type
    }

    /// Whether the field's value is kept and handed back with the document.
    pub fn is_stored(&self) -> (r: bool)
        ensures
            r == self@.stored,
    {
        self.stored
    }

    /// Whether documents can be found by the field's value.
    pub fn is_indexed(&self) -> (r: bool)
        ensures
            r == self@.indexed,
    {
        self.indexed
    }

    /// Whether the field's value can be read per document without loading
    /// the document.
    pub fn is_fast(&self) -> (r: bool)
        ensures
            r == self@.fast,
    {
        self.fast
    }
}

/// The position of the first entry named `name`, from `from` on.
pub open spec fn position_of(entries: Seq<FieldEntryView>, name: Seq<char>, from: int) -> Option<int>
    decreases entries.len() - from,
{
    if from < 0 || from >= entries.len() {
        None
    } else if entries[from].name == name {
        Some(from)
    } else {
        position_of(entries, name, from + 1)
    }
}

impl Schema {
    pub fn num_fields(&self) -> (r: usize)
        ensures
            r == self@.len(),
    {
        self.entries.len()
    }

    /// The handle of the field named `name`; an error names the field where
    /// the schema has none of that name.
    pub fn get_field(&self, name: &str) -> (r: Result<Field, StorageError>)
        requires
            self@.len() <= u32::MAX,
        ensures
            match position_of(self@, name@, 0) {
                Some(i) => r == Ok::<Field, StorageError>(Field(i as u32)),
                None => r matches Err(StorageError::InvalidFieldValue { field, reason })
                    && field@ == name@ && reason@ == "no such field in the schema"@,
            },
    {
        let mut i: usize = 0;
        while i < self.entries.len()
            invariant
                i <= self.entries.len(),
                self@.len() <= u32::MAX,
                position_of(self@, name@, 0) == position_of(self@, name@, i as int),
            decreases self.entries.len() - i,
        {
            if str_eq(self.entries[i].name.as_str(), name) {
                return Ok(Field(i as u32));
            }
            i = i + 1;
        }
        Err(
            StorageError::InvalidFieldValue {
                field: name.to_owned(),
                reason: "no such field in the schema".to_owned(),
            },
        )
    }

    /// The entry of a field of this schema.
    pub fn get_field_entry(&self, field: Field) -> (r: &FieldEntry)
        requires
            field.spec_index() < self@.len(),
        ensures
            r@ == self@[field.spec_index()],
    {
        &self.entries[field.0 as usize]
    }
}

/// The handles of the fields of the index schema, by name.
#[derive(Debug, Clone, Copy)]
pub struct IndexSchema {
    pub doc_type: Field,
    pub symbol_id: Field,
    pub file_path: Field,
    pub line_number: Field,
    pub column: Field,
    pub end_line: Field,
    pub end_column: Field,
    pub name: Field,
    pub name_text: Field,
    pub doc_comment: Field,
    pub signature: Field,
    pub context: Field,
    pub module: Field,
    pub kind: Field,
    pub visibility: Field,
    pub scope_context: Field,
    pub language: Field,
    pub from_symbol_id: Field,
    pub to_symbol_id: Field,
    pub relation_kind: Field,
    pub relation_weight: Field,
    pub relation_line: Field,
    pub relation_column: Field,
    pub relation_context: Field,
    pub file_id: Field,
    pub file_hash: Field,
    pub file_timestamp: Field,
    pub meta_key: Field,
    pub meta_value: Field,
    pub cluster_id: Field,
    pub vector_id: Field,
    pub has_vector: Field,
    pub import_file_id: Field,
    pub import_path: Field,
    pub import_alias: Field,
    pub import_is_glob: Field,
    pub import_is_type_only: Field,
}

/// The name of each field of the index schema, by position.
pub open spec fn field_name(i: int) -> Seq<char> {
    if i == 0 {
        "doc_type"@
    } else if i == 1 {
        "symbol_id"@
    } else if i == 2 {
        "file_path"@
    } else if i == 3 {
        "line_number"@
    } else if i == 4 {
        "column"@
    } else if i == 5 {
        "end_line"@
    } else if i == 6 {
        "end_column"@
    } else if i == 7 {
        "name"@
    } else if i == 8 {
        "name_text"@
    } else if i == 9 {
        "doc_comment"@
    } else if i == 10 {
        "signature"@
    } else if i == 11 {
        "context"@
    } else if i == 12 {
        "module_path"@
    } else if i == 13 {
        "kind"@
    } else if i == 14 {
        "visibility"@
    } else if i == 15 {
        "scope_context"@
    } else if i == 16 {
        "language"@
    } else if i == 17 {
        "from_symbol_id"@
    } else if i == 18 {
        "to_symbol_id"@
    } else if i == 19 {
        "relation_kind"@
    } else if i == 20 {
        "relation_weight"@
    } else if i == 21 {
        "relation_line"@
    } else if i == 22 {
        "relation_column"@
    } else if i == 23 {
        "relation_context"@
    } else if i == 24 {
        "file_id"@
    } else if i == 25 {
        "file_hash"@
    } else if i == 26 {
        "file_timestamp"@
    } else if i == 27 {
        "meta_key"@
    } else if i == 28 {
        "meta_value"@
    } else if i == 29 {
        "cluster_id"@
    } else if i == 30 {
        "vector_id"@
    } else if i == 31 {
        "has_vector"@
    } else if i == 32 {
        "import_file_id"@
    } else if i == 33 {
        "import_path"@
    } else if i == 34 {
        "import_alias"@
    } else if i == 35 {
        "import_is_glob"@
    } else if i == 36 {
        "import_is_type_only"@
    } else {
        Seq::empty()
    }
}

/// The type of each field of the index schema, by position.
pub open spec fn field_type_of(i: int) -> FieldType {
    if i == 9 || i == 10 || i == 11 || i == 23 {
        FieldType::Text(Tokenizer::Default)
    } else if i == 8 {
        FieldType::Text(Tokenizer::Ngram)
    } else if i == 20 {
        FieldType::Real
    } else if i == 1 || i == 3 || i == 4 || i == 5 || i == 6 || i == 14 || i == 17 || i == 18 || i == 21 || i == 22 || i == 24 || i == 26 || i == 28 || i == 29 || i == 30 || i == 31 || i == 32 || i == 35 || i == 36 {
        FieldType::U64
    } else {
        FieldType::Str
    }
}

/// Whether each field of the index schema is indexed, by position.
pub open spec fn field_indexed(i: int) -> bool {
    i == 0 || i == 1 || i == 2 || i == 7 || i == 8 || i == 9 || i == 10 || i == 11 || i == 12 || i == 13 || i == 15 || i == 16 || i == 17 || i == 18 || i == 19 || i == 23 || i == 24 || i == 25 || i == 27 || i == 32 || i == 33 || i == 34
}

/// Whether each field of the index schema is fast, by position.
pub open spec fn field_fast(i: int) -> bool {
    i == 0 || i == 1 || i == 3 || i == 5 || i == 16 || i == 17 || i == 18 || i == 19 || i == 24 || i == 26 || i == 27 || i == 28 || i == 29 || i == 30 || i == 31 || i == 32
}

/// The entry of each field of the index schema, by position. Every field is
/// stored.
pub open spec fn index_field(i: int) -> FieldEntryView {
    FieldEntryView {
        name: field_name(i),
        field_type: field_type_of(i),
        stored: true,
        indexed: field_indexed(i),
        fast: field_fast(i),
    }
}

/// The index schema: one store for symbols, relationships, files, imports
/// and metadata.
pub open spec fn index_schema() -> Seq<FieldEntryView> {
    Seq::new(NUM_FIELDS as nat, |i: int| index_field(i))
}

fn entry(name: &str, field_type: FieldType, indexed: bool, fast: bool) -> (r: FieldEntry)
    ensures
        r@ == (FieldEntryView { name: name@, field_type, stored: true, indexed, fast }),
{
    FieldEntry { name: name.to_owned(), field_type, stored: true, indexed, fast }
}

impl IndexSchema {
    /// The handles of the index schema: each field's position.
    pub open spec fn spec_handles() -> IndexSchema {
        IndexSchema {
            doc_type: Field(0),
            symbol_id: Field(1),
            file_path: Field(2),
            line_number: Field(3),
            column: Field(4),
            end_line: Field(5),
            end_column: Field(6),
            name: Field(7),
            name_text: Field(8),
            doc_comment: Field(9),
            signature: Field(10),
            context: Field(11),
            module: Field(12),
            kind: Field(13),
            visibility: Field(14),
            scope_context: Field(15),
            language: Field(16),
            from_symbol_id: Field(17),
            to_symbol_id: Field(18),
            relation_kind: Field(19),
            relation_weight: Field(20),
            relation_line: Field(21),
            relation_column: Field(22),
            relation_context: Field(23),
            file_id: Field(24),
            file_hash: Field(25),
            file_timestamp: Field(26),
            meta_key: Field(27),
            meta_value: Field(28),
            cluster_id: Field(29),
            vector_id: Field(30),
            has_vector: Field(31),
            import_file_id: Field(32),
            import_path: Field(33),
            import_alias: Field(34),
            import_is_glob: Field(35),
            import_is_type_only: Field(36),
        }
    }

    /// The handles alone, without building the schema.
    pub fn handles() -> (r: IndexSchema)
        ensures
            r == Self::spec_handles(),
    {
        IndexSchema {
            doc_type: Field(0),
            symbol_id: Field(1),
            file_path: Field(2),
            line_number: Field(3),
            column: Field(4),
            end_line: Field(5),
            end_column: Field(6),
            name: Field(7),
            name_text: Field(8),
            doc_comment: Field(9),
            signature: Field(10),
            context: Field(11),
            module: Field(12),
            kind: Field(13),
            visibility: Field(14),
            scope_context: Field(15),
            language: Field(16),
            from_symbol_id: Field(17),
            to_symbol_id: Field(18),
            relation_kind: Field(19),
            relation_weight: Field(20),
            relation_line: Field(21),
            relation_column: Field(22),
            relation_context: Field(23),
            file_id: Field(24),
            file_hash: Field(25),
            file_timestamp: Field(26),
            meta_key: Field(27),
            meta_value: Field(28),
            cluster_id: Field(29),
            vector_id: Field(30),
            has_vector: Field(31),
            import_file_id: Field(32),
            import_path: Field(33),
            import_alias: Field(34),
            import_is_glob: Field(35),
            import_is_type_only: Field(36),
        }
    }

    /// Builds the schema of the index and the handles of its fields.
    pub fn build() -> (r: (Schema, IndexSchema))
        ensures
            r.0@ == index_schema(),
            r.1 == Self::spec_handles(),
    {
        let mut entries: Vec<FieldEntry> = Vec::new();
        entries.push(entry("doc_type", FieldType::Str, true, true));
        entries.push(entry("symbol_id", FieldType::U64, true, true));
        entries.push(entry("file_path", FieldType::Str, true, false));
        entries.push(entry("line_number", FieldType::U64, false, true));
        entries.push(entry("column", FieldType::U64, false, false));
        entries.push(entry("end_line", FieldType::U64, false, true));
        entries.push(entry("end_column", FieldType::U64, false, false));
        entries.push(entry("name", FieldType::Str, true, false));
        entries.push(entry("name_text", FieldType::Text(Tokenizer::Ngram), true, false));
        entries.push(entry("doc_comment", FieldType::Text(Tokenizer::Default), true, false));
        entries.push(entry("signature", FieldType::Text(Tokenizer::Default), true, false));
        entries.push(entry("context", FieldType::Text(Tokenizer::Default), true, false));
        entries.push(entry("module_path", FieldType::Str, true, false));
        entries.push(entry("kind", FieldType::Str, true, false));
        entries.push(entry("visibility", FieldType::U64, false, false));
        entries.push(entry("scope_context", FieldType::Str, true, false));
        entries.push(entry("language", FieldType::Str, true, true));
        entries.push(entry("from_symbol_id", FieldType::U64, true, true));
        entries.push(entry("to_symbol_id", FieldType::U64, true, true));
        entries.push(entry("relation_kind", FieldType::Str, true, true));
        entries.push(entry("relation_weight", FieldType::Real, false, false));
        entries.push(entry("relation_line", FieldType::U64, false, false));
        entries.push(entry("relation_column", FieldType::U64, false, false));
        entries.push(entry("relation_context", FieldType::Text(Tokenizer::Default), true, false));
        entries.push(entry("file_id", FieldType::U64, true, true));
        entries.push(entry("file_hash", FieldType::Str, true, false));
        entries.push(entry("file_timestamp", FieldType::U64, false, true));
        entries.push(entry("meta_key", FieldType::Str, true, true));
        entries.push(entry("meta_value", FieldType::U64, false, true));
        entries.push(entry("cluster_id", FieldType::U64, false, true));
        entries.push(entry("vector_id", FieldType::U64, false, true));
        entries.push(entry("has_vector", FieldType::U64, false, true));
        entries.push(entry("import_file_id", FieldType::U64, true, true));
        entries.push(entry("import_path", FieldType::Str, true, false));
        entries.push(entry("import_alias", FieldType::Str, true, false));
        entries.push(entry("import_is_glob", FieldType::U64, false, false));
        entries.push(entry("import_is_type_only", FieldType::U64, false, false));
        let schema = Schema { entries };
        proof {
            assert(schema@.len() == NUM_FIELDS);
            assert forall|i: int| 0 <= i < NUM_FIELDS implies schema@[i] == index_field(i) by {
                assert(schema@[i] == schema.entries@[i]@);
            }
            assert(schema@ =~= index_schema());
        }
        (schema, Self::handles())
    }
}

} // verus!
