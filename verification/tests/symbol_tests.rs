use codanna::relationship::{
    CompactRelationship, RelationKind, Relationship, RelationshipEdge, RelationshipMetadata,
};
use codanna::symbol::{LanguageId, ScopeContext, StringTable, Symbol, Visibility};
use codanna::types::{FileId, Range, SymbolCounter, SymbolId, SymbolKind};
use codanna::vector::{ClusterId, VectorId, VectorMetadata};
use std::mem;

#[test]
fn test_string_table() {
    let mut table = StringTable::new();

    let offset1 = table.intern("hello");
    let offset2 = table.intern("world");
    let offset3 = table.intern("hello"); // Should reuse

    assert_eq!(offset1, 1);
    assert_ne!(offset1, offset2);
    assert_eq!(offset1, offset3);

    assert_eq!(table.get(offset1), Some("hello"));
    assert_eq!(table.get(offset2), Some("world"));
    assert_eq!(table.get(999), None);
}

#[test]
fn string_table_offsets_count_bytes() {
    let mut table = StringTable::new();
    assert_eq!(table.intern("hello"), 1);
    // "hello" and its terminator end at offset 7.
    assert_eq!(table.intern("wörld"), 7);
    // "wörld" is six bytes long.
    assert_eq!(table.intern("x"), 14);
    assert_eq!(table.get(0), Some(""));
    assert_eq!(table.get(7), Some("wörld"));
}

#[test]
fn test_symbol_to_compact_and_back() {
    let mut string_table = StringTable::new();

    let original = Symbol::new(
        SymbolId::new(42).unwrap(),
        "test_method",
        SymbolKind::Method,
        FileId::new(7).unwrap(),
        Range::new(10, 5, 15, 20),
    );

    let compact = original.to_compact(&mut string_table);
    let restored = compact.to_symbol(&string_table).unwrap();

    assert_eq!(original.id, restored.id);
    assert_eq!(original.name, restored.name);
    assert_eq!(original.kind, restored.kind);
    assert_eq!(original.file_id, restored.file_id);
    assert_eq!(original.range, restored.range);
}

#[test]
fn test_all_symbol_kinds_conversion() {
    let kinds = [
        SymbolKind::Function,
        SymbolKind::Method,
        SymbolKind::Struct,
        SymbolKind::Enum,
        SymbolKind::Trait,
        SymbolKind::Interface,
        SymbolKind::Class,
        SymbolKind::Module,
        SymbolKind::Variable,
        SymbolKind::Constant,
        SymbolKind::Field,
        SymbolKind::Parameter,
        SymbolKind::TypeAlias,
        SymbolKind::Macro,
    ];

    let mut string_table = StringTable::new();

    for (i, kind) in kinds.iter().enumerate() {
        let symbol = Symbol::new(
            SymbolId::new((i + 1) as u32).unwrap(),
            &format!("test_{i}"),
            *kind,
            FileId::new(1).unwrap(),
            Range::new(1, 0, 1, 10),
        );

        let compact = symbol.to_compact(&mut string_table);
        let restored = compact.to_symbol(&string_table).unwrap();

        assert_eq!(symbol.kind, restored.kind);
    }
}

#[test]
fn compact_symbol_needs_a_known_name_and_ids() {
    let mut table = StringTable::new();
    let symbol = Symbol::new(
        SymbolId(0),
        "zero",
        SymbolKind::Function,
        FileId::new(1).unwrap(),
        Range::new(1, 0, 1, 10),
    );
    let compact = symbol.to_compact(&mut table);
    assert!(compact.to_symbol(&table).is_none());

    let other = Symbol::new(
        SymbolId::new(5).unwrap(),
        "missing",
        SymbolKind::Function,
        FileId::new(1).unwrap(),
        Range::new(1, 0, 1, 10),
    );
    assert!(codanna::symbol::CompactSymbol::from_symbol(&other, &table).is_none());
    assert!(codanna::symbol::CompactSymbol::from_symbol(&symbol, &table).is_some());
}

#[test]
fn test_vector_metadata_creation() {
    // Test creating metadata without vector
    let metadata = VectorMetadata::new(1);
    assert_eq!(metadata.vector_id, None);
    assert_eq!(metadata.cluster_id, None);
    assert_eq!(metadata.embedding_version, 1);
    assert!(!metadata.has_vector());

    // Test creating metadata with vector
    let vector_id = VectorId::new(42).unwrap();
    let cluster_id = ClusterId::new(5).unwrap();
    let metadata_with_vector = VectorMetadata::with_vector(vector_id, cluster_id, 2);
    assert_eq!(metadata_with_vector.vector_id, Some(vector_id));
    assert_eq!(metadata_with_vector.cluster_id, Some(cluster_id));
    assert_eq!(metadata_with_vector.embedding_version, 2);
    assert!(metadata_with_vector.has_vector());
}

#[test]
fn vector_ids_refuse_zero() {
    assert!(VectorId::new(0).is_none());
    assert!(ClusterId::new(0).is_none());
    assert_eq!(VectorId::new(9).unwrap().get(), 9);
    assert_eq!(ClusterId::new(3).unwrap().get(), 3);
}

#[test]
fn test_relationship_creation() {
    let rel = Relationship::new(RelationKind::Calls);
    assert_eq!(rel.kind, RelationKind::Calls);
    assert_eq!(f32::from_bits(rel.weight_bits), 1.0);
    assert!(rel.metadata.is_none());
}

#[test]
fn test_relationship_with_weight() {
    let rel = Relationship::new(RelationKind::Extends).with_weight(0.8f32.to_bits());
    assert_eq!(f32::from_bits(rel.weight_bits), 0.8);
}

#[test]
fn test_relationship_with_metadata() {
    let metadata = RelationshipMetadata::new()
        .at_position(10, 5)
        .with_context("inside main function");

    let rel = Relationship::new(RelationKind::Calls).with_metadata(metadata);

    let meta = rel.metadata.unwrap();
    assert_eq!(meta.line, Some(10));
    assert_eq!(meta.column, Some(5));
    assert_eq!(meta.context.as_deref(), Some("inside main function"));
}

#[test]
fn test_compact_relationship_size() {
    assert_eq!(mem::size_of::<CompactRelationship>(), 20);
}

#[test]
fn test_relationship_edge() {
    let source = SymbolId::new(1).unwrap();
    let target = SymbolId::new(2).unwrap();
    let rel = Relationship::new(RelationKind::Calls);

    let edge = RelationshipEdge::new(source, target, rel);
    assert_eq!(edge.source, source);
    assert_eq!(edge.target, target);
    assert_eq!(edge.relationship.kind, RelationKind::Calls);
}

#[test]
fn relationship_to_compact_keeps_kind_and_weight() {
    let rel = Relationship::new(RelationKind::Uses).with_weight(0.5f32.to_bits());
    let compact = rel.to_compact();
    assert_eq!(compact.kind, 6);
    assert_eq!(f32::from_bits(compact.weight_bits), 0.5);
    assert_eq!(compact.source_id, 0);
    assert_eq!(compact.target_id, 0);
    assert_eq!(compact.metadata_offset, 0);
}

#[test]
fn relation_kind_inverse_is_an_involution() {
    let kinds = [
        RelationKind::Calls,
        RelationKind::CalledBy,
        RelationKind::Extends,
        RelationKind::ExtendedBy,
        RelationKind::Implements,
        RelationKind::ImplementedBy,
        RelationKind::Uses,
        RelationKind::UsedBy,
        RelationKind::Defines,
        RelationKind::DefinedIn,
        RelationKind::References,
        RelationKind::ReferencedBy,
    ];
    for kind in kinds {
        assert_eq!(kind.inverse().inverse(), kind);
        assert_ne!(kind.inverse(), kind);
        assert_eq!(RelationKind::parse(kind.name()), Some(kind));
    }
    assert_eq!(RelationKind::parse("Unknown"), None);
}

#[test]
fn symbol_kind_names_round_trip() {
    assert_eq!(SymbolKind::from_str_with_default("Method"), SymbolKind::Method);
    assert_eq!(SymbolKind::from_str_with_default("TypeAlias"), SymbolKind::TypeAlias);
    assert_eq!(SymbolKind::from_str_with_default("nonsense"), SymbolKind::Function);
    assert_eq!(SymbolKind::parse("function"), None);
    assert_eq!(SymbolKind::Interface.name(), "Interface");
    assert_eq!(SymbolKind::from_code(SymbolKind::Macro.code()), Some(SymbolKind::Macro));
    assert_eq!(SymbolKind::from_code(14), None);
}

#[test]
fn scope_text_round_trips() {
    let scopes = vec![
        ScopeContext::Module,
        ScopeContext::Global,
        ScopeContext::Package,
        ScopeContext::Parameter,
        ScopeContext::ClassMember,
        ScopeContext::Local { hoisted: false, parent_name: None, parent_kind: None },
        ScopeContext::Local {
            hoisted: true,
            parent_name: Some("outer".to_string()),
            parent_kind: Some(SymbolKind::Function),
        },
        ScopeContext::Local {
            hoisted: false,
            parent_name: Some(String::new()),
            parent_kind: Some(SymbolKind::Class),
        },
    ];
    for scope in scopes {
        let text = scope.to_text();
        assert_eq!(ScopeContext::from_text(&text), Some(scope));
    }
    assert_eq!(
        ScopeContext::Local {
            hoisted: true,
            parent_name: Some("outer".to_string()),
            parent_kind: Some(SymbolKind::Function),
        }
        .to_text(),
        "Local:1a+outer"
    );
    assert_eq!(ScopeContext::from_text("None"), None);
    assert_eq!(ScopeContext::from_text("Local:2a-"), None);
    assert_eq!(ScopeContext::from_text("Local:0z-"), None);
    assert_eq!(ScopeContext::from_text("Local:0a-x"), None);
}

#[test]
fn symbol_builders_set_their_fields() {
    let symbol = Symbol::new_with_scope(
        SymbolId::new(3).unwrap(),
        "run",
        SymbolKind::Method,
        FileId::new(2).unwrap(),
        Range::new(1, 2, 3, 4),
        ScopeContext::ClassMember,
    )
    .with_file_path("src/run.rs")
    .with_doc("Runs.")
    .with_module_path("crate::run")
    .with_visibility(Visibility::Public)
    .with_language_id(LanguageId::new("rust"));

    assert_eq!(symbol.as_name(), "run");
    assert_eq!(symbol.file_path, "src/run.rs");
    assert_eq!(symbol.as_doc_comment(), Some("Runs."));
    assert_eq!(symbol.as_module_path(), Some("crate::run"));
    assert_eq!(symbol.as_signature(), None);
    assert_eq!(symbol.visibility, Visibility::Public);
    assert_eq!(symbol.scope_context, Some(ScopeContext::ClassMember));
    assert_eq!(symbol.language_id, Some(LanguageId::new("rust")));
    let replaced = symbol.with_scope(ScopeContext::Global);
    assert_eq!(replaced.scope_context, Some(ScopeContext::Global));
    assert_eq!(replaced.into_name(), "run");
}

#[test]
fn symbol_counter_counts_up_from_one() {
    let mut counter = SymbolCounter::new();
    assert_eq!(counter.current_count(), 0);
    assert_eq!(counter.next_id(), SymbolId(1));
    assert_eq!(counter.next_id(), SymbolId(2));
    assert_eq!(counter.current_count(), 2);
    counter.reset();
    assert_eq!(counter.next_id(), SymbolId(1));
    let mut later = SymbolCounter::from_value(100);
    assert_eq!(later.next_id(), SymbolId(100));
    let mut zero = SymbolCounter::from_value(0);
    assert_eq!(zero.next_id(), SymbolId(1));
}

#[test]
fn symbols_are_described() {
    let symbol = Symbol::new(
        SymbolId::new(1).unwrap(),
        "add",
        SymbolKind::Function,
        FileId::new(12).unwrap(),
        Range::new(1, 0, 3, 1),
    );
    assert_eq!(
        symbol.describe(),
        "add\n  Kind: Function\n  Visibility: Private\n  Location: file#12 1:0-3:1"
    );
    let long = "d".repeat(101);
    let full = symbol
        .with_signature("fn add(a: i32, b: i32) -> i32")
        .with_module_path("crate::math")
        .with_visibility(Visibility::Public)
        .with_doc(&long);
    assert_eq!(
        full.describe(),
        format!(
            "add\n  Signature: fn add(a: i32, b: i32) -> i32\n  Kind: Function\n  Visibility: Public\n  Location: file#12 1:0-3:1\n  Module: crate::math\n  Doc: {}...",
            "d".repeat(100)
        )
    );
    let short = full.with_doc(&"e".repeat(100));
    assert!(short.describe().ends_with(&format!("Doc: {}", "e".repeat(100))));
}

#[test]
fn the_string_table_gives_back_what_was_interned() {
    let mut table = StringTable::new();
    assert_eq!(table.size(), 1);
    let hello = table.intern("hello");
    let world = table.intern("world");
    assert_eq!(hello, 1);
    assert_eq!(world, 7);
    assert_eq!(table.size(), 13);
    assert_eq!(table.get(hello), Some("hello"));
    assert_eq!(table.get(world), Some("world"));
    // Interning again changes nothing.
    assert_eq!(table.intern("hello"), hello);
    assert_eq!(table.size(), 13);
    // Offset zero holds the empty string; an offset past the buffer, or one
    // at which no string begins, holds nothing.
    assert_eq!(table.get(0), Some(""));
    assert_eq!(table.get(13), None);
    assert_eq!(table.get(999), None);
    assert_eq!(table.get(3), None);
    // A string of several bytes to the character takes its bytes.
    let word = table.intern("né");
    assert_eq!(word, 13);
    assert_eq!(table.size(), 17);
    assert_eq!(table.get(word), Some("né"));
    assert_eq!(table.get(hello), Some("hello"));
}
