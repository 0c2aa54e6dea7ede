use codanna::config::FileWatchConfig;
use codanna::indexing::retry::{backoff_with_jitter_ms, normalized_heap_bytes};
use codanna::init::{FASTEMBED_CACHE_NAME, GLOBAL_DIR_NAME, LOCAL_DIR_NAME};
use codanna::relationship::RelationKind;
use codanna::storage::cluster_cache::ClusterCache;
use codanna::storage::schema::IndexSchema;
use codanna::symbol::Symbol;
use codanna::types::{FileId, Range, SymbolId, SymbolKind};
use codanna::vector::{ClusterId, SegmentOrdinal};

#[test]
fn test_file_watch_config_defaults() {
    let config = FileWatchConfig::default();
    assert!(config.enabled);
    assert_eq!(config.debounce_ms, 500);
}

#[test]
fn test_normalized_heap_bytes() {
    // Below minimum
    assert_eq!(normalized_heap_bytes(10 * 1024 * 1024), 15 * 1024 * 1024);

    // Within range
    assert_eq!(normalized_heap_bytes(100 * 1024 * 1024), 100 * 1024 * 1024);

    // Above maximum
    assert_eq!(
        normalized_heap_bytes(3 * 1024 * 1024 * 1024),
        2 * 1024 * 1024 * 1024
    );
}

#[test]
fn test_backoff_with_jitter_ms() {
    for _ in 0..10 {
        let delay = backoff_with_jitter_ms(0);
        assert!(delay >= 80 && delay <= 120);
    }

    for _ in 0..10 {
        let delay = backoff_with_jitter_ms(1);
        assert!(delay >= 100 && delay <= 150);
    }

    for _ in 0..10 {
        let delay = backoff_with_jitter_ms(2);
        assert!(delay >= 200 && delay <= 250);
    }

    for _ in 0..10 {
        let delay = backoff_with_jitter_ms(3);
        assert!(delay >= 400 && delay <= 450);
    }

    for _ in 0..10 {
        let delay = backoff_with_jitter_ms(4);
        assert!(delay >= 800 && delay <= 850);
    }
}

#[test]
fn test_directory_names() {
    assert_eq!(GLOBAL_DIR_NAME, ".codanna");
    assert_eq!(LOCAL_DIR_NAME, ".codanna");
    assert_eq!(FASTEMBED_CACHE_NAME, ".fastembed_cache");
}

#[test]
fn test_relation_kind_inverse() {
    assert_eq!(RelationKind::Calls.inverse(), RelationKind::CalledBy);
    assert_eq!(RelationKind::CalledBy.inverse(), RelationKind::Calls);
    assert_eq!(RelationKind::Extends.inverse(), RelationKind::ExtendedBy);
    assert_eq!(
        RelationKind::Implements.inverse(),
        RelationKind::ImplementedBy
    );
    assert_eq!(RelationKind::Uses.inverse(), RelationKind::UsedBy);
    assert_eq!(
        RelationKind::References.inverse(),
        RelationKind::ReferencedBy
    );
}

#[test]
fn test_relation_kind_classification() {
    // Hierarchical relationships
    assert!(RelationKind::Extends.is_hierarchical());
    assert!(RelationKind::ExtendedBy.is_hierarchical());
    assert!(RelationKind::Implements.is_hierarchical());
    assert!(RelationKind::ImplementedBy.is_hierarchical());

    // Usage relationships
    assert!(RelationKind::Calls.is_usage());
    assert!(RelationKind::CalledBy.is_usage());
    assert!(RelationKind::Uses.is_usage());
    assert!(RelationKind::References.is_usage());

    // Not usage or hierarchical
    assert!(!RelationKind::Defines.is_usage());
    assert!(!RelationKind::Defines.is_hierarchical());
}

#[test]
fn test_schema_has_language_field() {
    let (schema, _) = IndexSchema::build();

    let language_field = schema.get_field("language");
    assert!(
        language_field.is_ok(),
        "Schema should have 'language' field"
    );

    let field = language_field.unwrap();
    let field_entry = schema.get_field_entry(field);
    assert!(field_entry.is_indexed(), "Language field should be indexed");
    assert!(field_entry.is_stored(), "Language field should be stored");
}

#[test]
fn test_cluster_cache_unit_operations() {
    let mut cache = ClusterCache::new(1);

    let seg0 = SegmentOrdinal::new(0);
    let seg1 = SegmentOrdinal::new(1);
    let cluster0 = ClusterId::new(1).unwrap();
    let cluster1 = ClusterId::new(2).unwrap();

    // Add documents
    cache.add_document(seg0, cluster0, 0);
    cache.add_document(seg0, cluster0, 2);
    cache.add_document(seg0, cluster0, 1);
    cache.add_document(seg0, cluster1, 3);
    cache.add_document(seg1, cluster0, 0);

    // Sort
    cache.sort_all();

    // Test retrieval
    let docs = cache.get_documents(seg0, cluster0).unwrap();
    assert_eq!(docs, &[0, 1, 2]); // Should be sorted

    let docs = cache.get_documents(seg0, cluster1).unwrap();
    assert_eq!(docs, &[3]);

    let docs = cache.get_documents(seg1, cluster0).unwrap();
    assert_eq!(docs, &[0]);

    // Test missing lookups
    assert!(cache.get_documents(seg1, cluster1).is_none());

    // Test metadata
    assert_eq!(cache.total_documents(), 5);
    assert_eq!(cache.all_cluster_ids().len(), 2);

    // Test generation check
    assert!(cache.is_valid_for_generation(1));
    assert!(!cache.is_valid_for_generation(2));
}

#[test]
fn test_symbol_creation() {
    let id = SymbolId::new(1).unwrap();
    let file_id = FileId::new(10).unwrap();
    let range = Range::new(5, 10, 5, 20);

    let symbol = Symbol::new(id, "test_function", SymbolKind::Function, file_id, range);

    assert_eq!(symbol.id, id);
    assert_eq!(symbol.name.as_str(), "test_function");
    assert_eq!(symbol.kind, SymbolKind::Function);
    assert_eq!(symbol.file_id, file_id);
    assert_eq!(symbol.range, range);
    assert!(symbol.signature.is_none());
}

#[test]
fn test_symbol_with_signature() {
    let symbol = Symbol::new(
        SymbolId::new(1).unwrap(),
        "add",
        SymbolKind::Function,
        FileId::new(1).unwrap(),
        Range::new(1, 0, 3, 1),
    )
    .with_signature("fn add(a: i32, b: i32) -> i32");

    assert_eq!(
        symbol.signature.as_deref(),
        Some("fn add(a: i32, b: i32) -> i32")
    );
}
