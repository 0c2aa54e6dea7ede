use codanna::config::Settings;
use codanna::error::StorageError;
use codanna::indexing::retry::{IoCause, WriterError};
use codanna::parsing::Import;
use codanna::relationship::{RelationKind, Relationship, RelationshipMetadata};
use codanna::storage::document::MetadataKey;
use codanna::storage::index::{CommitStep, DocumentIndex};
use codanna::symbol::{LanguageId, ScopeContext, Symbol, Visibility};
use codanna::types::{FileId, Range, SymbolId, SymbolKind};
use codanna::vector::{ClusterId, SegmentOrdinal, VectorId, VectorSearchEngine};
use std::time::Instant;

fn new_index() -> DocumentIndex {
    let settings = Settings::default();
    DocumentIndex::new("index", &settings).unwrap()
}

fn add_plain(index: &mut DocumentIndex, id: u32, name: &str) {
    index
        .add_document(
            SymbolId::new(id).unwrap(),
            name,
            SymbolKind::Function,
            FileId::new(1).unwrap(),
            "test.rs",
            id * 10,
            1,
            id * 10 + 5,
            0,
            None,
            None,
            "test",
            None,
            Visibility::Public,
            Some(ScopeContext::Module),
            None,
        )
        .unwrap();
}

#[test]
fn test_document_index_creation() {
    let index = new_index();

    assert_eq!(index.document_count().unwrap(), 0);
    assert!(!index.has_vector_support());
    assert!(index.vector_storage_path().is_none());
    assert!(index.vector_engine().is_none());
}

#[test]
fn test_add_and_search_document() {
    let mut index = new_index();

    index.start_batch().unwrap();

    let symbol_id = SymbolId::new(1).unwrap();
    let file_id = FileId::new(1).unwrap();
    index
        .add_document(
            symbol_id,
            "parse_json",
            SymbolKind::Function,
            file_id,
            "src/parser.rs",
            42,
            5,
            50,
            0,
            Some("Parse JSON string into a Value"),
            Some("fn parse_json(input: &str) -> StorageResult<Value, Error>"),
            "crate::parser",
            None,
            Visibility::Public,
            Some(ScopeContext::Module),
            None,
        )
        .unwrap();

    index.commit_batch().unwrap();

    let results = index.search("json", 10, None, None, None).unwrap();
    assert_eq!(results.len(), 1);

    let result = &results[0];
    assert_eq!(result.name, "parse_json");
    assert_eq!(result.line, 42);
    assert_eq!(result.file_path, "src/parser.rs");
}

#[test]
fn test_store_and_retrieve_symbol_with_language() {
    let mut index = new_index();

    index.start_batch().unwrap();

    let symbol = Symbol::new(
        SymbolId::new(1).unwrap(),
        "test_func",
        SymbolKind::Function,
        FileId::new(1).unwrap(),
        Range::new(10, 0, 15, 0),
    )
    .with_language_id(LanguageId::new("rust"))
    .with_signature("fn test_func() -> Result<()>")
    .with_doc("Test function");

    index.index_symbol(&symbol, "src/test.rs").unwrap();
    index.commit_batch().unwrap();

    let retrieved = index.find_symbol_by_id(symbol.id).unwrap();
    assert!(retrieved.is_some());

    let retrieved_symbol = retrieved.unwrap();
    assert_eq!(retrieved_symbol.language_id, Some(LanguageId::new("rust")));
    assert_eq!(retrieved_symbol.name.as_str(), "test_func");
    assert_eq!(
        retrieved_symbol.signature.as_deref(),
        Some("fn test_func() -> Result<()>")
    );
}

#[test]
fn test_fuzzy_search() {
    let mut index = new_index();

    index.start_batch().unwrap();

    let symbol_id = SymbolId::new(1).unwrap();
    let file_id = FileId::new(1).unwrap();
    index
        .add_document(
            symbol_id,
            "handle_request",
            SymbolKind::Function,
            file_id,
            "src/server.rs",
            100,
            0,
            120,
            0,
            Some("Handle incoming HTTP request"),
            None,
            "crate::server",
            None,
            Visibility::Private,
            Some(ScopeContext::Module),
            None,
        )
        .unwrap();

    index.commit_batch().unwrap();

    let results = index.search("handle", 10, None, None, None).unwrap();
    assert!(!results.is_empty(), "Should find exact match");

    let results = index.search("handl", 10, None, None, None).unwrap();
    assert!(!results.is_empty(), "Should find with fuzzy search");
}

#[test]
fn test_relationship_storage() {
    let mut index = new_index();

    index.start_batch().unwrap();

    let from_id = SymbolId::new(1).unwrap();
    let to_id = SymbolId::new(2).unwrap();
    let rel = Relationship::new(RelationKind::Calls).with_weight(0.8f32.to_bits());

    index.store_relationship(from_id, to_id, &rel).unwrap();

    index.commit_batch().unwrap();

    let relationships = index.query_relationships().unwrap();
    assert_eq!(relationships.len(), 1);

    let (f, t, r) = &relationships[0];
    assert_eq!(*f, from_id);
    assert_eq!(*t, to_id);
    assert_eq!(r.kind, RelationKind::Calls);
    assert_eq!(f32::from_bits(r.weight_bits), 0.8);
}

#[test]
fn test_file_info_storage() {
    let mut index = new_index();

    index.start_batch().unwrap();

    let file_id = FileId::new(1).unwrap();
    index
        .store_file_info(file_id, "src/main.rs", "abc123", 1234567890)
        .unwrap();

    index.commit_batch().unwrap();

    let files = index.query_file_info().unwrap();
    assert_eq!(files.len(), 1);

    let record = &files[0];
    assert_eq!(record.file_id, file_id);
    assert_eq!(record.path, "src/main.rs");
    assert_eq!(record.hash, "abc123");
    assert_eq!(record.timestamp, 1234567890);

    assert_eq!(
        index.get_file_info("src/main.rs").unwrap(),
        Some((file_id, "abc123".to_string()))
    );
    assert_eq!(index.get_file_info("src/other.rs").unwrap(), None);
    assert_eq!(
        index.get_file_path(file_id).unwrap(),
        Some("src/main.rs".to_string())
    );
    assert_eq!(index.get_file_path(FileId::new(2).unwrap()).unwrap(), None);
    assert_eq!(index.count_files().unwrap(), 1);
}

#[test]
fn test_get_all_indexed_paths() {
    let mut index = new_index();

    let paths = index.get_all_indexed_paths().unwrap();
    assert_eq!(paths.len(), 0);

    index.start_batch().unwrap();

    let test_files = vec![
        (1, "src/main.rs", "hash1"),
        (2, "src/lib.rs", "hash2"),
        (3, "tests/integration.rs", "hash3"),
        (4, "src/module/helper.rs", "hash4"),
        (5, "benches/benchmark.rs", "hash5"),
    ];

    for (id, path, hash) in &test_files {
        let file_id = FileId::new(*id).unwrap();
        index
            .store_file_info(file_id, path, hash, 1234567890)
            .unwrap();
    }

    index.commit_batch().unwrap();

    let paths = index.get_all_indexed_paths().unwrap();
    assert_eq!(paths.len(), test_files.len());

    for (_, expected_path, _) in &test_files {
        assert!(
            paths.contains(&expected_path.to_string()),
            "Missing path: {expected_path}"
        );
    }

    index.start_batch().unwrap();

    let symbol_id = SymbolId::new(100).unwrap();
    let file_id = FileId::new(1).unwrap();
    index
        .add_document(
            symbol_id,
            "test_function",
            SymbolKind::Function,
            file_id,
            "src/main.rs",
            42,
            5,
            50,
            0,
            Some("Test function"),
            Some("fn test_function()"),
            "crate",
            None,
            Visibility::Public,
            Some(ScopeContext::Module),
            None,
        )
        .unwrap();

    index.commit_batch().unwrap();

    let paths_after_symbol = index.get_all_indexed_paths().unwrap();
    assert_eq!(paths_after_symbol.len(), test_files.len());
}

#[test]
fn test_metadata_storage() {
    let mut index = new_index();

    index.start_batch().unwrap();

    index.store_metadata(MetadataKey::FileCounter, 42).unwrap();
    index
        .store_metadata(MetadataKey::SymbolCounter, 100)
        .unwrap();

    index.commit_batch().unwrap();

    assert_eq!(
        index.query_metadata(MetadataKey::FileCounter).unwrap(),
        Some(42)
    );
    assert_eq!(
        index.query_metadata(MetadataKey::SymbolCounter).unwrap(),
        Some(100)
    );
}

#[test]
fn test_document_index_with_vector_support() {
    let vector_engine = VectorSearchEngine::new(384);

    let index = new_index().with_vector_support(vector_engine, "index/vectors");

    assert!(index.has_vector_support());
    assert_eq!(index.vector_storage_path(), Some("index/vectors"));
    assert!(index.vector_engine().is_some());
    assert_eq!(index.vector_engine().unwrap().dimension(), 384);
}

#[test]
fn test_document_index_operations_with_and_without_vectors() {
    // Test 1: Create index without vector support
    let mut index_no_vectors = new_index();

    index_no_vectors.start_batch().unwrap();
    index_no_vectors
        .add_document(
            SymbolId::new(1).unwrap(),
            "test_func",
            SymbolKind::Function,
            FileId::new(1).unwrap(),
            "test.rs",
            1,
            1,
            10,
            0,
            None,
            None,
            "test",
            None,
            Visibility::Public,
            Some(ScopeContext::Module),
            None,
        )
        .unwrap();
    index_no_vectors.commit_batch().unwrap();

    let results = index_no_vectors
        .search("test_func", 10, None, None, None)
        .unwrap();
    assert_eq!(results.len(), 1);
    assert!(!index_no_vectors.has_vector_support());

    // Test 2: Create index with vector support
    let vector_engine = VectorSearchEngine::new(384);
    let mut index_with_vectors = new_index().with_vector_support(vector_engine, "vectors");

    index_with_vectors.start_batch().unwrap();
    index_with_vectors
        .add_document(
            SymbolId::new(2).unwrap(),
            "vector_func",
            SymbolKind::Function,
            FileId::new(1).unwrap(),
            "test.rs",
            10,
            1,
            20,
            0,
            None,
            None,
            "test",
            None,
            Visibility::Public,
            Some(ScopeContext::Module),
            None,
        )
        .unwrap();
    index_with_vectors.commit_batch().unwrap();

    let results = index_with_vectors
        .search("vector_func", 10, None, None, None)
        .unwrap();
    assert_eq!(results.len(), 1);
    assert!(index_with_vectors.has_vector_support());
}

fn cluster_total(index: &DocumentIndex, cluster: u32) -> usize {
    let cluster_id = ClusterId::new(cluster).unwrap();
    let mut total = 0;
    for segment in 0..index.generation() {
        total += index
            .get_cluster_documents(SegmentOrdinal::new(segment as u32), cluster_id)
            .unwrap()
            .len();
    }
    total
}

#[test]
fn test_cluster_cache_operations() {
    let vector_engine = VectorSearchEngine::new(384);
    let mut index = new_index()
        .with_vector_support(vector_engine, "vectors")
        .with_embedding_generator();

    index.start_batch().unwrap();

    let test_docs = vec![
        (1, "parse_string", 0),
        (2, "parse_number", 0),
        (3, "parse_json", 0),
        (4, "Parser", 1),
        (5, "JsonParser", 1),
        (6, "handle_error", 2),
        (7, "ParseError", 2),
    ];

    for (id, name, _cluster) in &test_docs {
        add_plain(&mut index, *id, name);
    }

    index.commit_batch().unwrap();

    // Nothing has a vector yet.
    assert!(index.get_all_cluster_ids().unwrap().is_empty());
    assert_eq!(index.pending_embedding_texts().len(), 7);
    assert_eq!(index.pending_embedding_texts()[0].1, "parse_string Function ");

    // The engine clusters the vectors; cluster numbers are not zero.
    let clustered: Vec<(VectorId, ClusterId)> = test_docs
        .iter()
        .map(|(id, _, cluster)| {
            (
                VectorId::new(*id).unwrap(),
                ClusterId::new(*cluster + 1).unwrap(),
            )
        })
        .collect();
    index.post_commit_vector_processing(7, &clustered).unwrap();
    assert!(index.pending_embedding_texts().is_empty());
    index.update_cluster_assignments().unwrap();

    assert!(
        index.get_cache_generation().unwrap().is_some(),
        "Cache should be built after commit"
    );
    assert_eq!(
        index.get_cache_generation().unwrap(),
        Some(index.generation())
    );

    let all_cluster_ids = index.get_all_cluster_ids().unwrap();
    assert_eq!(all_cluster_ids.len(), 3);

    assert_eq!(cluster_total(&index, 1), 3);
    assert_eq!(cluster_total(&index, 2), 2);
    assert_eq!(cluster_total(&index, 3), 2);

    // Test performance of lookups (should be <10μs)
    let cluster_id = ClusterId::new(1).unwrap();
    let segment_ord = SegmentOrdinal::new(0);
    let start = Instant::now();
    for _ in 0..1000 {
        let _ = index
            .get_cluster_documents(segment_ord, cluster_id)
            .unwrap();
    }
    let elapsed = start.elapsed();
    let per_lookup = elapsed / 1000;
    assert!(
        per_lookup.as_micros() < 10,
        "Lookup should be <10μs, was {per_lookup:?}"
    );

    // Test cache invalidation - add more documents
    index.start_batch().unwrap();
    add_plain(&mut index, 8, "new_function");
    index.commit_batch().unwrap();
    let mut clustered = clustered;
    clustered.push((VectorId::new(8).unwrap(), ClusterId::new(1).unwrap()));
    index.post_commit_vector_processing(1, &clustered).unwrap();
    index.update_cluster_assignments().unwrap();

    assert_eq!(
        cluster_total(&index, 1) + cluster_total(&index, 2) + cluster_total(&index, 3),
        8
    );
    assert_eq!(cluster_total(&index, 1), 4); // Should have one more

    // The symbols of a cluster are the candidates of a semantic search in it.
    let candidates = index
        .semantic_candidates(&vec![ClusterId::new(2).unwrap()], None)
        .unwrap();
    assert_eq!(
        candidates,
        vec![
            (SymbolId::new(4).unwrap(), VectorId::new(4).unwrap()),
            (SymbolId::new(5).unwrap(), VectorId::new(5).unwrap()),
        ]
    );
    let two = vec![ClusterId::new(3).unwrap(), ClusterId::new(2).unwrap()];
    assert_eq!(index.semantic_candidates(&two, None).unwrap().len(), 4);
    assert!(index.semantic_candidates(&two, Some("rust")).unwrap().is_empty());
    assert!(index.semantic_candidates(&vec![], None).unwrap().is_empty());
    match new_index().semantic_candidates(&two, None) {
        Err(StorageError::General(message)) => assert_eq!(message, "Semantic search is disabled"),
        _ => panic!("without vector support the search is disabled"),
    }

    // Every symbol that claims a vector names a cluster and a vector that the engine holds.
    for id in 1..=8 {
        let vector_id = VectorId::new(id).unwrap();
        assert!(index.vector_engine().unwrap().contains(vector_id));
    }
}

#[test]
fn test_find_symbols_by_name_with_language_filter() {
    let mut index = new_index();

    index.start_batch().unwrap();

    index
        .add_document(
            SymbolId::new(1).unwrap(),
            "main",
            SymbolKind::Function,
            FileId::new(1).unwrap(),
            "src/main.rs",
            0,
            0,
            5,
            0,
            Some("Entry point"),
            Some("fn main() {}"),
            "crate",
            None,
            Visibility::Public,
            None,
            Some("rust"),
        )
        .unwrap();

    index
        .add_document(
            SymbolId::new(2).unwrap(),
            "main",
            SymbolKind::Function,
            FileId::new(2).unwrap(),
            "src/main.py",
            0,
            0,
            5,
            0,
            Some("Python entry point"),
            Some("def main():"),
            "__main__",
            None,
            Visibility::Public,
            None,
            Some("python"),
        )
        .unwrap();

    index
        .add_document(
            SymbolId::new(3).unwrap(),
            "main",
            SymbolKind::Function,
            FileId::new(3).unwrap(),
            "src/main.ts",
            0,
            0,
            5,
            0,
            Some("TypeScript entry"),
            Some("function main(): void"),
            "app",
            None,
            Visibility::Public,
            None,
            Some("typescript"),
        )
        .unwrap();

    index.commit_batch().unwrap();

    let all_symbols = index.find_symbols_by_name("main", None).unwrap();
    assert_eq!(
        all_symbols.len(),
        3,
        "Should find 3 'main' functions across all languages"
    );

    let rust_symbols = index.find_symbols_by_name("main", Some("rust")).unwrap();
    assert_eq!(rust_symbols.len(), 1, "Should find 1 Rust 'main' function");
    assert_eq!(rust_symbols[0].id, SymbolId::new(1).unwrap());

    let python_symbols = index.find_symbols_by_name("main", Some("python")).unwrap();
    assert_eq!(
        python_symbols.len(),
        1,
        "Should find 1 Python 'main' function"
    );
    assert_eq!(python_symbols[0].id, SymbolId::new(2).unwrap());

    let ts_symbols = index
        .find_symbols_by_name("main", Some("typescript"))
        .unwrap();
    assert_eq!(
        ts_symbols.len(),
        1,
        "Should find 1 TypeScript 'main' function"
    );
    assert_eq!(ts_symbols[0].id, SymbolId::new(3).unwrap());

    let java_symbols = index.find_symbols_by_name("main", Some("java")).unwrap();
    assert_eq!(java_symbols.len(), 0, "Should find no Java symbols");

    // The lookup by number takes the same filter.
    let found = index
        .find_symbol_by_id_with_language(SymbolId::new(2).unwrap(), "python")
        .unwrap();
    assert_eq!(found.unwrap().file_path, "src/main.py");
    assert!(index
        .find_symbol_by_id_with_language(SymbolId::new(2).unwrap(), "rust")
        .unwrap()
        .is_none());
    assert_eq!(
        index.find_symbols_by_file(FileId::new(3).unwrap()).unwrap().len(),
        1
    );
    assert_eq!(index.get_all_symbols(2).unwrap().len(), 2);
    assert_eq!(index.count_symbols().unwrap(), 3);
    assert_eq!(index.count_symbol_documents().unwrap(), 3);
}

fn parse_index() -> DocumentIndex {
    let mut index = new_index();
    index.start_batch().unwrap();

    index
        .add_document(
            SymbolId::new(10).unwrap(),
            "parse_config",
            SymbolKind::Function,
            FileId::new(1).unwrap(),
            "src/config.rs",
            10,
            0,
            20,
            0,
            Some("Parse configuration from file"),
            Some("fn parse_config(path: &str) -> Config"),
            "crate::config",
            None,
            Visibility::Public,
            None,
            Some("rust"),
        )
        .unwrap();

    index
        .add_document(
            SymbolId::new(11).unwrap(),
            "parse_json",
            SymbolKind::Function,
            FileId::new(2).unwrap(),
            "src/parser.py",
            5,
            0,
            10,
            0,
            Some("Parse JSON data"),
            Some("def parse_json(data: str) -> dict"),
            "parser",
            None,
            Visibility::Public,
            None,
            Some("python"),
        )
        .unwrap();

    index
        .add_document(
            SymbolId::new(12).unwrap(),
            "parseXML",
            SymbolKind::Function,
            FileId::new(3).unwrap(),
            "src/parser.ts",
            1,
            0,
            8,
            0,
            Some("Parse XML string"),
            Some("function parseXML(xml: string): Document"),
            "utils.parser",
            None,
            Visibility::Public,
            None,
            Some("typescript"),
        )
        .unwrap();

    index.commit_batch().unwrap();
    index
}

#[test]
fn test_search_with_language_filter() {
    let index = parse_index();

    let all_results = index.search("parse", 10, None, None, None).unwrap();
    assert_eq!(
        all_results.len(),
        3,
        "Should find 3 parse functions across all languages"
    );

    let rust_results = index.search("parse", 10, None, None, Some("rust")).unwrap();
    assert_eq!(rust_results.len(), 1, "Should find 1 Rust parse function");
    assert_eq!(rust_results[0].symbol_id, SymbolId::new(10).unwrap());

    let python_results = index
        .search("parse", 10, None, None, Some("python"))
        .unwrap();
    assert_eq!(
        python_results.len(),
        1,
        "Should find 1 Python parse function"
    );
    assert_eq!(python_results[0].symbol_id, SymbolId::new(11).unwrap());

    let rust_functions = index
        .search("parse", 10, Some(SymbolKind::Function), None, Some("rust"))
        .unwrap();
    assert_eq!(
        rust_functions.len(),
        1,
        "Should find 1 Rust function with 'parse'"
    );

    let java_results = index.search("parse", 10, None, None, Some("java")).unwrap();
    assert_eq!(java_results.len(), 0, "Should find no Java parse functions");
}

#[test]
fn search_reports_the_first_hits_up_to_the_limit() {
    let index = parse_index();
    let two = index.search("parse", 2, None, None, None).unwrap();
    assert_eq!(two.len(), 2);
    assert_eq!(two[0].name, "parse_config");
    assert_eq!(two[1].name, "parse_json");
    assert!(index.search("parse", 0, None, None, None).unwrap().is_empty());
    let structs = index
        .search("parse", 10, Some(SymbolKind::Struct), None, None)
        .unwrap();
    assert!(structs.is_empty());
    // A word of the documentation, whatever its case.
    let by_doc = index.search("CONFIGURATION", 10, None, None, None).unwrap();
    assert_eq!(by_doc.len(), 1);
    assert_eq!(by_doc[0].symbol_id, SymbolId::new(10).unwrap());
    assert_eq!(by_doc[0].doc_comment.as_deref(), Some("Parse configuration from file"));
    assert_eq!(by_doc[0].module, "crate::config");
    assert!(by_doc[0].highlights.is_empty());
    // Any term of the query may match.
    let either = index.search("nothing dict", 10, None, None, None).unwrap();
    assert_eq!(either.len(), 1);
    assert_eq!(either[0].name, "parse_json");
}

#[test]
fn search_takes_a_query_with_special_characters_as_it_is_written() {
    let mut index = new_index();
    index.start_batch().unwrap();
    add_plain(&mut index, 1, "Vec<T>Holder");
    add_plain(&mut index, 2, "Holder");
    index.commit_batch().unwrap();
    let results = index.search("Vec<T>", 10, None, None, None).unwrap();
    assert_eq!(results.len(), 1);
    assert_eq!(results[0].name, "Vec<T>Holder");
    assert!(index.search("interface{}", 10, None, None, None).unwrap().is_empty());
    // Taken as it is written, a query of more than ten characters is no part of a name.
    index.start_batch().unwrap();
    add_plain(&mut index, 3, "MyVec<T>Holder");
    index.commit_batch().unwrap();
    let long = index.search("Vec<T>Holder", 10, None, None, None).unwrap();
    assert_eq!(long.len(), 1);
    assert_eq!(long[0].name, "Vec<T>Holder");
}

#[test]
fn test_language_filter_with_module_filter() {
    let mut index = new_index();

    index.start_batch().unwrap();

    index
        .add_document(
            SymbolId::new(20).unwrap(),
            "Handler",
            SymbolKind::Struct,
            FileId::new(1).unwrap(),
            "src/server.rs",
            1,
            0,
            10,
            0,
            Some("Request handler"),
            Some("struct Handler"),
            "server",
            None,
            Visibility::Public,
            None,
            Some("rust"),
        )
        .unwrap();

    index
        .add_document(
            SymbolId::new(21).unwrap(),
            "Handler",
            SymbolKind::Class,
            FileId::new(2).unwrap(),
            "src/server.py",
            1,
            0,
            12,
            0,
            Some("Request handler class"),
            Some("class Handler"),
            "server",
            None,
            Visibility::Public,
            None,
            Some("python"),
        )
        .unwrap();

    index.commit_batch().unwrap();

    let rust_server = index
        .search("Handler", 10, None, Some("server"), Some("rust"))
        .unwrap();
    assert_eq!(
        rust_server.len(),
        1,
        "Should find 1 Rust Handler in server module"
    );
    assert_eq!(rust_server[0].symbol_id, SymbolId::new(20).unwrap());

    let python_server = index
        .search("Handler", 10, None, Some("server"), Some("python"))
        .unwrap();
    assert_eq!(
        python_server.len(),
        1,
        "Should find 1 Python Handler in server module"
    );
    assert_eq!(python_server[0].symbol_id, SymbolId::new(21).unwrap());
    assert_eq!(python_server[0].kind, SymbolKind::Class);
}

#[test]
fn test_ngram_partial_matching() {
    let mut index = new_index();

    index.start_batch().unwrap();

    let file_id = FileId::new(1).unwrap();

    let sym1 = Symbol::new(
        SymbolId::new(1).unwrap(),
        "ArchiveAppService",
        SymbolKind::Class,
        file_id,
        Range::new(10, 5, 50, 10),
    )
    .with_module_path("Services")
    .with_doc("Application service for archiving")
    .with_signature("class ArchiveAppService");

    index
        .index_symbol(&sym1, "src/Services/ArchiveAppService.cs")
        .unwrap();

    let sym2 = Symbol::new(
        SymbolId::new(2).unwrap(),
        "DocumentArchiver",
        SymbolKind::Class,
        file_id,
        Range::new(20, 5, 60, 10),
    )
    .with_module_path("Utils")
    .with_doc("Archives documents")
    .with_signature("class DocumentArchiver");

    index
        .index_symbol(&sym2, "src/Utils/DocumentArchiver.cs")
        .unwrap();

    let sym3 = Symbol::new(
        SymbolId::new(3).unwrap(),
        "UserService",
        SymbolKind::Class,
        file_id,
        Range::new(30, 5, 70, 10),
    )
    .with_module_path("Services")
    .with_doc("User management service")
    .with_signature("class UserService");

    index
        .index_symbol(&sym3, "src/Services/UserService.cs")
        .unwrap();

    index.commit_batch().unwrap();

    let results = index.search("Archive", 10, None, None, None).unwrap();

    let names: Vec<&str> = results.iter().map(|r| r.name.as_str()).collect();

    assert!(
        names.contains(&"ArchiveAppService"),
        "Ngram tokenizer should find ArchiveAppService with partial query 'Archive'. Found: {names:?}"
    );
    assert!(
        names.contains(&"DocumentArchiver"),
        "Ngram tokenizer should find DocumentArchiver with partial query 'Archive'. Found: {names:?}"
    );

    assert!(
        !names.contains(&"UserService"),
        "Should not match unrelated symbols. Found: {names:?}"
    );

    let exact_results = index
        .find_symbols_by_name("ArchiveAppService", None)
        .unwrap();

    assert_eq!(exact_results.len(), 1);
    assert_eq!(exact_results[0].name.as_str(), "ArchiveAppService");

    let no_match = index.find_symbols_by_name("Archive", None).unwrap();

    assert_eq!(
        no_match.len(),
        0,
        "Exact lookup should not return partial matches. Found: {:?}",
        no_match.iter().map(|s| &s.name).collect::<Vec<_>>()
    );
}

fn archive_service_index(with_doc: bool) -> DocumentIndex {
    let mut index = new_index();
    index.start_batch().unwrap();
    let file_id = FileId::new(1).unwrap();
    let mut sym = Symbol::new(
        SymbolId::new(1).unwrap(),
        "ArchiveService",
        SymbolKind::Class,
        file_id,
        Range::new(10, 5, 50, 10),
    );
    if with_doc {
        sym = sym.with_doc("Archive service");
    }
    index.index_symbol(&sym, "src/ArchiveService.cs").unwrap();
    index.commit_batch().unwrap();
    index
}

#[test]
fn test_fuzzy_search_typo_tolerance() {
    let index = archive_service_index(true);

    // Test 1: Correct spelling
    let correct = index
        .search("ArchiveService", 10, None, None, None)
        .unwrap();
    assert_eq!(correct.len(), 1);

    // Test 2: Missing one character (edit distance = 1)
    let typo1 = index.search("ArchivService", 10, None, None, None).unwrap();
    assert_eq!(typo1.len(), 1);
    assert_eq!(typo1[0].name, "ArchiveService");

    // Test 3: Wrong character (edit distance = 1)
    let typo2 = index
        .search("ArchaveService", 10, None, None, None)
        .unwrap();
    assert_eq!(typo2.len(), 1);

    // Test 4: Extra character (edit distance = 1)
    let typo3 = index.search("Archivee", 10, None, None, None).unwrap();
    assert_eq!(typo3.len(), 1);

    // Test 5: Too many errors (edit distance > 1)
    let too_many = index.search("Archhave", 10, None, None, None).unwrap();
    assert!(too_many.is_empty());
}

#[test]
fn test_ngram_vs_fuzzy_interaction() {
    let index = archive_service_index(false);

    let short_match = index.search("Arch", 10, None, None, None).unwrap();
    assert_eq!(short_match.len(), 1);

    let short_typo = index.search("Arsh", 10, None, None, None).unwrap();
    assert_eq!(short_typo.len(), 1);

    let long_typo = index.search("ArchivService", 10, None, None, None).unwrap();
    assert!(
        !long_typo.is_empty(),
        "Should find ArchiveService with typo"
    );

    let partial = index.search("Archive", 10, None, None, None).unwrap();
    assert_eq!(partial.len(), 1);
}

#[test]
fn test_import_persistence_across_reload() {
    let settings = Settings::default();

    // Create initial index
    let kept = {
        let mut index = DocumentIndex::new("index", &settings).unwrap();
        index.start_batch().unwrap();

        let file_id = FileId::new(1).unwrap();

        index
            .store_file_info(file_id, "src/main.rs", "hash123", 1234567890)
            .unwrap();

        let import1 = Import {
            path: "indicatif::ProgressBar".to_string(),
            alias: None,
            file_id,
            is_glob: false,
            is_type_only: false,
        };

        let import2 = Import {
            path: "serde::Serialize".to_string(),
            alias: Some("SerTrait".to_string()),
            file_id,
            is_glob: false,
            is_type_only: false,
        };

        index.store_import(&import1).unwrap();
        index.store_import(&import2).unwrap();

        index.commit_batch().unwrap();
        index.snapshot()
    }; // Drop index to simulate app shutdown

    // Reload index (simulate app restart)
    {
        let index = DocumentIndex::open("index", &settings, kept, None, None).unwrap();

        let loaded_imports = index.get_imports_for_file(FileId::new(1).unwrap()).unwrap();

        assert_eq!(
            loaded_imports.len(),
            2,
            "Should load 2 imports after reload"
        );

        let import1 = loaded_imports
            .iter()
            .find(|i| i.path == "indicatif::ProgressBar")
            .unwrap();
        assert_eq!(import1.alias, None);
        assert!(!import1.is_glob);
        assert!(!import1.is_type_only);

        let import2 = loaded_imports
            .iter()
            .find(|i| i.path == "serde::Serialize")
            .unwrap();
        assert_eq!(import2.alias.as_deref(), Some("SerTrait"));
        assert!(!import2.is_glob);
        assert!(!import2.is_type_only);
    }
}

#[test]
fn test_import_deletion_on_file_removal() {
    let mut index = new_index();

    index.start_batch().unwrap();

    let file_id = FileId::new(1).unwrap();

    index
        .store_file_info(file_id, "src/main.rs", "hash123", 1234567890)
        .unwrap();

    let import = Import {
        path: "std::collections::HashMap".to_string(),
        alias: None,
        file_id,
        is_glob: false,
        is_type_only: false,
    };
    index.store_import(&import).unwrap();

    index.commit_batch().unwrap();

    let imports = index.get_imports_for_file(file_id).unwrap();
    assert_eq!(imports.len(), 1);

    index.start_batch().unwrap();
    index.delete_imports_for_file(file_id).unwrap();
    index.commit_batch().unwrap();

    let imports_after = index.get_imports_for_file(file_id).unwrap();
    assert_eq!(imports_after.len(), 0, "Imports should be deleted");
}

// ---------------------------------------------------------------------------
// The batch protocol
// ---------------------------------------------------------------------------

#[test]
fn writes_without_a_batch_fail_fast() {
    let mut index = new_index();
    let id = SymbolId::new(1).unwrap();
    let file = FileId::new(1).unwrap();
    let symbol = Symbol::new(id, "f", SymbolKind::Function, file, Range::new(0, 0, 0, 0));
    let import = Import {
        path: "a::b".to_string(),
        alias: None,
        file_id: file,
        is_glob: true,
        is_type_only: true,
    };
    assert!(matches!(
        index.index_symbol(&symbol, "a.rs"),
        Err(StorageError::NoActiveBatch)
    ));
    assert!(matches!(
        index.store_relationship(id, id, &Relationship::new(RelationKind::Calls)),
        Err(StorageError::NoActiveBatch)
    ));
    assert!(matches!(
        index.store_file_info(file, "a.rs", "h", 1),
        Err(StorageError::NoActiveBatch)
    ));
    assert!(matches!(
        index.store_import(&import),
        Err(StorageError::NoActiveBatch)
    ));
    assert!(matches!(
        index.store_metadata(MetadataKey::FileCounter, 1),
        Err(StorageError::NoActiveBatch)
    ));
    assert!(matches!(
        index.delete_symbol(id),
        Err(StorageError::NoActiveBatch)
    ));
    assert!(matches!(
        index.delete_relationships_for_symbol(id),
        Err(StorageError::NoActiveBatch)
    ));
    assert!(matches!(
        index.delete_imports_for_file(file),
        Err(StorageError::NoActiveBatch)
    ));
    match index.commit_batch() {
        Err(StorageError::General(message)) => assert_eq!(message, "No active batch writer"),
        _ => panic!("a commit without a batch must fail"),
    }
    assert_eq!(index.document_count().unwrap(), 0);
}

#[test]
fn a_batch_is_invisible_until_it_is_committed() {
    let mut index = new_index();
    assert!(!index.has_active_batch());
    index.start_batch().unwrap();
    index.start_batch().unwrap();
    assert!(index.has_active_batch());
    add_plain(&mut index, 1, "first");
    add_plain(&mut index, 2, "second");
    assert_eq!(index.document_count().unwrap(), 0);
    assert!(index.find_symbols_by_name("first", None).unwrap().is_empty());
    assert_eq!(index.generation(), 0);
    index.commit_batch().unwrap();
    assert!(!index.has_active_batch());
    assert_eq!(index.generation(), 1);
    assert_eq!(index.count_symbols().unwrap(), 2);
    assert_eq!(index.find_symbols_by_name("first", None).unwrap().len(), 1);
}

#[test]
fn operations_of_a_batch_apply_in_order() {
    let mut index = new_index();
    index.start_batch().unwrap();
    add_plain(&mut index, 1, "old");
    index.delete_symbol(SymbolId::new(1).unwrap()).unwrap();
    add_plain(&mut index, 1, "new");
    index.commit_batch().unwrap();
    let found = index.find_symbol_by_id(SymbolId::new(1).unwrap()).unwrap().unwrap();
    assert_eq!(found.name, "new");
    assert_eq!(index.count_symbols().unwrap(), 1);

    index.start_batch().unwrap();
    index.store_metadata(MetadataKey::FileCounter, 1).unwrap();
    index.store_metadata(MetadataKey::FileCounter, 2).unwrap();
    index.commit_batch().unwrap();
    assert_eq!(index.query_metadata(MetadataKey::FileCounter).unwrap(), Some(2));
    assert_eq!(index.document_count().unwrap(), 2);
}

#[test]
fn relationships_with_a_zero_end_are_refused() {
    let mut index = new_index();
    index.start_batch().unwrap();
    let rel = Relationship::new(RelationKind::Calls);
    match index.store_relationship(SymbolId(0), SymbolId(1), &rel) {
        Err(StorageError::InvalidFieldValue { field, reason }) => {
            assert_eq!(field, "from_symbol_id");
            assert_eq!(reason, "not a valid u32");
        }
        _ => panic!("a relationship from symbol zero must be refused"),
    }
    match index.store_relationship(SymbolId(1), SymbolId(0), &rel) {
        Err(StorageError::InvalidFieldValue { field, .. }) => assert_eq!(field, "to_symbol_id"),
        _ => panic!("a relationship to symbol zero must be refused"),
    }
    index.commit_batch().unwrap();
    assert_eq!(index.count_relationships().unwrap(), 0);
}

#[test]
fn symbol_lookup_by_language() {
    let mut index = new_index();
    index.start_batch().unwrap();
    index
        .add_document(
            SymbolId::new(1).unwrap(),
            "main",
            SymbolKind::Function,
            FileId::new(1).unwrap(),
            "src/main.rs",
            0,
            0,
            0,
            12,
            None,
            Some("fn main() {}"),
            "crate",
            None,
            Visibility::Public,
            None,
            Some("rust"),
        )
        .unwrap();
    index
        .add_document(
            SymbolId::new(2).unwrap(),
            "main",
            SymbolKind::Function,
            FileId::new(2).unwrap(),
            "src/main.py",
            0,
            0,
            0,
            11,
            None,
            Some("def main():"),
            "__main__",
            None,
            Visibility::Public,
            None,
            Some("python"),
        )
        .unwrap();
    index.commit_batch().unwrap();

    let rust = index.find_symbols_by_name("main", Some("rust")).unwrap();
    assert_eq!(rust.len(), 1);
    assert_eq!(rust[0].file_path, "src/main.rs");
    assert_eq!(rust[0].signature.as_deref(), Some("fn main() {}"));
    assert_eq!(rust[0].kind, SymbolKind::Function);
    assert_eq!(rust[0].range, Range::new(0, 0, 0, 12));
    assert_eq!(rust[0].language_id, Some(LanguageId::new("rust")));

    let both = index.find_symbols_by_name("main", None).unwrap();
    assert_eq!(both.len(), 2);
    assert_eq!(both[0].id, SymbolId::new(1).unwrap());
    assert_eq!(both[1].id, SymbolId::new(2).unwrap());
}

#[test]
fn partial_and_fuzzy_search() {
    let mut index = new_index();
    index.start_batch().unwrap();
    add_plain(&mut index, 1, "ArchiveAppService");
    add_plain(&mut index, 2, "DocumentArchiver");
    add_plain(&mut index, 3, "UserService");
    add_plain(&mut index, 4, "ArchiveService");
    index.commit_batch().unwrap();

    let names: Vec<String> = index
        .search("Archive", 10, None, None, None)
        .unwrap()
        .into_iter()
        .map(|r| r.name)
        .collect();
    assert_eq!(
        names,
        vec!["ArchiveAppService", "DocumentArchiver", "ArchiveService"]
    );

    let near: Vec<String> = index
        .search("ArchivService", 10, None, None, None)
        .unwrap()
        .into_iter()
        .map(|r| r.name)
        .collect();
    assert_eq!(near, vec!["ArchiveService"]);
}

#[test]
fn relationship_round_trip() {
    let mut index = new_index();
    index.start_batch().unwrap();
    let from = SymbolId::new(1).unwrap();
    let to = SymbolId::new(2).unwrap();
    let rel = Relationship::new(RelationKind::Calls)
        .with_weight(0.8f32.to_bits())
        .with_metadata(
            RelationshipMetadata::new()
                .at_position(10, 5)
                .with_context("inside main"),
        );
    index.store_relationship(from, to, &rel).unwrap();
    index
        .store_relationship(to, from, &Relationship::new(RelationKind::Uses))
        .unwrap();
    index.commit_batch().unwrap();

    let edges = index.get_relationships_from(from, RelationKind::Calls).unwrap();
    assert_eq!(edges.len(), 1);
    let (f, t, r) = &edges[0];
    assert_eq!((*f, *t), (from, to));
    assert_eq!(r.kind, RelationKind::Calls);
    assert_eq!(f32::from_bits(r.weight_bits), 0.8);
    let meta = r.metadata.as_ref().unwrap();
    assert_eq!(meta.line, Some(10));
    assert_eq!(meta.column, Some(5));
    assert_eq!(meta.context.as_deref(), Some("inside main"));

    let back = index.get_relationships_to(to, RelationKind::Calls).unwrap();
    assert_eq!(back.len(), 1);
    assert_eq!(back[0].2, rel);
    assert!(index
        .get_relationships_from(from, RelationKind::Uses)
        .unwrap()
        .is_empty());
    let uses = index
        .get_all_relationships_by_kind(RelationKind::Uses)
        .unwrap();
    assert_eq!(uses.len(), 1);
    assert_eq!(uses[0].2.metadata, None);
    assert_eq!(f32::from_bits(uses[0].2.weight_bits), 1.0);
    assert_eq!(index.count_relationships().unwrap(), 2);

    index.start_batch().unwrap();
    index.delete_relationships_for_symbol(from).unwrap();
    index.commit_batch().unwrap();
    assert_eq!(index.count_relationships().unwrap(), 0);
}

#[test]
fn impact_radius_follows_dependents() {
    let mut index = new_index();
    index.start_batch().unwrap();
    let a = SymbolId::new(1).unwrap();
    let b = SymbolId::new(2).unwrap();
    let c = SymbolId::new(3).unwrap();
    let d = SymbolId::new(4).unwrap();
    // B calls A, C calls B, D calls C: a change of A reaches B, then C, then D.
    let calls = Relationship::new(RelationKind::Calls);
    index.store_relationship(b, a, &calls).unwrap();
    index.store_relationship(c, b, &calls).unwrap();
    index.store_relationship(d, c, &calls).unwrap();
    index.commit_batch().unwrap();

    assert_eq!(index.get_impact_radius(a, 0), vec![]);
    assert_eq!(index.get_impact_radius(a, 1), vec![b]);
    assert_eq!(index.get_impact_radius(a, 2), vec![b, c]);
    assert_eq!(index.get_impact_radius(a, 3), vec![b, c, d]);
    assert_eq!(index.get_impact_radius(a, 10), vec![b, c, d]);
    assert_eq!(index.get_impact_radius(d, 3), vec![]);
}

#[test]
fn impact_radius_reads_edges_in_either_direction_and_orders_levels() {
    let mut index = new_index();
    index.start_batch().unwrap();
    let id = |n: u32| SymbolId::new(n).unwrap();
    // 1 is called by 9 and used by 5; 9 is referenced by 7; 5 implements... nothing.
    index
        .store_relationship(id(1), id(9), &Relationship::new(RelationKind::CalledBy))
        .unwrap();
    index
        .store_relationship(id(5), id(1), &Relationship::new(RelationKind::Uses))
        .unwrap();
    index
        .store_relationship(id(9), id(7), &Relationship::new(RelationKind::ReferencedBy))
        .unwrap();
    index
        .store_relationship(id(3), id(9), &Relationship::new(RelationKind::Implements))
        .unwrap();
    // Cycles and edges of other kinds change nothing.
    index
        .store_relationship(id(1), id(7), &Relationship::new(RelationKind::Calls))
        .unwrap();
    index
        .store_relationship(id(1), id(8), &Relationship::new(RelationKind::Defines))
        .unwrap();
    index.commit_batch().unwrap();

    assert_eq!(index.get_impact_radius(id(1), 1), vec![id(5), id(9)]);
    assert_eq!(
        index.get_impact_radius(id(1), 2),
        vec![id(5), id(9), id(3), id(7)]
    );
    assert_eq!(
        index.get_impact_radius(id(1), 5),
        vec![id(5), id(9), id(3), id(7)]
    );
}

fn transient_failure() -> WriterError {
    WriterError {
        thread_message: None,
        message: "An IO error occurred: sharing violation (os error 32)".to_string(),
        io_causes: vec![IoCause { raw_os_error: Some(32), permission_denied: false }],
    }
}

#[test]
fn counter_bookkeeping_across_a_failed_attempt() {
    let mut index = new_index();
    index.start_batch().unwrap();
    index.store_metadata(MetadataKey::SymbolCounter, 100).unwrap();
    index.commit_batch().unwrap();

    index.start_batch().unwrap();
    for expected in [101, 102, 103] {
        let id = index.get_next_symbol_id().unwrap();
        assert_eq!(id, expected);
        add_plain(&mut index, id, "symbol");
    }
    // Before the commit neither the symbols nor the counter are visible.
    assert_eq!(index.query_metadata(MetadataKey::SymbolCounter).unwrap(), Some(100));

    match index.commit_attempt(0, Err(transient_failure())) {
        CommitStep::Retry { delay_ms } => assert!((80..=120).contains(&delay_ms)),
        other => panic!("a transient failure must be retried, got {other:?}"),
    }
    assert!(index.has_active_batch());
    assert_eq!(index.count_symbols().unwrap(), 0);

    assert!(matches!(index.commit_attempt(1, Ok(())), CommitStep::Committed));
    assert_eq!(index.count_symbols().unwrap(), 3);
    assert_eq!(index.query_metadata(MetadataKey::SymbolCounter).unwrap(), Some(103));

    index.start_batch().unwrap();
    assert_eq!(index.get_next_symbol_id().unwrap(), 104);
    assert_eq!(index.get_next_file_id().unwrap(), 1);
    assert_eq!(index.get_next_file_id().unwrap(), 2);
    index.update_pending_symbol_counter(200).unwrap();
    assert_eq!(index.get_next_symbol_id().unwrap(), 200);
    index.commit_batch().unwrap();
    assert_eq!(index.query_metadata(MetadataKey::SymbolCounter).unwrap(), Some(200));
    assert_eq!(index.query_metadata(MetadataKey::FileCounter).unwrap(), Some(2));
    // Without a batch no number is handed out.
    assert!(matches!(index.get_next_symbol_id(), Err(StorageError::NoActiveBatch)));
    assert!(matches!(index.get_next_file_id(), Err(StorageError::NoActiveBatch)));
    index.start_batch().unwrap();
    assert_eq!(index.get_next_symbol_id().unwrap(), 201);
    assert_eq!(index.get_next_symbol_id().unwrap(), 202);
    assert_eq!(index.get_next_file_id().unwrap(), 3);
}

#[test]
fn a_killed_writer_loses_the_batch_and_the_counters_resume() {
    let mut index = new_index();
    index.start_batch().unwrap();
    index.store_metadata(MetadataKey::SymbolCounter, 100).unwrap();
    index.commit_batch().unwrap();

    index.start_batch().unwrap();
    assert_eq!(index.get_next_symbol_id().unwrap(), 101);
    add_plain(&mut index, 101, "lost");
    let killed = WriterError {
        thread_message: Some("Index writer was killed. A worker thread panicked.".to_string()),
        message: "An error occurred in a thread: 'Index writer was killed.'".to_string(),
        io_causes: vec![],
    };
    match index.commit_attempt(0, Err(killed)) {
        CommitStep::Failed(StorageError::General(message)) => {
            assert!(message.starts_with("IndexWriter was killed by internal worker error"));
        }
        other => panic!("a killed writer is fatal, got {other:?}"),
    }
    assert!(!index.has_active_batch());
    assert_eq!(index.count_symbols().unwrap(), 0);
    assert!(matches!(
        index.commit_attempt(1, Ok(())),
        CommitStep::Failed(StorageError::General(_))
    ));

    index.start_batch().unwrap();
    assert_eq!(index.get_next_symbol_id().unwrap(), 101);
}

#[test]
fn a_failure_that_is_not_transient_keeps_the_batch_open() {
    let mut index = new_index();
    index.start_batch().unwrap();
    add_plain(&mut index, 1, "kept");
    let failure = WriterError {
        thread_message: None,
        message: "Data corrupted".to_string(),
        io_causes: vec![],
    };
    match index.commit_attempt(0, Err(failure)) {
        CommitStep::Failed(StorageError::General(message)) => {
            assert_eq!(
                message,
                "Tantivy commit failed after retries at 'index': Data corrupted"
            );
        }
        other => panic!("expected a failure, got {other:?}"),
    }
    assert!(index.has_active_batch());
    // The last attempt is never retried, whatever the failure.
    assert!(matches!(
        index.commit_attempt(3, Err(transient_failure())),
        CommitStep::Failed(_)
    ));
    assert!(matches!(
        index.commit_attempt(2, Err(transient_failure())),
        CommitStep::Retry { .. }
    ));
    index.commit_batch().unwrap();
    assert_eq!(index.count_symbols().unwrap(), 1);
}

#[test]
fn removing_a_file_removes_everything_that_belongs_to_it() {
    let mut index = new_index();
    index.start_batch().unwrap();
    let file1 = FileId::new(1).unwrap();
    let file2 = FileId::new(2).unwrap();
    index.store_file_info(file1, "src/a.rs", "h1", 1).unwrap();
    index.store_file_info(file2, "src/b.rs", "h2", 2).unwrap();
    for (id, name, file, path) in [
        (1, "alpha", file1, "src/a.rs"),
        (2, "beta", file1, "src/a.rs"),
        (3, "gamma", file2, "src/b.rs"),
        (4, "delta", file2, "src/b.rs"),
    ] {
        let symbol = Symbol::new(
            SymbolId::new(id).unwrap(),
            name,
            SymbolKind::Function,
            file,
            Range::new(1, 0, 2, 0),
        );
        index.index_symbol(&symbol, path).unwrap();
    }
    let id = |n: u32| SymbolId::new(n).unwrap();
    let calls = Relationship::new(RelationKind::Calls);
    index.store_relationship(id(1), id(3), &calls).unwrap();
    index.store_relationship(id(3), id(2), &calls).unwrap();
    index.store_relationship(id(3), id(4), &calls).unwrap();
    for (path, file) in [("x::y", file1), ("z::w", file2)] {
        index
            .store_import(&Import {
                path: path.to_string(),
                alias: None,
                file_id: file,
                is_glob: false,
                is_type_only: false,
            })
            .unwrap();
    }
    index.commit_batch().unwrap();
    let generation = index.generation();

    // Without a batch the removal is committed at once.
    index.remove_file_documents("src/a.rs").unwrap();
    assert_eq!(index.generation(), generation + 1);
    assert!(index.find_symbols_by_file(file1).unwrap().is_empty());
    assert!(index.get_imports_for_file(file1).unwrap().is_empty());
    assert_eq!(index.get_file_info("src/a.rs").unwrap(), None);
    let left = index.query_relationships().unwrap();
    assert_eq!(left.len(), 1);
    assert_eq!((left[0].0, left[0].1), (id(3), id(4)));
    assert_eq!(index.find_symbols_by_file(file2).unwrap().len(), 2);
    assert_eq!(index.get_imports_for_file(file2).unwrap().len(), 1);
    assert_eq!(index.get_all_indexed_paths().unwrap(), vec!["src/b.rs"]);

    // With a batch it waits for the commit.
    index.start_batch().unwrap();
    index.remove_file_documents("src/b.rs").unwrap();
    assert_eq!(index.count_symbols().unwrap(), 2);
    index.commit_batch().unwrap();
    assert_eq!(index.document_count().unwrap(), 0);
}

#[test]
fn clear_deletes_everything() {
    let mut index = new_index();
    index.start_batch().unwrap();
    add_plain(&mut index, 1, "one");
    assert!(matches!(index.clear(), Err(StorageError::TantivyError(_))));
    index.commit_batch().unwrap();
    assert_eq!(index.document_count().unwrap(), 1);
    index.clear().unwrap();
    assert_eq!(index.document_count().unwrap(), 0);
    assert_eq!(index.path(), "index");
}

#[test]
fn reopening_refuses_documents_that_are_not_valid() {
    let settings = Settings::default();
    let mut index = DocumentIndex::new("index", &settings)
        .unwrap()
        .with_vector_support(VectorSearchEngine::new(384), "vectors")
        .with_embedding_generator();
    index.start_batch().unwrap();
    add_plain(&mut index, 1, "one");
    index.commit_batch().unwrap();
    let clustered = vec![(VectorId::new(1).unwrap(), ClusterId::new(4).unwrap())];
    index.post_commit_vector_processing(1, &clustered).unwrap();
    index.update_cluster_assignments().unwrap();
    let kept = index.snapshot();
    assert_eq!(kept.len(), 1);

    // The documents claim a vector: without an engine that holds it they are refused.
    match DocumentIndex::open("index", &settings, index.snapshot(), None, None) {
        Err(StorageError::InvalidFieldValue { field, .. }) => assert_eq!(field, "document"),
        _ => panic!("a claimed vector without an engine must be refused"),
    }
    let empty = VectorSearchEngine::new(384);
    assert!(DocumentIndex::open("index", &settings, index.snapshot(), Some(empty), Some("vectors")).is_err());

    let mut engine = VectorSearchEngine::new(384);
    engine.assign(VectorId::new(1).unwrap(), ClusterId::new(4).unwrap());
    let reopened =
        DocumentIndex::open("index", &settings, kept, Some(engine), Some("vectors")).unwrap();
    assert_eq!(reopened.count_symbols().unwrap(), 1);
    assert_eq!(reopened.generation(), 1);
    let clusters = reopened.get_all_cluster_ids().unwrap();
    assert_eq!(clusters, vec![ClusterId::new(4).unwrap()]);
    assert_eq!(
        reopened
            .get_cluster_documents(SegmentOrdinal::new(0), ClusterId::new(4).unwrap())
            .unwrap(),
        vec![0]
    );
}

#[test]
fn vector_processing_reports_what_is_missing() {
    // Without queued symbols nothing happens.
    let mut plain = new_index();
    plain.post_commit_vector_processing(0, &vec![]).unwrap();
    plain.update_cluster_assignments().unwrap();
    plain.warm_cluster_cache().unwrap();
    plain.build_cluster_cache().unwrap();
    plain.reload_and_warm().unwrap();
    assert_eq!(plain.get_cache_generation().unwrap(), None);
    assert!(plain
        .get_cluster_documents(SegmentOrdinal::new(0), ClusterId::new(1).unwrap())
        .unwrap()
        .is_empty());

    let mut index = new_index()
        .with_vector_support(VectorSearchEngine::new(384), "vectors")
        .with_embedding_generator();
    index.start_batch().unwrap();
    add_plain(&mut index, 1, "one");
    add_plain(&mut index, 2, "two");
    index.commit_batch().unwrap();
    match index.post_commit_vector_processing(1, &vec![]) {
        Err(StorageError::General(message)) => {
            assert_eq!(message, "Embedding count mismatch: expected 2, got 1")
        }
        _ => panic!("a missing embedding must be reported"),
    }
    // The commit stays durable, the symbols stay without a vector.
    assert_eq!(index.count_symbols().unwrap(), 2);
    assert!(index.get_all_cluster_ids().unwrap().is_empty());
    assert!(index.pending_embedding_texts().is_empty());
    index.warm_cluster_cache().unwrap();
    assert_eq!(index.get_cache_generation().unwrap(), Some(1));
}
