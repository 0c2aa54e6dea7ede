use codanna::settings_text::split_lines;
use codanna::config::{
    default_bind_address, default_debounce_ms, default_embedding_model, default_false,
    default_guidance_templates, default_guidance_variables, default_index_path,
    default_max_context_size, default_max_retry_attempts, default_server_mode,
    default_tantivy_heap_mb, default_true, default_version, default_watch_interval,
    fallback_minimal_languages, is_global_debug_enabled, GuidanceConfig, IndexingConfig,
    McpConfig, SemanticSearchConfig, ServerConfig, Settings,
};
use codanna::error::{ErrorContext, IndexError};
use codanna::indexing::retry::{
    backoff_ms, commit_retries, effective_attempts, extract_error_code_from_message,
    extract_windows_error_code, is_windows_transient_io_error, is_writer_killed, win_error_name,
    windows_error_retry_class, writer_retry, IoCause, WindowsIoRetryClass, WriterError,
    WriterRetry,
};
use codanna::init::{
    fastembed_cache_name, global_dir, local_dir_name, models_dir, projects_file,
    resolve_index_path, ProjectId, ProjectRegistry,
};
use codanna::mcp::{format_relative_time, relative_time_text};
use codanna::profiles::{profiles_dir, provider_registry_path};
use codanna::project_resolver::{ResolutionError, Sha256Hash};
use codanna::storage::document::Document;
use codanna::storage::schema::{FieldType, IndexSchema, Tokenizer};
use codanna::storage::shapes::{document_to_symbol, symbol_document};
use codanna::symbol::{ScopeContext, Visibility};
use codanna::error::StorageError;
use codanna::text::{chars_of, decimal_text, str_contains, string_of, to_hex};
use codanna::types::{FileId, IndexingResult, Range, SymbolId, SymbolKind};

// ---------------------------------------------------------------------------
// Settings
// ---------------------------------------------------------------------------

#[test]
fn test_default_settings() {
    let settings = Settings::default();
    assert_eq!(settings.version, 1);
    let expected_index_path = format!("{}/index", local_dir_name());
    assert_eq!(settings.index_path, expected_index_path);
    assert!(settings.indexing.parallel_threads > 0);
    assert!(settings.languages.iter().any(|(name, _)| name == "rust"));
}

#[test]
fn default_values() {
    assert_eq!(default_version(), 1);
    assert_eq!(default_index_path(), ".codanna/index");
    assert_eq!(default_tantivy_heap_mb(), 50);
    assert_eq!(default_max_retry_attempts(), 3);
    assert!(default_true());
    assert!(!default_false());
    assert_eq!(default_max_context_size(), 100_000);
    assert_eq!(default_embedding_model(), "AllMiniLML6V2");
    assert_eq!(default_debounce_ms(), 500);
    assert_eq!(default_server_mode(), "stdio");
    assert_eq!(default_bind_address(), "127.0.0.1:8080");
    assert_eq!(default_watch_interval(), 5);

    let indexing = IndexingConfig::with_parallel_threads(8);
    assert_eq!(indexing.parallel_threads, 8);
    assert_eq!(
        indexing.ignore_patterns,
        vec!["target/**", "node_modules/**", ".git/**", "*.generated.*"]
    );
    assert_eq!(McpConfig::default().max_context_size, 100_000);
    assert!(!McpConfig::default().debug);
    let semantic = SemanticSearchConfig::default();
    assert!(semantic.enabled);
    assert_eq!(f32::from_bits(semantic.threshold_bits), 0.6);
    let server = ServerConfig::default();
    assert_eq!(server.mode, "stdio");
    assert_eq!(server.bind, "127.0.0.1:8080");
    assert_eq!(server.watch_interval, 5);

    let languages = fallback_minimal_languages();
    assert_eq!(languages.len(), 1);
    assert_eq!(languages[0].0, "rust");
    assert_eq!(languages[0].1.extensions, vec!["rs"]);

    let settings = Settings::with_parallel_threads(2);
    assert!(!is_global_debug_enabled(Some(&settings)));
    assert!(!is_global_debug_enabled(None));
    let mut debugging = Settings::with_parallel_threads(2);
    debugging.debug = true;
    assert!(is_global_debug_enabled(Some(&debugging)));
}

#[test]
fn default_guidance() {
    let templates = default_guidance_templates();
    assert_eq!(templates.len(), 8);
    let names: Vec<&str> = templates.iter().map(|(n, _)| n.as_str()).collect();
    assert_eq!(
        names,
        vec![
            "semantic_search_docs",
            "find_symbol",
            "get_calls",
            "find_callers",
            "analyze_impact",
            "search_symbols",
            "semantic_search_with_context",
            "get_index_info",
        ]
    );
    let impact = &templates[4].1;
    assert_eq!(
        impact.single_result.as_deref(),
        Some("Minimal impact radius. This symbol has limited dependencies.")
    );
    assert_eq!(impact.custom.len(), 2);
    assert_eq!(impact.custom[0].min, 2);
    assert_eq!(impact.custom[0].max, Some(5));
    assert_eq!(impact.custom[1].min, 20);
    assert_eq!(impact.custom[1].max, None);
    let info = &templates[7].1;
    assert!(info.no_results.is_none());
    assert!(info.multiple_results.is_none());
    assert_eq!(
        default_guidance_variables(),
        vec![("project".to_string(), "codanna".to_string())]
    );
    let config = GuidanceConfig::default();
    assert!(config.enabled);
    assert_eq!(config.templates.len(), 8);
}

#[test]
fn test_add_indexed_path() {
    let mut settings = Settings::default();

    assert!(settings
        .add_indexed_path("/work/test_folder", "test_folder")
        .is_ok());
    assert_eq!(settings.indexing.indexed_paths.len(), 1);

    let result = settings.add_indexed_path("/work/test_folder", "test_folder");
    assert_eq!(result, Err("Path already indexed: test_folder".to_string()));
    assert_eq!(settings.indexing.indexed_paths.len(), 1);
}

#[test]
fn test_remove_indexed_path() {
    let mut settings = Settings::default();

    settings
        .add_indexed_path("/work/test_folder", "test_folder")
        .unwrap();
    assert_eq!(settings.indexing.indexed_paths.len(), 1);

    assert!(settings
        .remove_indexed_path("/work/test_folder", "test_folder")
        .is_ok());
    assert_eq!(settings.indexing.indexed_paths.len(), 0);

    let result = settings.remove_indexed_path("/work/test_folder", "test_folder");
    assert_eq!(
        result,
        Err("Path not found in indexed paths: test_folder".to_string())
    );
}

#[test]
fn test_multiple_indexed_paths() {
    let mut settings = Settings::default();

    settings.add_indexed_path("/work/folder1", "folder1").unwrap();
    settings.add_indexed_path("/work/folder2", "folder2").unwrap();
    settings.add_indexed_path("/work/folder3", "folder3").unwrap();

    assert_eq!(settings.indexing.indexed_paths.len(), 3);

    settings.remove_indexed_path("/work/folder2", "folder2").unwrap();
    assert_eq!(settings.indexing.indexed_paths.len(), 2);

    assert_eq!(
        settings.get_indexed_paths(),
        vec!["/work/folder1", "/work/folder3"]
    );
}

#[test]
fn test_add_indexed_path_skips_child_when_parent_exists() {
    let mut settings = Settings::default();
    settings.add_indexed_path("/work/parent", "parent").unwrap();
    assert_eq!(settings.indexing.indexed_paths.len(), 1);

    let result = settings.add_indexed_path("/work/parent/child", "parent/child");
    assert!(result.is_err());
    assert_eq!(settings.indexing.indexed_paths.len(), 1);

    let error_message = result.unwrap_err();
    assert!(
        error_message.contains("already indexed"),
        "expected duplicate error, got: {error_message}"
    );
    assert_eq!(
        error_message,
        "Path already indexed: parent/child (covered by /work/parent)"
    );
    // A sibling whose name merely starts alike is not covered.
    assert!(settings.add_indexed_path("/work/parent2", "parent2").is_ok());
}

#[test]
fn test_add_indexed_path_replaces_children_when_adding_parent() {
    let mut settings = Settings::default();
    settings
        .add_indexed_path("/work/parent/child", "parent/child")
        .unwrap();
    assert_eq!(settings.indexing.indexed_paths.len(), 1);

    settings.add_indexed_path("/work/parent", "parent").unwrap();
    assert_eq!(settings.indexing.indexed_paths.len(), 1);

    let stored = settings
        .indexing
        .indexed_paths
        .first()
        .expect("expected parent path");
    assert_eq!(stored, "/work/parent");
    assert_eq!(settings.indexed_paths_cache, vec!["/work/parent"]);
}

#[test]
fn test_get_indexed_paths_with_default() {
    let settings = Settings::default();
    let paths = settings.get_indexed_paths();
    assert_eq!(paths.len(), 0);
}

#[test]
fn test_get_indexed_paths_with_configured_paths() {
    let mut settings = Settings::default();
    settings
        .add_indexed_path("/work/test_folder", "test_folder")
        .unwrap();

    let paths = settings.get_indexed_paths();
    assert_eq!(paths.len(), 1);
    assert_eq!(paths[0], "/work/test_folder");
}

// ---------------------------------------------------------------------------
// Directories and projects
// ---------------------------------------------------------------------------

#[test]
fn test_global_paths() {
    let global = global_dir("/home/user");
    assert!(global.ends_with(".codanna"));
    assert_eq!(global, "/home/user/.codanna");

    let models = models_dir(&global);
    assert!(models.ends_with(".codanna/models"));

    let projects = projects_file(&global);
    assert!(projects.ends_with(".codanna/projects.json"));

    assert_eq!(profiles_dir(&global), "/home/user/.codanna/profiles");
    assert_eq!(
        provider_registry_path(&global),
        "/home/user/.codanna/providers.json"
    );
    assert_eq!(fastembed_cache_name(), ".fastembed_cache");
}

#[test]
fn project_ids_are_made_from_digests() {
    // The SHA-256 digest of "abc" starts ba7816bf 8f01cfea 414140de 5dae2223.
    let id = ProjectId::from_seed(&b"abc".to_vec());
    assert_eq!(id.as_str(), "ba7816bf8f01cfea414140de5dae2223");
    let empty = ProjectId::from_seed(&Vec::new());
    assert_eq!(empty.as_str(), "e3b0c44298fc1c149afbf4c8996fb924");

    let digest: Vec<u8> = (0u8..32).collect();
    assert_eq!(
        ProjectId::from_digest(&digest).as_str(),
        "000102030405060708090a0b0c0d0e0f"
    );

    let fresh = ProjectId::new();
    assert_eq!(fresh.as_str().len(), 32);
    assert!(fresh
        .as_str()
        .chars()
        .all(|c| c.is_ascii_digit() || ('a'..='f').contains(&c)));
    assert_ne!(fresh, ProjectId::new());
    assert_eq!(ProjectId::from_string("abc".to_string()).as_str(), "abc");
}

#[test]
fn the_registry_keeps_each_project_once() {
    let mut registry = ProjectRegistry::new();
    assert!(registry.find_project_by_id("one").is_none());
    let one = ProjectId::from_string("one".to_string());
    let two = ProjectId::from_string("two".to_string());
    assert_eq!(registry.register_project("/work/alpha", &one), "one");
    assert_eq!(registry.register_or_update_project("/work/beta", &two), "two");
    // A path that is registered keeps its identifier.
    let three = ProjectId::from_string("three".to_string());
    assert_eq!(registry.register_or_update_project("/work/alpha", &three), "one");
    assert!(registry.find_project_by_id("three").is_none());

    let alpha = registry.find_project_by_id("one").unwrap();
    assert_eq!(alpha.name, "alpha");
    assert_eq!(alpha.path, "/work/alpha");
    assert_eq!(alpha.symbol_count, 0);
    let (id, info) = registry.find_project_by_path("/work/beta").unwrap();
    assert_eq!(id, "two");
    assert_eq!(info.name, "beta");
    assert!(registry.find_project_by_path("/work/gamma").is_none());

    registry.find_project_by_id_mut("one").unwrap().symbol_count = 12;
    assert_eq!(registry.find_project_by_id("one").unwrap().symbol_count, 12);
    assert!(registry.find_project_by_id_mut("none").is_none());

    registry.update_project_path("two", "/srv/moved").unwrap();
    assert_eq!(registry.find_project_by_id("two").unwrap().name, "moved");
    assert!(registry.find_project_by_path("/work/beta").is_none());
    match registry.update_project_path("nine", "/srv/x") {
        Err(IndexError::General(message)) => assert_eq!(
            message,
            "Project nine not found\nSuggestion: Run 'codanna init' in the project directory"
        ),
        _ => panic!("an unknown project cannot move"),
    }
    assert_eq!(ProjectRegistry::create_project_info("/").name, "unnamed");
    assert_eq!(ProjectRegistry::create_project_info("plain").name, "plain");
}

#[test]
fn the_index_path_is_resolved_against_the_workspace() {
    let mut settings = Settings::default();
    assert_eq!(resolve_index_path(&settings, None), ".codanna/index");
    assert_eq!(
        resolve_index_path(&settings, Some("/work/project/.codanna/settings.toml")),
        "/work/project/.codanna/index"
    );
    assert_eq!(
        resolve_index_path(&settings, Some("/etc/codanna/settings.toml")),
        "/etc/codanna/.codanna/index"
    );
    assert_eq!(
        resolve_index_path(&settings, Some("settings.toml")),
        ".codanna/index"
    );
    settings.workspace_root = Some("/work/root".to_string());
    assert_eq!(resolve_index_path(&settings, None), "/work/root/.codanna/index");
    settings.index_path = "/var/index".to_string();
    assert_eq!(
        resolve_index_path(&settings, Some("/work/project/.codanna/settings.toml")),
        "/var/index"
    );
}

// ---------------------------------------------------------------------------
// Retry policy
// ---------------------------------------------------------------------------

fn failure(message: &str, causes: Vec<IoCause>) -> WriterError {
    WriterError { thread_message: None, message: message.to_string(), io_causes: causes }
}

#[test]
fn error_codes_are_read_from_messages() {
    assert_eq!(extract_error_code_from_message("failed (os error 5)"), Some(5));
    assert_eq!(extract_error_code_from_message("os error: 32"), Some(32));
    assert_eq!(extract_error_code_from_message("os error  1224 ) more"), Some(1224));
    assert_eq!(extract_error_code_from_message("os error -7)"), Some(-7));
    assert_eq!(extract_error_code_from_message("os error +7"), Some(7));
    assert_eq!(extract_error_code_from_message("os error"), None);
    assert_eq!(extract_error_code_from_message("os error x)"), None);
    assert_eq!(extract_error_code_from_message("os error 2147483647"), Some(i32::MAX));
    assert_eq!(extract_error_code_from_message("os error -2147483648"), Some(i32::MIN));
    assert_eq!(extract_error_code_from_message("os error 2147483648"), None);
    assert_eq!(extract_error_code_from_message("os error 00000000000042"), Some(42));
    assert_eq!(extract_error_code_from_message("OpenWriteError { code: 5, kind: x }"), Some(5));
    assert_eq!(extract_error_code_from_message("code: 183"), Some(183));
    assert_eq!(extract_error_code_from_message("code:80,, rest"), Some(80));
    assert_eq!(extract_error_code_from_message("code:"), None);
    assert_eq!(extract_error_code_from_message("code: five"), None);
    // The first marker decides, and "os error" goes before "code:".
    assert_eq!(extract_error_code_from_message("code: 1 os error 2)"), Some(2));
    assert_eq!(extract_error_code_from_message("nothing here"), None);
}

#[test]
fn failures_are_classified_by_code() {
    let cause = |code: i32, denied: bool| IoCause {
        raw_os_error: Some(code),
        permission_denied: denied,
    };
    for code in [32, 33, 1224, 995] {
        let e = failure("io", vec![cause(code, false)]);
        assert_eq!(windows_error_retry_class(&e), WindowsIoRetryClass::Always);
        assert!(is_windows_transient_io_error(&e));
    }
    for code in [80, 183, 145] {
        let e = failure("io", vec![cause(code, false)]);
        assert_eq!(windows_error_retry_class(&e), WindowsIoRetryClass::Limited(2));
    }
    let denied = failure("io", vec![cause(5, true)]);
    assert_eq!(windows_error_retry_class(&denied), WindowsIoRetryClass::Conditional);
    let plain5 = failure("io", vec![cause(5, false)]);
    assert_eq!(windows_error_retry_class(&plain5), WindowsIoRetryClass::Never);
    assert!(!is_windows_transient_io_error(&plain5));
    let other = failure("io", vec![cause(2, false)]);
    assert_eq!(windows_error_retry_class(&other), WindowsIoRetryClass::Never);

    // A cause without a code takes the code of the message.
    let by_message = failure(
        "failed (os error 33)",
        vec![IoCause { raw_os_error: None, permission_denied: false }],
    );
    assert_eq!(windows_error_retry_class(&by_message), WindowsIoRetryClass::Always);
    // Without causes the message alone decides.
    assert_eq!(
        windows_error_retry_class(&failure("PermissionDenied (os error 5)", vec![])),
        WindowsIoRetryClass::Conditional
    );
    // What follows the number must end with a bracket for the number to be read.
    assert_eq!(
        windows_error_retry_class(&failure("os error 5: PermissionDenied", vec![])),
        WindowsIoRetryClass::Never
    );
    assert_eq!(
        windows_error_retry_class(&failure("os error 5", vec![])),
        WindowsIoRetryClass::Never
    );
    assert_eq!(
        windows_error_retry_class(&failure("code: 145", vec![])),
        WindowsIoRetryClass::Limited(2)
    );
    // The first cause that is classified decides.
    let two = failure("io", vec![cause(2, false), cause(80, false), cause(32, false)]);
    assert_eq!(windows_error_retry_class(&two), WindowsIoRetryClass::Limited(2));
    assert_eq!(extract_windows_error_code(&two), Some(2));
    assert_eq!(extract_windows_error_code(&failure("x", vec![])), None);

    let killed = WriterError {
        thread_message: Some("Index writer was killed".to_string()),
        message: "os error 32".to_string(),
        io_causes: vec![cause(32, false)],
    };
    assert!(is_writer_killed(&killed));
    assert_eq!(windows_error_retry_class(&killed), WindowsIoRetryClass::Never);
    let thread = WriterError {
        thread_message: Some("something else".to_string()),
        message: "os error 32".to_string(),
        io_causes: vec![],
    };
    assert!(!is_writer_killed(&thread));
    assert_eq!(windows_error_retry_class(&thread), WindowsIoRetryClass::Always);
}

#[test]
fn backoff_formula() {
    assert_eq!(backoff_ms(0, 0), 80);
    assert_eq!(backoff_ms(0, 40), 120);
    assert_eq!(backoff_ms(0, 41), 80);
    assert_eq!(backoff_ms(1, 0), 100);
    assert_eq!(backoff_ms(1, 50), 150);
    assert_eq!(backoff_ms(1, 51), 100);
    assert_eq!(backoff_ms(2, 7), 207);
    assert_eq!(backoff_ms(3, 123_456_789), 400 + 123_456_789 % 51);
    assert_eq!(backoff_ms(4, 1), 801);
    assert_eq!(backoff_ms(u32::MAX, u64::MAX), 800 + u64::MAX % 51);
}

#[test]
fn retries_are_bounded() {
    assert_eq!(effective_attempts(0), 4);
    assert_eq!(effective_attempts(3), 4);
    assert_eq!(effective_attempts(7), 7);
    assert!(commit_retries(WindowsIoRetryClass::Always, 0, 4));
    assert!(commit_retries(WindowsIoRetryClass::Always, 2, 4));
    assert!(!commit_retries(WindowsIoRetryClass::Always, 3, 4));
    assert!(commit_retries(WindowsIoRetryClass::Conditional, 1, 4));
    assert!(commit_retries(WindowsIoRetryClass::Limited(2), 1, 4));
    assert!(!commit_retries(WindowsIoRetryClass::Limited(2), 2, 4));
    assert!(!commit_retries(WindowsIoRetryClass::Never, 0, 4));
    assert!(!commit_retries(WindowsIoRetryClass::Always, 9, 4));

    let transient = failure("os error 32", vec![]);
    match writer_retry(&transient, 1, 3) {
        WriterRetry::RetryAfter(delay) => assert!((100..=150).contains(&delay)),
        WriterRetry::GiveUp => panic!("a transient failure with attempts left is retried"),
    }
    assert_eq!(writer_retry(&transient, 3, 3), WriterRetry::GiveUp);
    assert_eq!(writer_retry(&failure("broken", vec![]), 0, 3), WriterRetry::GiveUp);
    assert_eq!(win_error_name(32), "ERROR_SHARING_VIOLATION");
    assert_eq!(win_error_name(1224), "ERROR_USER_MAPPED_FILE");
    assert_eq!(win_error_name(4), "UNKNOWN");
}

// ---------------------------------------------------------------------------
// Errors
// ---------------------------------------------------------------------------

#[test]
fn index_errors_carry_codes_and_suggestions() {
    let errors = vec![
        (IndexError::FileRead { path: "a".into(), source: "s".into() }, "FILE_READ_ERROR", 2),
        (IndexError::FileWrite { path: "a".into(), source: "s".into() }, "FILE_WRITE_ERROR", 0),
        (
            IndexError::ParseError { path: "a".into(), language: "l".into(), reason: "r".into() },
            "PARSE_ERROR",
            0,
        ),
        (
            IndexError::UnsupportedFileType { path: "a".into(), extension: "x".into() },
            "UNSUPPORTED_FILE_TYPE",
            2,
        ),
        (
            IndexError::PersistenceError { path: "a".into(), source: "s".into() },
            "PERSISTENCE_ERROR",
            2,
        ),
        (IndexError::LoadError { path: "a".into(), source: "s".into() }, "LOAD_ERROR", 2),
        (IndexError::SymbolNotFound { name: "n".into() }, "SYMBOL_NOT_FOUND", 0),
        (IndexError::FileNotFound { id: FileId(1) }, "FILE_NOT_FOUND", 0),
        (IndexError::FileIdExhausted, "FILE_ID_EXHAUSTED", 0),
        (IndexError::SymbolIdExhausted, "SYMBOL_ID_EXHAUSTED", 0),
        (IndexError::ConfigError { reason: "r".into() }, "CONFIG_ERROR", 0),
        (
            IndexError::TantivyError { operation: "o".into(), cause: "c".into() },
            "TANTIVY_ERROR",
            2,
        ),
        (
            IndexError::TransactionFailed { operations: vec![], cause: "c".into() },
            "TRANSACTION_FAILED",
            2,
        ),
        (IndexError::MutexPoisoned, "MUTEX_POISONED", 2),
        (IndexError::IndexCorrupted { reason: "r".into() }, "INDEX_CORRUPTED", 2),
        (IndexError::General("g".into()), "GENERAL_ERROR", 0),
    ];
    for (error, code, suggestions) in errors {
        assert_eq!(error.status_code(), code);
        assert_eq!(error.recovery_suggestions().len(), suggestions);
    }
    assert_eq!(
        IndexError::MutexPoisoned.recovery_suggestions(),
        vec![
            "Restart the application to clear the poisoned state",
            "If the problem persists, run 'codanna index --force'",
        ]
    );
}

#[test]
fn context_is_added_to_errors() {
    let ok: Result<u32, String> = Ok(7);
    assert_eq!(ok.context("reading").unwrap(), 7);
    let failed: Result<u32, String> = Err("denied".to_string());
    match failed.clone().context("reading the settings") {
        Err(IndexError::General(message)) => assert_eq!(message, "reading the settings: denied"),
        _ => panic!("the error must be kept"),
    }
    match failed.with_path("/a/b") {
        Err(IndexError::General(message)) => {
            assert_eq!(message, "Error processing '/a/b': denied")
        }
        _ => panic!("the error must be kept"),
    }
}

#[test]
fn resolution_errors_carry_codes_and_suggestions() {
    let cache = ResolutionError::cache_io("p".to_string(), "s".to_string());
    assert_eq!(cache.status_code(), "RESOLUTION_CACHE_IO");
    assert_eq!(cache.recovery_suggestions().len(), 3);
    assert_eq!(
        cache.suggestion(),
        "Check permissions and disk space; delete the cache file to rebuild."
    );
    let invalid = ResolutionError::invalid_cache("bad");
    assert!(matches!(&invalid, ResolutionError::InvalidCache { details } if details == "bad"));
    assert_eq!(invalid.status_code(), "RESOLUTION_INVALID_CACHE");
    assert_eq!(invalid.recovery_suggestions().len(), 2);
    let io = ResolutionError::IoError { path: "p".into(), cause: "c".into() };
    assert_eq!(io.status_code(), "RESOLUTION_IO_ERROR");
    assert_eq!(
        io.recovery_suggestions(),
        vec![
            "Check file permissions",
            "Ensure the file exists at the specified path",
            "Verify parent directory exists",
        ]
    );
    let parse = ResolutionError::ParseError { message: "m".into() };
    assert_eq!(parse.status_code(), "RESOLUTION_PARSE_ERROR");
    assert_eq!(
        parse.suggestion(),
        "Check the configuration file syntax and ensure it's valid JSON/JSONC."
    );

    let hash = Sha256Hash::from_bytes(&[0xabu8; 32]);
    assert_eq!(hash.as_str(), "ab".repeat(32));
    let mut bytes = [0u8; 32];
    bytes[0] = 0x0f;
    bytes[31] = 0xf0;
    let mixed = Sha256Hash::from_bytes(&bytes);
    assert!(mixed.as_str().starts_with("0f00"));
    assert!(mixed.as_str().ends_with("00f0"));
}

// ---------------------------------------------------------------------------
// Schema, documents and text
// ---------------------------------------------------------------------------

#[test]
fn the_schema_describes_every_field() {
    let (schema, handles) = IndexSchema::build();
    assert_eq!(schema.num_fields(), 37);
    assert_eq!(handles.doc_type.field_id(), 0);
    assert_eq!(schema.get_field("doc_type").unwrap(), handles.doc_type);
    assert_eq!(schema.get_field("import_is_type_only").unwrap().field_id(), 36);
    match schema.get_field("nowhere") {
        Err(StorageError::InvalidFieldValue { field, .. }) => assert_eq!(field, "nowhere"),
        _ => panic!("an unknown field has no handle"),
    }
    let name = schema.get_field_entry(handles.name);
    assert_eq!(name.name(), "name");
    assert_eq!(name.field_type(), FieldType::Str);
    assert!(name.is_indexed() && name.is_stored() && !name.is_fast());
    let name_text = schema.get_field_entry(handles.name_text);
    assert_eq!(name_text.field_type(), FieldType::Text(Tokenizer::Ngram));
    let doc = schema.get_field_entry(handles.doc_comment);
    assert_eq!(doc.field_type(), FieldType::Text(Tokenizer::Default));
    let line = schema.get_field_entry(handles.line_number);
    assert_eq!(line.field_type(), FieldType::U64);
    assert!(!line.is_indexed() && line.is_fast());
    let weight = schema.get_field_entry(handles.relation_weight);
    assert_eq!(weight.field_type(), FieldType::Real);
    for field in [handles.cluster_id, handles.vector_id, handles.has_vector] {
        let entry = schema.get_field_entry(field);
        assert!(entry.is_fast() && entry.is_stored() && !entry.is_indexed());
    }
    for field in [handles.symbol_id, handles.file_id, handles.from_symbol_id] {
        let entry = schema.get_field_entry(field);
        assert!(entry.is_fast() && entry.is_stored() && entry.is_indexed());
    }
    assert_eq!(IndexSchema::handles().module.field_id(), 12);
    assert_eq!(schema.get_field_entry(handles.module).name(), "module_path");
}

#[test]
fn symbols_are_read_from_documents() {
    let handles = IndexSchema::handles();
    let scope = Some(ScopeContext::Local {
        hoisted: true,
        parent_name: Some("outer".to_string()),
        parent_kind: Some(SymbolKind::Method),
    });
    let doc = symbol_document(
        SymbolId::new(9).unwrap(),
        "inner",
        SymbolKind::Variable,
        FileId::new(4).unwrap(),
        "src/x.ts",
        Range::new(3, 4, 5, 6),
        Some("docs"),
        None,
        "mod",
        Some("ctx"),
        Visibility::Crate,
        &scope,
        Some("typescript"),
        true,
    );
    assert_eq!(doc.get_text(handles.doc_type), Some("symbol"));
    assert_eq!(doc.get_text(handles.kind), Some("Variable"));
    assert_eq!(doc.get_text(handles.name_text), Some("inner"));
    assert_eq!(doc.get_text(handles.scope_context), Some("Local:1b+outer"));
    assert_eq!(doc.get_u64(handles.visibility), Some(1));
    assert_eq!(doc.get_u64(handles.has_vector), Some(0));
    assert_eq!(doc.get_u64(handles.cluster_id), Some(0));
    assert_eq!(doc.get_u64(handles.vector_id), Some(9));
    assert_eq!(doc.get_u64(handles.name), None);
    assert_eq!(doc.get_real(handles.relation_weight), None);

    let symbol = document_to_symbol(&doc).unwrap();
    assert_eq!(symbol.id, SymbolId::new(9).unwrap());
    assert_eq!(symbol.name, "inner");
    assert_eq!(symbol.kind, SymbolKind::Variable);
    assert_eq!(symbol.range, Range::new(3, 4, 5, 6));
    assert_eq!(symbol.file_path, "src/x.ts");
    assert_eq!(symbol.doc_comment.as_deref(), Some("docs"));
    assert_eq!(symbol.signature, None);
    assert_eq!(symbol.module.as_deref(), Some("mod"));
    assert_eq!(symbol.visibility, Visibility::Crate);
    assert_eq!(symbol.scope_context, scope);

    // The required fields are asked for in order.
    let mut partial = Document::new();
    for (field, set) in [
        ("symbol_id", 0),
        ("name", 1),
        ("kind", 2),
        ("file_id", 3),
    ] {
        match document_to_symbol(&partial) {
            Err(StorageError::InvalidFieldValue { field: f, reason }) => {
                assert_eq!(f, field);
                assert_eq!(reason, "missing from document");
            }
            _ => panic!("a document without {field} is no symbol"),
        }
        match set {
            0 => partial.add_u64(handles.symbol_id, 1),
            1 => partial.add_text(handles.name, "n"),
            2 => partial.add_text(handles.kind, "Unheard"),
            _ => partial.add_u64(handles.file_id, 2),
        }
    }
    let bare = document_to_symbol(&partial).unwrap();
    assert_eq!(bare.kind, SymbolKind::Function);
    assert_eq!(bare.file_path, "<unknown>");
    assert_eq!(bare.visibility, Visibility::Private);
    assert_eq!(bare.range, Range::new(0, 0, 0, 0));
    assert_eq!(bare.language_id, None);
    partial.add_u64(handles.line_number, 8);
    assert_eq!(document_to_symbol(&partial).unwrap().range, Range::new(8, 0, 8, 0));
    assert_eq!(partial.duplicate(), partial);
}

#[test]
fn text_helpers() {
    assert_eq!(chars_of("añb"), vec!['a', 'ñ', 'b']);
    assert_eq!(string_of(&vec!['x', 'ÿ', 'z']), "xÿz");
    assert!(str_contains("Index writer was killed", "writer"));
    assert!(str_contains("abc", ""));
    assert!(!str_contains("abc", "abcd"));
    assert!(!str_contains("ab", "ba"));
    assert_eq!(to_hex(&[0x00, 0x9a, 0xff], 3), "009aff");
    assert_eq!(to_hex(&[0x00, 0x9a, 0xff], 1), "00");
    assert_eq!(to_hex(&[], 0), "");
    assert_eq!(decimal_text(0), "0");
    assert_eq!(decimal_text(7), "7");
    assert_eq!(decimal_text(10), "10");
    assert_eq!(decimal_text(1_234_567_890), "1234567890");
    assert_eq!(decimal_text(u64::MAX), "18446744073709551615");
}

#[test]
fn indexing_results_name_their_file() {
    let file = FileId::new(1).unwrap();
    let result = IndexingResult::Indexed(file);
    assert!(!result.is_cached());
    assert_eq!(result.file_id(), file);
    let cached = IndexingResult::Cached(file);
    assert!(cached.is_cached());
    assert_eq!(cached.file_id(), file);
    assert_eq!(file.to_u32(), 1);
    assert_eq!(SymbolId::new(5).unwrap().to_u32(), 5);
    // Columns bound a range only on its first and last line.
    let range = Range::new(10, 5, 15, 20);
    assert!(range.contains(12, 0));
    assert!(range.contains(12, u16::MAX));
}

#[test]
fn times_are_shown_relative_to_now() {
    let now: i64 = 1_700_000_000;
    let at = |back: i64| (now - back) as u64;
    assert_eq!(relative_time_text(now, at(0), Some("2023-11-14")), "just now");
    assert_eq!(relative_time_text(now, at(59), Some("d")), "just now");
    assert_eq!(relative_time_text(now, at(60), Some("d")), "1 minute ago");
    assert_eq!(relative_time_text(now, at(119), Some("d")), "1 minute ago");
    assert_eq!(relative_time_text(now, at(120), Some("d")), "2 minutes ago");
    assert_eq!(relative_time_text(now, at(3599), Some("d")), "59 minutes ago");
    assert_eq!(relative_time_text(now, at(3600), Some("d")), "1 hour ago");
    assert_eq!(relative_time_text(now, at(7200), Some("d")), "2 hours ago");
    assert_eq!(relative_time_text(now, at(86400), Some("d")), "1 day ago");
    assert_eq!(relative_time_text(now, at(604799), Some("d")), "6 days ago");
    assert_eq!(relative_time_text(now, at(604800), Some("2023-11-07")), "2023-11-07");
    assert_eq!(relative_time_text(now, at(-1), Some("2023-11-14")), "2023-11-14");
}

#[test]
fn a_time_out_of_the_calendar_counts_as_now() {
    assert_eq!(relative_time_text(1_700_000_000, 5, None), "just now");
    assert_eq!(format_relative_time(i64::MAX as u64), "just now");
}

#[test]
fn a_time_before_the_epoch_is_shown_as_its_date() {
    assert_eq!(relative_time_text(10, u64::MAX, Some("1969-12-31")), "just now");
    assert_eq!(relative_time_text(100, u64::MAX, Some("1969-12-31")), "1 minute ago");
    assert_eq!(format_relative_time(u64::MAX), "1969-12-31");
}

#[test]
fn old_times_are_shown_as_dates() {
    assert_eq!(format_relative_time(0), "1970-01-01");
    assert_eq!(format_relative_time(1_431_648_000), "2015-05-15");
    assert_eq!(format_relative_time(951_782_400), "2000-02-29");
}

#[test]
fn recent_times_are_shown_in_words() {
    let now = std::time::SystemTime::now()
        .duration_since(std::time::UNIX_EPOCH)
        .unwrap()
        .as_secs();
    assert_eq!(format_relative_time(now - 150), "2 minutes ago");
    assert_eq!(format_relative_time(now - 3 * 3600 - 30), "3 hours ago");
    assert_eq!(format_relative_time(now - 2 * 86400 - 30), "2 days ago");
}

#[test]
fn a_text_is_split_into_its_lines() {
    let lines: Vec<String> =
        split_lines("a\r\nb\n\nc\r").iter().map(|l| l.iter().collect()).collect();
    assert_eq!(lines, vec!["a", "b", "", "c\r"]);
    assert!(split_lines("").is_empty());
    assert_eq!(split_lines("x\n").len(), 1);
    assert_eq!(split_lines("\n").len(), 1);
    assert!(split_lines("\n")[0].is_empty());
}

#[test]
fn settings_text_gets_its_comments() {
    let toml = "version = 1\nindex_path = \".codanna/index\"\ndebug = false\n\n[indexing]\nparallel_threads = 4\n\n[languages.rust]\nenabled = true\ndebug = false\n\n[languages.python]\nenabled = true\n";
    let expected = "# Codanna Configuration File\n\
# https://github.com/bartolli/codanna\n\
\n\
# Version of the configuration schema\n\
version = 1\n\
\n\
# Path to the index directory (relative to workspace root)\n\
index_path = \".codanna/index\"\n\
\n\
# Global debug mode\n\
debug = false\n\
\n\
\n\
[indexing]\n\
# Number of parallel threads for indexing (defaults to CPU count)\n\
parallel_threads = 4\n\
\n\
\n\
# Language-specific settings\n\
# Currently supported: Rust, Python, PHP, TypeScript, Go, C, C++, CSharp, Gdscript\n\
\n\
[languages.rust]\n\
enabled = true\n\
\n\
# Enable debug logging for MCP server\n\
debug = false\n\
\n\
\n\
[languages.python]\n\
enabled = true\n";
    assert_eq!(Settings::add_config_comments(toml), expected);
}

#[test]
fn an_empty_line_after_a_section_header_is_dropped() {
    let commented = Settings::add_config_comments("[mcp]\n\nmax_context_size = 100000\ndebug = true\n");
    assert_eq!(
        commented,
        "# Codanna Configuration File\n# https://github.com/bartolli/codanna\n\n\n[mcp]\n# Maximum context size in bytes for MCP server\nmax_context_size = 100000\n\n# Global debug mode\ndebug = true\n"
    );
    assert_eq!(
        Settings::add_config_comments(""),
        "# Codanna Configuration File\n# https://github.com/bartolli/codanna\n\n"
    );
    let server = Settings::add_config_comments("[server]\nmode = \"stdio\"\nbind = \"127.0.0.1:8080\"");
    assert!(server.ends_with(
        "mode = \"stdio\"\n\n# HTTP server bind address (only used when mode = \"http\" or --http flag)\nbind = \"127.0.0.1:8080\"\n"
    ));
}

#[test]
fn default_settings_take_the_processors_of_the_machine() {
    let settings = Settings::default();
    assert!(settings.indexing.parallel_threads >= 1);
    assert_eq!(settings.indexing.tantivy_heap_mb, 50);
    assert_eq!(settings.indexing.max_retry_attempts, 3);
    let indexing = IndexingConfig::default();
    assert_eq!(indexing.parallel_threads, settings.indexing.parallel_threads);
    assert_eq!(
        indexing.ignore_patterns,
        vec!["target/**", "node_modules/**", ".git/**", "*.generated.*"]
    );
    let chosen = Settings::with_parallel_threads(7);
    assert_eq!(chosen.indexing.parallel_threads, 7);
    assert_eq!(chosen.server.bind, "127.0.0.1:8080");
}
