use codanna::types::{compact_string, FileId, Range, SymbolId, SymbolKind};
use std::collections::HashSet;

#[test]
fn test_symbol_id_creation() {
    assert!(SymbolId::new(0).is_none());

    let id = SymbolId::new(42).unwrap();
    assert_eq!(id.value(), 42);
}

#[test]
fn test_file_id_creation() {
    assert!(FileId::new(0).is_none());

    let id = FileId::new(100).unwrap();
    assert_eq!(id.value(), 100);
}

#[test]
fn test_range_creation() {
    let range = Range::new(10, 5, 15, 20);
    assert_eq!(range.start_line, 10);
    assert_eq!(range.start_column, 5);
    assert_eq!(range.end_line, 15);
    assert_eq!(range.end_column, 20);
}

#[test]
fn test_range_contains() {
    let range = Range::new(10, 5, 15, 20);

    // Inside range
    assert!(range.contains(12, 10));
    assert!(range.contains(10, 5)); // Start position
    assert!(range.contains(15, 19)); // Last position before the end

    // Outside range
    assert!(!range.contains(15, 20)); // End position
    assert!(!range.contains(9, 10)); // Before start line
    assert!(!range.contains(16, 10)); // After end line
    assert!(!range.contains(10, 4)); // Before start column
    assert!(!range.contains(15, 21)); // After end column
}

#[test]
fn test_symbol_kind_variants() {
    let kinds = [
        SymbolKind::Function,
        SymbolKind::Method,
        SymbolKind::Struct,
        SymbolKind::Enum,
        SymbolKind::Trait,
        SymbolKind::Interface,
        SymbolKind::Class,
        SymbolKind::Module,
        SymbolKind::Variable,
        SymbolKind::Constant,
        SymbolKind::Field,
        SymbolKind::Parameter,
        SymbolKind::TypeAlias,
        SymbolKind::Macro,
    ];

    assert_eq!(kinds.len(), 14);
}

#[test]
fn test_compact_string() {
    let s = compact_string("hello world");
    assert_eq!(&*s, "hello world");
}

#[test]
fn test_id_equality_and_hash() {
    let id1 = SymbolId::new(42).unwrap();
    let id2 = SymbolId::new(42).unwrap();
    let id3 = SymbolId::new(43).unwrap();

    assert_eq!(id1, id2);
    assert_ne!(id1, id3);

    let mut set = HashSet::new();
    set.insert(id1);
    assert!(set.contains(&id2));
    assert!(!set.contains(&id3));
}
