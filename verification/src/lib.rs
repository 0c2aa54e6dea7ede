//! Code-intelligence index core: identifiers, symbols, relationships and the
//! document index that stores and queries them.

pub mod clock;
pub mod config;
pub mod error;
pub mod indexing;
pub mod init;
pub mod mcp;
pub mod parsing;
pub mod profiles;
pub mod project_resolver;
pub mod relationship;
pub mod settings_text;
pub mod storage;
pub mod symbol;
pub mod text;
pub mod types;
pub mod vector;

pub use config::Settings;
pub use error::{
    IndexError, IndexResult, McpError, McpResult, ParseError, ParseResult, StorageError,
    StorageResult,
};
pub use relationship::{RelationKind, Relationship, RelationshipEdge};
pub use storage::index::DocumentIndex;
pub use storage::search::SearchResult;
pub use symbol::{CompactSymbol, ScopeContext, StringTable, Symbol, Visibility};
pub use types::{
    compact_string, CompactString, FileId, IndexingResult, Range, SymbolId, SymbolKind,
};
