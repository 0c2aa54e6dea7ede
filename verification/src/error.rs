//! Structured errors of the index, each with a stable code and recovery
//! suggestions.

use vstd::prelude::*;
use vstd::string::StringExecFns;
use crate::text::strs_view;
use crate::types::{FileId, SymbolId};

verus! {

/// Errors of indexing operations.
#[derive(Debug)]
pub enum IndexError {
    /// A file could not be read.
    FileRead { path: String, source: String },
    /// A file could not be written.
    FileWrite { path: String, source: String },
    /// A source file could not be parsed.
    ParseError { path: String, language: String, reason: String },
    /// The file's type is not one the indexer reads.
    UnsupportedFileType { path: String, extension: String },
    /// The index could not be persisted.
    PersistenceError { path: String, source: String },
    /// The index could not be loaded.
    LoadError { path: String, source: String },
    /// No symbol of that name is indexed.
    SymbolNotFound { name: String },
    /// No file of that id is indexed.
    FileNotFound { id: FileId },
    /// Every file id has been handed out.
    FileIdExhausted,
    /// Every symbol id has been handed out.
    SymbolIdExhausted,
    /// The configuration is invalid.
    ConfigError { reason: String },
    /// The document store failed during an operation.
    TantivyError { operation: String, cause: String },
    /// A transaction failed after the listed operations.
    TransactionFailed { operations: Vec<String>, cause: String },
    /// An internal lock was poisoned by a panic elsewhere.
    MutexPoisoned,
    /// The index holds documents that cannot be read.
    IndexCorrupted { reason: String },
    /// Any other failure, with its message.
    General(String),
}

/// Errors of parsing source text.
#[derive(Debug)]
pub enum ParseError {
    ParserInit { language: String, reason: String },
    SyntaxError { line: u32, column: u32, reason: String },
    InvalidUtf8,
}

/// Errors of the document store.
#[derive(Debug)]
pub enum StorageError {
    /// The underlying store reported a failure.
    TantivyError(String),
    /// A database failure, with its message.
    DatabaseError(String),
    /// No document is stored for the symbol.
    DocumentNotFound { id: SymbolId },
    /// A value could not be serialised or read back.
    Serialization(String),
    /// An internal lock was poisoned.
    LockPoisoned,
    /// A write was attempted without an open batch.
    NoActiveBatch,
    /// A document lacks a required field or holds a value of the wrong type.
    InvalidFieldValue { field: String, reason: String },
    /// Any other failure, with its message.
    General(String),
}

/// Errors of the protocol server.
#[derive(Debug)]
pub enum McpError {
    ServerInitError { reason: String },
    ClientError { reason: String },
    InvalidArguments { reason: String },
}

pub type IndexResult<T> = Result<T, IndexError>;

pub type ParseResult<T> = Result<T, ParseError>;

pub type StorageResult<T> = Result<T, StorageError>;

pub type McpResult<T> = Result<T, McpError>;

impl IndexError {
    /// The stable code of each kind of error.
    pub open spec fn spec_status_code(self) -> Seq<char> {
        match self {
            IndexError::FileRead { .. } => "FILE_READ_ERROR"@,
            IndexError::FileWrite { .. } => "FILE_WRITE_ERROR"@,
            IndexError::ParseError { .. } => "PARSE_ERROR"@,
            IndexError::UnsupportedFileType { .. } => "UNSUPPORTED_FILE_TYPE"@,
            IndexError::PersistenceError { .. } => "PERSISTENCE_ERROR"@,
            IndexError::LoadError { .. } => "LOAD_ERROR"@,
            IndexError::SymbolNotFound { .. } => "SYMBOL_NOT_FOUND"@,
            IndexError::FileNotFound { .. } => "FILE_NOT_FOUND"@,
            IndexError::FileIdExhausted => "FILE_ID_EXHAUSTED"@,
            IndexError::SymbolIdExhausted => "SYMBOL_ID_EXHAUSTED"@,
            IndexError::ConfigError { .. } => "CONFIG_ERROR"@,
            IndexError::TantivyError { .. } => "TANTIVY_ERROR"@,
            IndexError::TransactionFailed { .. } => "TRANSACTION_FAILED"@,
            IndexError::MutexPoisoned => "MUTEX_POISONED"@,
            IndexError::IndexCorrupted { .. } => "INDEX_CORRUPTED"@,
            IndexError::General(_) => "GENERAL_ERROR"@,
        }
    }

    /// The recovery suggestions of each kind of error, in order.
    pub open spec fn spec_recovery_suggestions(self) -> Seq<Seq<char>> {
        match self {
            IndexError::TantivyError { .. } => seq![
                "Try running 'codanna index --force' to rebuild the index"@,
                "Check disk space and permissions in the index directory"@,
            ],
            IndexError::TransactionFailed { .. } => seq![
                "The operation was rolled back, your index is in a consistent state"@,
                "Try the operation again, it may succeed on retry"@,
            ],
            IndexError::MutexPoisoned => seq![
                "Restart the application to clear the poisoned state"@,
                "If the problem persists, run 'codanna index --force'"@,
            ],
            IndexError::IndexCorrupted { .. } => seq![
                "Run 'codanna index --force' to rebuild from scratch"@,
                "Check for disk errors or filesystem corruption"@,
            ],
            IndexError::LoadError { .. } | IndexError::PersistenceError { .. } => seq![
                "The index will be loaded from Tantivy on next start"@,
                "Run 'codanna index --force' if you continue to have issues"@,
            ],
            IndexError::FileRead { .. } => seq![
                "Check that the file exists and you have read permissions"@,
                "Ensure the file is not locked by another process"@,
            ],
            IndexError::UnsupportedFileType { .. } => seq![
                "Currently only Rust files (.rs) are supported"@,
                "Support for other languages is coming soon"@,
            ],
            _ => Seq::empty(),
        }
    }

    /// A stable identifier of the kind of error, for programmatic handling.
    pub fn status_code(&self) -> (r: String)
        ensures
            r@ == self.spec_status_code(),
    {
        let code: &'static str = match self {
            IndexError::FileRead { .. } => "FILE_READ_ERROR",
            IndexError::FileWrite { .. } => "FILE_WRITE_ERROR",
            IndexError::ParseError { .. } => "PARSE_ERROR",
            IndexError::UnsupportedFileType { .. } => "UNSUPPORTED_FILE_TYPE",
            IndexError::PersistenceError { .. } => "PERSISTENCE_ERROR",
            IndexError::LoadError { .. } => "LOAD_ERROR",
            IndexError::SymbolNotFound { .. } => "SYMBOL_NOT_FOUND",
            IndexError::FileNotFound { .. } => "FILE_NOT_FOUND",
            IndexError::FileIdExhausted => "FILE_ID_EXHAUSTED",
            IndexError::SymbolIdExhausted => "SYMBOL_ID_EXHAUSTED",
            IndexError::ConfigError { .. } => "CONFIG_ERROR",
            IndexError::TantivyError { .. } => "TANTIVY_ERROR",
            IndexError::TransactionFailed { .. } => "TRANSACTION_FAILED",
            IndexError::MutexPoisoned => "MUTEX_POISONED",
            IndexError::IndexCorrupted { .. } => "INDEX_CORRUPTED",
            IndexError::General(_) => "GENERAL_ERROR",
        };
        code.to_owned()
    }

    /// What a user can do to recover from the error; empty where nothing
    /// specific can be advised.
    pub fn recovery_suggestions(&self) -> (r: Vec<&'static str>)
        ensures
            strs_view(r@) == self.spec_recovery_suggestions(),
    {
        let r: Vec<&'static str> = match self {
            IndexError::TantivyError { .. } => vec![
                "Try running 'codanna index --force' to rebuild the index",
                "Check disk space and permissions in the index directory",
            ],
            IndexError::TransactionFailed { .. } => vec![
                "The operation was rolled back, your index is in a consistent state",
                "Try the operation again, it may succeed on retry",
            ],
            IndexError::MutexPoisoned => vec![
                "Restart the application to clear the poisoned state",
                "If the problem persists, run 'codanna index --force'",
            ],
            IndexError::IndexCorrupted { .. } => vec![
                "Run 'codanna index --force' to rebuild from scratch",
                "Check for disk errors or filesystem corruption",
            ],
            IndexError::LoadError { .. } | IndexError::PersistenceError { .. } => vec![
                "The index will be loaded from Tantivy on next start",
                "Run 'codanna index --force' if you continue to have issues",
            ],
            IndexError::FileRead { .. } => vec![
                "Check that the file exists and you have read permissions",
                "Ensure the file is not locked by another process",
            ],
            IndexError::UnsupportedFileType { .. } => vec![
                "Currently only Rust files (.rs) are supported",
                "Support for other languages is coming soon",
            ],
            _ => Vec::new(),
        };
        proof {
            assert(strs_view(r@) =~= self.spec_recovery_suggestions());
        }
        r
    }
}

/// Adds context to the error of a result, turning it into an [`IndexError`].
pub trait ErrorContext<T> {
    /// Keeps a success; prefixes the error's message with `msg`.
    fn context(self, msg: &str) -> Result<T, IndexError>;

    /// Keeps a success; names the path that was being processed in the
    /// error's message.
    fn with_path(self, path: &str) -> Result<T, IndexError>;
}

impl<T> ErrorContext<T> for Result<T, String> {
    fn context(self, msg: &str) -> (r: Result<T, IndexError>)
        ensures
            match self {
                Ok(v) => r == Ok::<T, IndexError>(v),
                Err(e) => r matches Err(IndexError::General(m)) && m@ == msg@ + ": "@ + e@,
            },
    {
        match self {
            Ok(v) => Ok(v),
            Err(e) => {
                let mut m = msg.to_owned();
                m.append(": ");
                m.append(e.as_str());
                Err(IndexError::General(m))
            },
        }
    }

    fn with_path(self, path: &str) -> (r: Result<T, IndexError>)
        ensures
            match self {
                Ok(v) => r == Ok::<T, IndexError>(v),
                Err(e) => r matches Err(IndexError::General(m)) && m@ == "Error processing '"@
                    + path@ + "': "@ + e@,
            },
    {
        match self {
            Ok(v) => Ok(v),
            Err(e) => {
                let mut m = "Error processing '".to_owned();
                m.append(path);
                m.append("': ");
                m.append(e.as_str());
                Err(IndexError::General(m))
            },
        }
    }
}

} // verus!
