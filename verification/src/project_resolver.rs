//! Resolution of project configuration: hashes of configuration files and
//! the errors of resolving them.

use vstd::prelude::*;
use crate::text::{hex_of, strs_view, to_hex};

verus! {

/// A SHA-256 hash in hexadecimal.
#[derive(Debug, Clone, PartialEq, Eq, Hash)]
pub struct Sha256Hash(pub String);

impl View for Sha256Hash {
    type V = Seq<char>;

    open spec fn view(&self) -> Seq<char> {
        self.0@
    }
}

impl Sha256Hash {
    /// The hash as a string.
    pub fn as_str(&self) -> (r: &str)
        ensures
            r@ == self@,
    {
        self.0.as_str()
    }

    /// The hash of the given 32 bytes, in lower-case hexadecimal.
    pub fn from_bytes(bytes: &[u8; 32]) -> (r: Self)
        ensures
            r@ == hex_of(bytes@),
    {
        proof {
            assert(bytes@.take(32) =~= bytes@);
        }
        Sha256Hash(to_hex(bytes.as_slice(), 32))
    }
}

/// Errors of resolving project configuration.
#[derive(Debug)]
pub enum ResolutionError {
    /// A cache file could not be read or written.
    CacheIo { path: String, source: String },
    /// The cache is invalid or of another format.
    InvalidCache { details: String },
    /// An I/O error at a path.
    IoError { path: String, cause: String },
    /// A configuration file could not be parsed.
    ParseError { message: String },
}

pub type ResolutionResult<T> = Result<T, ResolutionError>;

impl ResolutionError {
    pub open spec fn spec_suggestion(self) -> Seq<char> {
        match self {
            ResolutionError::CacheIo { .. } => "Check permissions and disk space; delete the cache file to rebuild."@,
            ResolutionError::InvalidCache { .. } => "Delete the on-disk cache to rebuild; ensure codanna version matches cache format."@,
            ResolutionError::IoError { .. } => "Check file permissions and ensure the path is accessible."@,
            ResolutionError::ParseError { .. } => "Check the configuration file syntax and ensure it's valid JSON/JSONC."@,
        }
    }

    pub open spec fn spec_status_code(self) -> Seq<char> {
        match self {
            ResolutionError::CacheIo { .. } => "RESOLUTION_CACHE_IO"@,
            ResolutionError::InvalidCache { .. } => "RESOLUTION_INVALID_CACHE"@,
            ResolutionError::IoError { .. } => "RESOLUTION_IO_ERROR"@,
            ResolutionError::ParseError { .. } => "RESOLUTION_PARSE_ERROR"@,
        }
    }

    pub open spec fn spec_recovery_suggestions(self) -> Seq<Seq<char>> {
        match self {
            ResolutionError::CacheIo { .. } => seq![
                "Ensure the cache directory exists and is writable"@,
                "Check disk space and permissions"@,
                "Delete the on-disk cache to force a rebuild"@,
            ],
            ResolutionError::InvalidCache { .. } => seq![
                "Delete the on-disk cache to force a rebuild"@,
                "Verify codanna version compatibility with cache format"@,
            ],
            ResolutionError::IoError { .. } => seq![
                "Check file permissions"@,
                "Ensure the file exists at the specified path"@,
                "Verify parent directory exists"@,
            ],
            ResolutionError::ParseError { .. } => seq![
                "Check JSON syntax for errors"@,
                "Remove trailing commas if present"@,
                "Ensure proper quote escaping"@,
            ],
        }
    }

    /// The error of a cache file that could not be read or written.
    pub fn cache_io(path: String, source: String) -> (r: Self)
        ensures
            r == (ResolutionError::CacheIo { path, source }),
    {
        ResolutionError::CacheIo { path, source }
    }

    /// The error of an invalid cache.
    pub fn invalid_cache(details: &str) -> (r: Self)
        ensures
            r matches ResolutionError::InvalidCache { details: d } && d@ == details@,
    {
        ResolutionError::InvalidCache { details: details.to_owned() }
    }

    /// What to do about the error, in one sentence.
    pub fn suggestion(&self) -> (r: &'static str)
        ensures
            r@ == self.spec_suggestion(),
    {
        match self {
            ResolutionError::CacheIo { .. } => "Check permissions and disk space; delete the cache file to rebuild.",
            ResolutionError::InvalidCache { .. } => "Delete the on-disk cache to rebuild; ensure codanna version matches cache format.",
            ResolutionError::IoError { .. } => "Check file permissions and ensure the path is accessible.",
            ResolutionError::ParseError { .. } => "Check the configuration file syntax and ensure it's valid JSON/JSONC.",
        }
    }

    /// A stable identifier of the kind of error, for programmatic handling.
    pub fn status_code(&self) -> (r: String)
        ensures
            r@ == self.spec_status_code(),
    {
        let code: &'static str = match self {
            ResolutionError::CacheIo { .. } => "RESOLUTION_CACHE_IO",
            ResolutionError::InvalidCache { .. } => "RESOLUTION_INVALID_CACHE",
            ResolutionError::IoError { .. } => "RESOLUTION_IO_ERROR",
            ResolutionError::ParseError { .. } => "RESOLUTION_PARSE_ERROR",
        };
        code.to_owned()
    }

    /// What a user can do to recover from the error.
    pub fn recovery_suggestions(&self) -> (r: Vec<&'static str>)
        ensures
            strs_view(r@) == self.spec_recovery_suggestions(),
    {
        let r: Vec<&'static str> = match self {
            ResolutionError::CacheIo { .. } => vec![
                "Ensure the cache directory exists and is writable",
                "Check disk space and permissions",
                "Delete the on-disk cache to force a rebuild",
            ],
            ResolutionError::InvalidCache { .. } => vec![
                "Delete the on-disk cache to force a rebuild",
                "Verify codanna version compatibility with cache format",
            ],
            ResolutionError::IoError { .. } => vec![
                "Check file permissions",
                "Ensure the file exists at the specified path",
                "Verify parent directory exists",
            ],
            ResolutionError::ParseError { .. } => vec![
                "Check JSON syntax for errors",
                "Remove trailing commas if present",
                "Ensure proper quote escaping",
            ],
        };
        proof {
            assert(strs_view(r@) =~= self.spec_recovery_suggestions());
        }
        r
    }
}

} // verus!
