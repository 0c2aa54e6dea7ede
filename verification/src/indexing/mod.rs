//! Indexing support: the retry policy for transient storage failures.

pub mod retry;
