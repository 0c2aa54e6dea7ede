//! The document store: schema, documents and the index over them.

pub mod batch;
pub mod cluster_cache;
pub mod document;
pub mod graph;
pub mod index;
pub mod laws;
pub mod matching;
pub mod numbering;
pub mod query;
pub mod reads;
pub mod rewriting;
pub mod schema;
pub mod search;
pub mod semantic;
pub mod shapes;
