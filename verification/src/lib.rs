//! Semantic retrieval: a schema-checked vector index, ranking of scored
//! entries, a relevance gate that abstains below a threshold, and an
//! ingestion pipeline, together with the small parsers and formatters that
//! the assistants built on top of it share.

pub mod arxiv;
pub mod embedder;
pub mod flight;
pub mod gate;
pub mod hotel;
pub mod ident;
pub mod index;
pub mod ingest;
pub mod lookup;
pub mod memory;
pub mod model;
pub mod rag;
pub mod router;
pub mod ranking;
pub mod score;
pub mod text;
pub mod topics;
