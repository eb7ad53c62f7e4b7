//! A verified core for a document-to-knowledge-graph pipeline.
//!
//! The library covers the ingestion path (chunking a document, embedding each
//! chunk, extracting entities and relations, persisting them into a graph),
//! the hybrid retrieval operation that joins vector similarity with graph
//! adjacency, and the reasoning pass that proposes new edges from the stored
//! graph. Network-facing drivers (the LLM provider, the graph database, the
//! HTTP layer) live outside the library and are reached through the capability
//! traits in `ports`.

pub mod ai;
pub mod auth;
pub mod chat;
pub mod chunking;
pub mod errors;
pub mod formats;
pub mod graph;
pub mod ingestion;
pub mod laws;
pub mod memory;
pub mod models;
pub mod ports;
pub mod providers;
pub mod reasoning;
pub mod text;
