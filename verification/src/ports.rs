//! The capability interfaces the orchestrators are written against.
//!
//! Each concern — graph storage, the AI oracle, id generation, progress
//! reporting — is one trait, so alternate providers can be swapped in
//! without touching orchestration logic. The library ships verified
//! in-memory implementations; network-backed providers live outside the
//! library and implement the same interfaces.

use vstd::prelude::*;

use crate::errors::AppError;
use crate::graph::GraphView;
use crate::graph::context_of;
use crate::graph::full_graph_of;
use crate::graph::hybrid_of;
use crate::graph::neighborhood_of;
use crate::graph::save_chunk_t;
use crate::graph::save_graph_t;
use crate::graph::save_inferred_t;
use crate::models::AIConfig;
use crate::models::AIConfigView;
use crate::models::Embedding;
use crate::models::GraphDataResponse;
use crate::models::HybridContext;
use crate::models::InferenceResult;
use crate::models::InferredRelation;
use crate::models::KnowledgeExtraction;

verus! {

/// Durable storage for chunks, entities, relations and inferred relations.
///
/// `graph()` is the abstract state of the store. Every write either performs
/// exactly its transition on that state and returns `Ok`, or leaves the
/// state untouched and reports a database error; every read returns exactly
/// the query function of the current state. A provider may fail any call —
/// storage is remote in general — but may never partially apply a write.
pub trait KGRepository: Sized {
    /// The abstract contents of the store. An implementation that does not
    /// give it a meaning promises nothing through it.
    open spec fn graph(&self) -> GraphView {
        arbitrary()
    }

    /// Ensures the vector index (for the given embedding dimension) and the
    /// unique-entity-name constraint exist.
    fn create_indexes(&mut self, dim: usize) -> (r: Result<(), AppError>)
        ensures
            match r {
                Ok(_) => final(self).graph() == (GraphView {
                    index_dim: Some(dim as int),
                    ..old(self).graph()
                }),
                Err(e) => final(self).graph() == old(self).graph() && e@ is Database,
            },
    ;

    /// Removes every stored node and edge; indexes survive.
    fn reset_database(&mut self) -> (r: Result<(), AppError>)
        ensures
            match r {
                Ok(_) => final(self).graph() == old(self).graph().emptied(),
                Err(e) => final(self).graph() == old(self).graph() && e@ is Database,
            },
    ;

    /// Persists one chunk with its embedding. A vector that does not match
    /// the dimension the index was created with is a caller error, never
    /// silently coerced.
    fn save_chunk(&mut self, id: &String, content: &String, embedding: &Embedding) -> (r: Result<
        (),
        AppError,
    >)
        requires
            embedding.wf(),
            old(self).graph().index_dim matches Some(d) ==> embedding@.len() == d,
        ensures
            match r {
                Ok(_) => final(self).graph() == save_chunk_t(
                    old(self).graph(),
                    id@,
                    content@,
                    embedding@,
                ),
                Err(e) => final(self).graph() == old(self).graph() && e@ is Database,
            },
    ;

    /// Persists one extraction for a chunk: entities merged by name, then
    /// relations under their normalized kinds, then the mention links.
    fn save_graph(&mut self, chunk_id: &String, data: &KnowledgeExtraction) -> (r: Result<
        (),
        AppError,
    >)
        ensures
            match r {
                Ok(_) => final(self).graph() == save_graph_t(old(self).graph(), chunk_id@, data@),
                Err(e) => final(self).graph() == old(self).graph() && e@ is Database,
            },
    ;

    /// Persists a batch of AI-inferred relations, additively.
    fn save_inferred_relations(&mut self, relations: &Vec<InferredRelation>) -> (r: Result<
        (),
        AppError,
    >)
        ensures
            match r {
                Ok(_) => final(self).graph() == save_inferred_t(
                    old(self).graph(),
                    relations.deep_view(),
                ),
                Err(e) => final(self).graph() == old(self).graph() && e@ is Database,
            },
    ;

    /// The visualization projection of the whole graph.
    fn get_full_graph(&self) -> (r: Result<GraphDataResponse, AppError>)
        ensures
            match r {
                Ok(g) => g@ == full_graph_of(self.graph()),
                Err(e) => e@ is Database,
            },
    ;

    /// Vector-similarity search joined with graph adjacency. The query
    /// vector must match the dimension the index was created with.
    fn find_hybrid_context(&self, embedding: &Embedding, limit: usize) -> (r: Result<
        Vec<HybridContext>,
        AppError,
    >)
        requires
            embedding.wf(),
            self.graph().index_dim matches Some(d) ==> embedding@.len() == d,
        ensures
            match r {
                Ok(v) => v.deep_view() == hybrid_of(self.graph(), embedding@, limit as nat),
                Err(e) => e@ is Database,
            },
    ;

    /// The direct neighborhood of one named concept.
    fn get_concept_neighborhood(&self, name: &String) -> (r: Result<GraphDataResponse, AppError>)
        ensures
            match r {
                Ok(g) => g@ == neighborhood_of(self.graph(), name@),
                Err(e) => e@ is Database,
            },
    ;

    /// The bounded, density-ranked textual rendering of the graph for the
    /// reasoning prompt.
    fn get_graph_context_for_reasoning(&self, limit: usize) -> (r: Result<String, AppError>)
        ensures
            match r {
                Ok(s) => s@ == context_of(self.graph(), limit as nat),
                Err(e) => e@ is Database,
            },
    ;
}

/// The AI oracle: embeddings, structured extraction, free-form inference,
/// and the hot-swappable configuration.
///
/// The oracle is fallible and outside this library's control, so nothing is
/// promised about when a call succeeds; what is promised is that a returned
/// embedding respects the library's fixed-point bounds, and that the
/// configuration cell behaves like a cell.
pub trait AIService: Sized {
    /// The configuration the service currently runs with. An
    /// implementation that does not give it a meaning promises nothing
    /// through it.
    open spec fn config(&self) -> AIConfigView {
        arbitrary()
    }

    /// An embedding for the text, in the library's fixed-point form, with
    /// exactly the dimension the configuration names.
    fn generate_embedding(&mut self, text: &str) -> (r: Result<Embedding, AppError>)
        ensures
            final(self).config() == old(self).config(),
            r matches Ok(e) ==> e.wf() && e@.len() == old(self).config().embedding_dim,
    ;

    /// A structured extraction of entities and relations from the text.
    fn extract_knowledge(&mut self, text: &str) -> (r: Result<KnowledgeExtraction, AppError>)
        ensures
            final(self).config() == old(self).config(),
    ;

    /// A structured inference result for a free-form prompt.
    fn generate_inference(&mut self, prompt: &str) -> (r: Result<InferenceResult, AppError>)
        ensures
            final(self).config() == old(self).config(),
    ;

    /// Replaces the whole configuration atomically.
    fn update_config(&mut self, config: AIConfig) -> (r: Result<(), AppError>)
        ensures
            match r {
                Ok(_) => final(self).config() == config@,
                Err(_) => final(self).config() == old(self).config(),
            },
    ;

    /// Reads the current configuration, fully formed.
    fn get_config(&self) -> (r: AIConfig)
        ensures
            r@ == self.config(),
    ;
}

/// A source of opaque, non-empty identifiers.
///
/// The interface itself promises only non-emptiness: freshness is a
/// property of the implementation. The sequential generator proves that
/// every id below its saturation point is distinct from all earlier ones;
/// the UUID generator's freshness is probabilistic and deliberately not
/// stated as an axiom.
pub trait IdGenerator: Sized {
    fn fresh_id(&mut self) -> (r: String)
        ensures
            r@.len() > 0,
    ;
}

/// An ordered, best-effort progress stream. A send never fails the caller;
/// `log()` is the sequence of lines sent so far.
pub trait ProgressSink: Sized {
    /// The lines sent so far. An implementation that does not give it a
    /// meaning promises nothing through it.
    open spec fn log(&self) -> Seq<Seq<char>> {
        arbitrary()
    }

    /// Appends one line to the stream.
    fn send(&mut self, msg: String)
        ensures
            final(self).log() == old(self).log().push(msg@),
    ;
}

} // verus!
