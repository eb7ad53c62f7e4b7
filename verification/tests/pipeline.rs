use lamuralla::ingestion::IngestionService;
use lamuralla::memory::MemoryGraphRepository;
use lamuralla::models::AIConfig;
use lamuralla::models::AIProvider;
use lamuralla::models::Entity;
use lamuralla::models::InferenceResult;
use lamuralla::models::InferredRelation;
use lamuralla::models::KnowledgeExtraction;
use lamuralla::models::Relation;
use lamuralla::ports::KGRepository;
use lamuralla::providers::FaultyRepository;
use lamuralla::providers::RecordingSink;
use lamuralla::providers::ScriptedAI;
use lamuralla::providers::SequentialIdGen;
use lamuralla::reasoning::ReasoningService;

fn config() -> AIConfig {
    AIConfig {
        provider: AIProvider::OpenAI,
        model_name: "gpt-4o".to_string(),
        embedding_model: "text-embedding-3-small".to_string(),
        api_key: String::new(),
        embedding_dim: 1,
        base_url: None,
    }
}

fn empty_extraction() -> KnowledgeExtraction {
    KnowledgeExtraction { entities: vec![], relations: vec![] }
}

/// A document that chunks into exactly three segments.
fn three_chunk_document() -> String {
    "abcdefghi ".repeat(5000)
}

#[test]
fn ingestion_skips_the_chunk_whose_embedding_fails() {
    let content = three_chunk_document();
    let mut repo = MemoryGraphRepository::new();
    let mut ai = ScriptedAI::new(
        config(),
        vec![Ok(vec![1]), Err("proveedor caído".to_string()), Ok(vec![3])],
        vec![Ok(empty_extraction()), Ok(empty_extraction())],
        vec![],
    );
    let mut ids = SequentialIdGen::new();
    let mut sink = RecordingSink::new();
    let service = IngestionService::new();
    let r = service.ingest_with_progress(&content, &mut repo, &mut ai, &mut ids, &mut sink);
    assert!(r.is_ok());
    // Three chunks, one failed embedding: exactly two persisted.
    assert_eq!(repo.chunks().len(), 2);
    // The skipped chunk was reported on the progress stream.
    assert!(sink.lines().iter().any(|l| l.contains("Error embedding chunk 2")));
}

#[test]
fn ingestion_aborts_on_a_graph_save_failure() {
    let content = three_chunk_document();
    let inner = MemoryGraphRepository::new();
    let mut repo = FaultyRepository::new(inner, vec![], vec![true]);
    let mut ai = ScriptedAI::new(
        config(),
        vec![Ok(vec![1]), Ok(vec![2]), Ok(vec![3])],
        vec![Ok(empty_extraction()), Ok(empty_extraction()), Ok(empty_extraction())],
        vec![],
    );
    let mut ids = SequentialIdGen::new();
    let mut sink = RecordingSink::new();
    let service = IngestionService::new();
    let r = service.ingest_with_progress(&content, &mut repo, &mut ai, &mut ids, &mut sink);
    assert!(r.is_err());
    // The first chunk itself was durably stored before the failing graph
    // write; no later chunk was processed.
    assert_eq!(repo.inner().chunks().len(), 1);
}

#[test]
fn ingestion_aborts_on_a_chunk_save_failure() {
    let content = three_chunk_document();
    let inner = MemoryGraphRepository::new();
    let mut repo = FaultyRepository::new(inner, vec![false, true], vec![]);
    let mut ai = ScriptedAI::new(
        config(),
        vec![Ok(vec![1]), Ok(vec![2]), Ok(vec![3])],
        vec![Ok(empty_extraction()), Ok(empty_extraction()), Ok(empty_extraction())],
        vec![],
    );
    let mut ids = SequentialIdGen::new();
    let mut sink = RecordingSink::new();
    let service = IngestionService::new();
    let r = service.ingest_with_progress(&content, &mut repo, &mut ai, &mut ids, &mut sink);
    assert!(r.is_err());
    assert_eq!(repo.inner().chunks().len(), 1);
}

#[test]
fn ingestion_continues_when_extraction_fails() {
    let content = three_chunk_document();
    let mut repo = MemoryGraphRepository::new();
    let mut ai = ScriptedAI::new(
        config(),
        vec![Ok(vec![1]), Ok(vec![2]), Ok(vec![3])],
        vec![
            Err("respuesta ilegible".to_string()),
            Ok(empty_extraction()),
            Ok(empty_extraction()),
        ],
        vec![],
    );
    let mut ids = SequentialIdGen::new();
    let mut sink = RecordingSink::new();
    let service = IngestionService::new();
    let r = service.ingest_with_progress(&content, &mut repo, &mut ai, &mut ids, &mut sink);
    assert!(r.is_ok());
    // The chunk whose extraction failed is still persisted.
    assert_eq!(repo.chunks().len(), 3);
    assert!(sink.lines().iter().any(|l| l.contains("Error extrayendo entidades en parte 1")));
}

#[test]
fn end_to_end_ingestion_of_a_large_document() {
    let content = three_chunk_document();
    assert_eq!(content.chars().count(), 50000);
    let mut repo = MemoryGraphRepository::new();
    let mut ai = ScriptedAI::new(
        config(),
        vec![Ok(vec![1]), Ok(vec![2]), Ok(vec![3])],
        vec![Ok(empty_extraction()), Ok(empty_extraction()), Ok(empty_extraction())],
        vec![],
    );
    let mut ids = SequentialIdGen::new();
    let mut sink = RecordingSink::new();
    let service = IngestionService::new();
    let r = service.ingest_job(&content, &mut repo, &mut ai, &mut ids, &mut sink);
    assert!(r.is_ok());
    assert_eq!(repo.chunks().len(), 3);
    for c in repo.chunks() {
        assert!(c.text.chars().count() <= 24000);
    }
    let joined: String = repo.chunks().iter().map(|c| c.text.clone()).collect();
    assert_eq!(joined, content);
    assert_eq!(sink.lines().last().map(|s| s.as_str()), Some("DONE"));
}

#[test]
fn a_wrong_dimension_embedding_is_an_oracle_error() {
    // The oracle promises vectors of its configured dimension; a scripted
    // vector of another width comes back as an AI error, so the chunk is
    // skipped rather than stored.
    let content = "cinco palabras bastan aqui mismo".to_string();
    let mut repo = MemoryGraphRepository::new();
    let mut ai = ScriptedAI::new(config(), vec![Ok(vec![1, 2])], vec![], vec![]);
    let mut ids = SequentialIdGen::new();
    let mut sink = RecordingSink::new();
    let service = IngestionService::new();
    let r = service.ingest_with_progress(&content, &mut repo, &mut ai, &mut ids, &mut sink);
    assert!(r.is_ok());
    assert_eq!(repo.chunks().len(), 0);
    assert!(sink.lines().iter().any(|l| l.contains("wrong dimension")));
}

#[test]
fn too_short_documents_are_rejected_before_ingestion() {
    assert!(!lamuralla::ingestion::document_long_enough(""));
    assert!(!lamuralla::ingestion::document_long_enough("   ab   "));
    assert!(!lamuralla::ingestion::document_long_enough("abcd"));
    assert!(lamuralla::ingestion::document_long_enough("abcde"));
    assert!(lamuralla::ingestion::document_long_enough("  hello world  "));
}

#[test]
fn reasoning_over_an_empty_graph_writes_nothing() {
    let mut repo = MemoryGraphRepository::new();
    let mut ai = ScriptedAI::new(
        config(),
        vec![],
        vec![],
        vec![Ok(InferenceResult { new_relations: vec![] })],
    );
    let service = ReasoningService::new();
    let r = service.infer_new_knowledge(&mut repo, &mut ai).unwrap();
    assert!(r.is_empty());
    assert!(repo.inferred_edges().is_empty());
    assert!(repo.relations().is_empty());
}

#[test]
fn reasoning_adds_one_tagged_edge_and_keeps_the_originals() {
    let mut repo = MemoryGraphRepository::new();
    let x = KnowledgeExtraction {
        entities: vec![
            Entity { name: "A".to_string(), category: "N".to_string() },
            Entity { name: "B".to_string(), category: "N".to_string() },
            Entity { name: "C".to_string(), category: "N".to_string() },
        ],
        relations: vec![
            Relation {
                source: "A".to_string(),
                target: "B".to_string(),
                relation_type: "CAUSA".to_string(),
            },
            Relation {
                source: "B".to_string(),
                target: "C".to_string(),
                relation_type: "IMPLICA".to_string(),
            },
        ],
    };
    repo.save_graph(&"c1".to_string(), &x).unwrap();
    let proposal = InferredRelation {
        source: "A".to_string(),
        target: "C".to_string(),
        relation: "LLEVA_A".to_string(),
        reasoning: "(Confianza: Alta) cadena causal".to_string(),
    };
    let mut ai = ScriptedAI::new(
        config(),
        vec![],
        vec![],
        vec![Ok(InferenceResult { new_relations: vec![proposal] })],
    );
    let service = ReasoningService::new();
    let r = service.infer_new_knowledge(&mut repo, &mut ai).unwrap();
    assert_eq!(r.len(), 1);
    assert_eq!(repo.inferred_edges().len(), 1);
    let e = &repo.inferred_edges()[0];
    assert_eq!(e.source, "A");
    assert_eq!(e.target, "C");
    assert_eq!(e.kind, "INFERRED_LLEVA_A");
    assert!(e.ai_generated);
    // The two directly-extracted edges are untouched.
    assert_eq!(repo.relations().len(), 2);
    assert_eq!(repo.relations()[0].kind, "CAUSA");
    assert_eq!(repo.relations()[1].kind, "IMPLICA");
}

#[test]
fn reasoning_fails_whole_when_inference_fails() {
    let mut repo = MemoryGraphRepository::new();
    let mut ai = ScriptedAI::new(
        config(),
        vec![],
        vec![],
        vec![Err("JSON malformado".to_string())],
    );
    let service = ReasoningService::new();
    let r = service.infer_new_knowledge(&mut repo, &mut ai);
    assert!(r.is_err());
    assert!(repo.inferred_edges().is_empty());
}
