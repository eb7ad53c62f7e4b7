use lamuralla::memory::MemoryGraphRepository;
use lamuralla::models::Embedding;
use lamuralla::models::Entity;
use lamuralla::models::KnowledgeExtraction;
use lamuralla::models::InferredRelation;
use lamuralla::models::Relation;
use lamuralla::ports::KGRepository;

fn emb(components: Vec<i64>) -> Embedding {
    Embedding::new(components).expect("components within bounds")
}

fn entity(name: &str, category: &str) -> Entity {
    Entity { name: name.to_string(), category: category.to_string() }
}

fn relation(source: &str, target: &str, kind: &str) -> Relation {
    Relation {
        source: source.to_string(),
        target: target.to_string(),
        relation_type: kind.to_string(),
    }
}

fn extraction(entities: Vec<Entity>, relations: Vec<Relation>) -> KnowledgeExtraction {
    KnowledgeExtraction { entities, relations }
}

#[test]
fn entity_merge_keeps_first_category() {
    let mut repo = MemoryGraphRepository::new();
    repo.save_chunk(&"c1".to_string(), &"first".to_string(), &emb(vec![1])).unwrap();
    repo.save_chunk(&"c2".to_string(), &"second".to_string(), &emb(vec![2])).unwrap();
    repo.save_graph(&"c1".to_string(), &extraction(vec![entity("Paris", "City")], vec![]))
        .unwrap();
    repo.save_graph(&"c2".to_string(), &extraction(vec![entity("Paris", "Capital")], vec![]))
        .unwrap();
    assert_eq!(repo.entities().len(), 1);
    assert_eq!(repo.entities()[0].name, "Paris");
    assert_eq!(repo.entities()[0].category, "City");
}

#[test]
fn relation_type_is_normalized() {
    let mut repo = MemoryGraphRepository::new();
    repo.save_graph(
        &"c1".to_string(),
        &extraction(
            vec![entity("Paris", "City"), entity("France", "Country")],
            vec![relation("Paris", "France", "same as")],
        ),
    )
    .unwrap();
    assert_eq!(repo.relations().len(), 1);
    assert_eq!(repo.relations()[0].kind, "SAME_AS");
    assert_eq!(repo.relations()[0].source, "Paris");
    assert_eq!(repo.relations()[0].target, "France");
}

#[test]
fn relations_between_unknown_entities_are_skipped() {
    let mut repo = MemoryGraphRepository::new();
    repo.save_graph(
        &"c1".to_string(),
        &extraction(vec![entity("A", "X")], vec![relation("A", "Ghost", "KNOWS")]),
    )
    .unwrap();
    assert_eq!(repo.relations().len(), 0);
}

#[test]
fn duplicate_relations_are_merged() {
    let mut repo = MemoryGraphRepository::new();
    let x = extraction(
        vec![entity("A", "X"), entity("B", "Y")],
        vec![relation("A", "B", "KNOWS"), relation("A", "B", "knows")],
    );
    repo.save_graph(&"c1".to_string(), &x).unwrap();
    assert_eq!(repo.relations().len(), 1);
    assert_eq!(repo.relations()[0].kind, "KNOWS");
}

#[test]
fn mentions_link_chunks_to_entities_once() {
    let mut repo = MemoryGraphRepository::new();
    repo.save_chunk(&"c1".to_string(), &"text".to_string(), &emb(vec![1])).unwrap();
    let x = extraction(vec![entity("A", "X"), entity("A", "Y")], vec![]);
    repo.save_graph(&"c1".to_string(), &x).unwrap();
    assert_eq!(repo.entities().len(), 1);
    assert_eq!(repo.mentions().len(), 1);
    assert_eq!(repo.mentions()[0].chunk_id, "c1");
    assert_eq!(repo.mentions()[0].entity_name, "A");
}

#[test]
fn hybrid_retrieval_returns_top_three_by_similarity() {
    let mut repo = MemoryGraphRepository::new();
    for (i, score) in [5i64, 4, 3, 2, 1].iter().enumerate() {
        let id = format!("chunk-{}", i + 1);
        let text = format!("text {}", i + 1);
        repo.save_chunk(&id, &text, &emb(vec![*score])).unwrap();
        let name = format!("E{}", i + 1);
        // Mention the entity twice; the row still lists it once.
        let x = extraction(vec![entity(&name, "C"), entity(&name, "C")], vec![]);
        repo.save_graph(&id, &x).unwrap();
    }
    let rows = repo.find_hybrid_context(&emb(vec![1]), 3).unwrap();
    assert_eq!(rows.len(), 3);
    assert_eq!(rows[0].chunk_id, "chunk-1");
    assert_eq!(rows[1].chunk_id, "chunk-2");
    assert_eq!(rows[2].chunk_id, "chunk-3");
    assert_eq!(rows[0].content, "text 1");
    assert_eq!(rows[0].connected_entities, vec!["E1".to_string()]);
    assert_eq!(rows[1].connected_entities, vec!["E2".to_string()]);
    assert_eq!(rows[2].connected_entities, vec!["E3".to_string()]);
}

#[test]
fn hybrid_retrieval_keeps_chunks_without_mentions() {
    let mut repo = MemoryGraphRepository::new();
    repo.save_chunk(&"lonely".to_string(), &"no entities".to_string(), &emb(vec![9])).unwrap();
    let rows = repo.find_hybrid_context(&emb(vec![1]), 3).unwrap();
    assert_eq!(rows.len(), 1);
    assert_eq!(rows[0].chunk_id, "lonely");
    assert_eq!(rows[0].content, "no entities");
    assert!(rows[0].connected_entities.is_empty());
}

#[test]
fn reasoning_context_is_ranked_by_degree() {
    let mut repo = MemoryGraphRepository::new();
    let x = extraction(
        vec![
            entity("A", "N"),
            entity("B", "N"),
            entity("C", "N"),
            entity("D", "N"),
        ],
        vec![
            relation("A", "B", "REL"),
            relation("A", "C", "REL"),
            relation("A", "D", "REL"),
            relation("C", "D", "REL"),
        ],
    );
    repo.save_graph(&"c1".to_string(), &x).unwrap();
    // Edge scores: A->B gets 4, A->C gets 5, A->D gets 5, C->D gets 4.
    let ctx = repo.get_graph_context_for_reasoning(2).unwrap();
    assert_eq!(ctx, "(A) -[REL]-> (C)\n(A) -[REL]-> (D)\n");
}

#[test]
fn empty_graph_context_is_the_sentinel() {
    let repo = MemoryGraphRepository::new();
    let ctx = repo.get_graph_context_for_reasoning(500).unwrap();
    assert_eq!(ctx, "El grafo está vacío.");
}

#[test]
fn inferred_relations_are_tagged_and_prefixed() {
    let mut repo = MemoryGraphRepository::new();
    let x = extraction(vec![entity("A", "N"), entity("C", "N")], vec![]);
    repo.save_graph(&"c1".to_string(), &x).unwrap();
    let batch = vec![InferredRelation {
        source: "A".to_string(),
        target: "C".to_string(),
        relation: "lleva a".to_string(),
        reasoning: "(Confianza: Alta) transitividad".to_string(),
    }];
    repo.save_inferred_relations(&batch).unwrap();
    assert_eq!(repo.inferred_edges().len(), 1);
    let e = &repo.inferred_edges()[0];
    assert_eq!(e.kind, "INFERRED_LLEVA_A");
    assert!(e.ai_generated);
    assert_eq!(e.reasoning, "(Confianza: Alta) transitividad");
}

#[test]
fn full_graph_projects_nodes_and_edges() {
    let mut repo = MemoryGraphRepository::new();
    let x = extraction(
        vec![entity("A", "X"), entity("B", "Y"), entity("C", "Z")],
        vec![relation("A", "B", "CAUSA"), relation("B", "C", "IMPLICA")],
    );
    repo.save_graph(&"c1".to_string(), &x).unwrap();
    let g = repo.get_full_graph().unwrap();
    assert_eq!(g.edges.len(), 2);
    assert_eq!(g.nodes.len(), 3);
    assert_eq!(g.nodes[0].id, "A");
    assert_eq!(g.nodes[0].group, "X");
    assert_eq!(g.edges[0].from, "A");
    assert_eq!(g.edges[0].to, "B");
    assert_eq!(g.edges[0].label, "CAUSA");
}

#[test]
fn neighborhood_of_a_concept() {
    let mut repo = MemoryGraphRepository::new();
    let x = extraction(
        vec![entity("A", "X"), entity("B", "Y"), entity("C", "Z")],
        vec![relation("A", "B", "CAUSA"), relation("B", "C", "IMPLICA")],
    );
    repo.save_graph(&"c1".to_string(), &x).unwrap();
    let g = repo.get_concept_neighborhood(&"B".to_string()).unwrap();
    assert_eq!(g.edges.len(), 2);
    // Nodes come back deduplicated and sorted by id.
    let ids: Vec<&str> = g.nodes.iter().map(|n| n.id.as_str()).collect();
    assert_eq!(ids, vec!["A", "B", "C"]);

    let isolated = repo.get_concept_neighborhood(&"Z".to_string()).unwrap();
    assert!(isolated.nodes.is_empty() && isolated.edges.is_empty());
}

#[test]
fn reset_empties_the_store() {
    let mut repo = MemoryGraphRepository::new();
    repo.create_indexes(1).unwrap();
    repo.save_chunk(&"c1".to_string(), &"text".to_string(), &emb(vec![1])).unwrap();
    repo.save_graph(&"c1".to_string(), &extraction(vec![entity("A", "X")], vec![])).unwrap();
    repo.reset_database().unwrap();
    assert!(repo.chunks().is_empty());
    assert!(repo.entities().is_empty());
    assert!(repo.relations().is_empty());
    assert!(repo.mentions().is_empty());
    assert!(repo.inferred_edges().is_empty());
}

#[test]
fn embedding_bounds_are_enforced() {
    assert!(Embedding::new(vec![0, 1048576, -1048576]).is_some());
    assert!(Embedding::new(vec![1048577]).is_none());
    assert!(Embedding::new(vec![-1048577]).is_none());
}
