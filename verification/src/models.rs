//! The data model of the knowledge graph pipeline.
//!
//! Each executable type has a mathematical view (`Seq<char>` for strings,
//! `Seq` for vectors) that the contracts of the library speak about.

use vstd::prelude::*;

verus! {

/// Bound on the magnitude of one fixed-point embedding component.
pub const COMPONENT_BOUND: i64 = 1048576;

/// Bound on the number of components of an embedding.
pub const DIMENSION_BOUND: usize = 1048576;

/// An embedding vector in fixed-point form: each component is an integer
/// within [`COMPONENT_BOUND`], so similarity scores never overflow. A caller
/// quantizes the provider's floating-point vector before it enters the
/// library.
#[derive(Clone, Debug)]
pub struct Embedding {
    components: Vec<i64>,
}

impl View for Embedding {
    type V = Seq<i64>;

    closed spec fn view(&self) -> Seq<i64> {
        self.components@
    }
}

impl DeepView for Embedding {
    type V = Seq<i64>;

    open spec fn deep_view(&self) -> Seq<i64> {
        self@
    }
}

/// Well-formedness of an embedding view: bounded dimension and components.
pub open spec fn emb_wf(e: Seq<i64>) -> bool {
    &&& e.len() <= DIMENSION_BOUND
    &&& forall|i: int|
        0 <= i < e.len() ==> -COMPONENT_BOUND <= #[trigger] e[i] <= COMPONENT_BOUND
}

impl Embedding {
    /// Whether this embedding satisfies the component and dimension bounds.
    pub open spec fn wf(&self) -> bool {
        emb_wf(self@)
    }

    /// Wraps a fixed-point vector, rejecting one that breaks the bounds.
    pub fn new(components: Vec<i64>) -> (r: Option<Embedding>)
        ensures
            match r {
                Some(e) => e@ == components@ && e.wf(),
                None => !emb_wf(components@),
            },
    {
        if components.len() > DIMENSION_BOUND {
            return None;
        }
        let mut i: usize = 0;
        while i < components.len()
            invariant
                i <= components@.len(),
                forall|k: int|
                    0 <= k < i ==> -COMPONENT_BOUND <= #[trigger] components@[k]
                        <= COMPONENT_BOUND,
            decreases components@.len() - i,
        {
            if components[i] < -COMPONENT_BOUND || components[i] > COMPONENT_BOUND {
                return None;
            }
            i = i + 1;
        }
        Some(Embedding { components })
    }

    /// The components of the embedding.
    pub fn components(&self) -> (r: &Vec<i64>)
        ensures
            r@ == self@,
    {
        &self.components
    }

    /// A copy whose view equals this one's.
    pub fn duplicate(&self) -> (r: Embedding)
        ensures
            r@ == self@,
    {
        let mut c: Vec<i64> = Vec::new();
        let mut i: usize = 0;
        while i < self.components.len()
            invariant
                i <= self.components@.len(),
                c@ == self.components@.take(i as int),
            decreases self.components@.len() - i,
        {
            c.push(self.components[i]);
            proof {
                assert(self.components@.take(i + 1) =~= self.components@.take(i as int).push(
                    self.components@[i as int],
                ));
            }
            i = i + 1;
        }
        proof {
            assert(self.components@.take(self.components@.len() as int) =~= self.components@);
        }
        Embedding { components: c }
    }

    /// The dimension of the embedding.
    pub fn dim(&self) -> (r: usize)
        ensures
            r == self@.len(),
    {
        self.components.len()
    }
}

/// A named node of the knowledge graph. The name is the merge key; the
/// category is fixed when the entity is first created.
#[derive(Clone, Debug)]
pub struct Entity {
    pub name: String,
    pub category: String,
}

#[verifier::ext_equal]
pub struct EntityView {
    pub name: Seq<char>,
    pub category: Seq<char>,
}

impl View for Entity {
    type V = EntityView;

    open spec fn view(&self) -> EntityView {
        EntityView { name: self.name@, category: self.category@ }
    }
}

impl DeepView for Entity {
    type V = EntityView;

    open spec fn deep_view(&self) -> EntityView {
        self@
    }
}

/// A directed edge between two entities, as extraction reports it; the type
/// label is normalized before it becomes a graph edge kind.
#[derive(Clone, Debug)]
pub struct Relation {
    pub source: String,
    pub target: String,
    pub relation_type: String,
}

#[verifier::ext_equal]
pub struct RelationView {
    pub source: Seq<char>,
    pub target: Seq<char>,
    pub relation_type: Seq<char>,
}

impl View for Relation {
    type V = RelationView;

    open spec fn view(&self) -> RelationView {
        RelationView {
            source: self.source@,
            target: self.target@,
            relation_type: self.relation_type@,
        }
    }
}

impl DeepView for Relation {
    type V = RelationView;

    open spec fn deep_view(&self) -> RelationView {
        self@
    }
}

/// What the AI capability extracts from one chunk of text.
#[derive(Clone, Debug)]
pub struct KnowledgeExtraction {
    pub entities: Vec<Entity>,
    pub relations: Vec<Relation>,
}

#[verifier::ext_equal]
pub struct ExtractionView {
    pub entities: Seq<EntityView>,
    pub relations: Seq<RelationView>,
}

impl View for KnowledgeExtraction {
    type V = ExtractionView;

    open spec fn view(&self) -> ExtractionView {
        ExtractionView { entities: self.entities.deep_view(), relations: self.relations.deep_view() }
    }
}

impl DeepView for KnowledgeExtraction {
    type V = ExtractionView;

    open spec fn deep_view(&self) -> ExtractionView {
        self@
    }
}

/// An edge proposed by the reasoning pass, with its free-text justification.
#[derive(Clone, Debug)]
pub struct InferredRelation {
    pub source: String,
    pub target: String,
    pub relation: String,
    pub reasoning: String,
}

#[verifier::ext_equal]
pub struct InferredRelationView {
    pub source: Seq<char>,
    pub target: Seq<char>,
    pub relation: Seq<char>,
    pub reasoning: Seq<char>,
}

impl View for InferredRelation {
    type V = InferredRelationView;

    open spec fn view(&self) -> InferredRelationView {
        InferredRelationView {
            source: self.source@,
            target: self.target@,
            relation: self.relation@,
            reasoning: self.reasoning@,
        }
    }
}

impl DeepView for InferredRelation {
    type V = InferredRelationView;

    open spec fn deep_view(&self) -> InferredRelationView {
        self@
    }
}

/// The batch of new relations that one reasoning call proposes.
#[derive(Clone, Debug)]
pub struct InferenceResult {
    pub new_relations: Vec<InferredRelation>,
}

impl View for InferenceResult {
    type V = Seq<InferredRelationView>;

    open spec fn view(&self) -> Seq<InferredRelationView> {
        self.new_relations.deep_view()
    }
}

impl DeepView for InferenceResult {
    type V = Seq<InferredRelationView>;

    open spec fn deep_view(&self) -> Seq<InferredRelationView> {
        self@
    }
}

/// One hybrid-retrieval match: a chunk joined with the distinct entities it
/// mentions. Produced only by retrieval, never persisted.
#[derive(Clone, Debug)]
pub struct HybridContext {
    pub chunk_id: String,
    pub content: String,
    pub connected_entities: Vec<String>,
}

#[verifier::ext_equal]
pub struct HybridContextView {
    pub chunk_id: Seq<char>,
    pub content: Seq<char>,
    pub connected_entities: Seq<Seq<char>>,
}

impl View for HybridContext {
    type V = HybridContextView;

    open spec fn view(&self) -> HybridContextView {
        HybridContextView {
            chunk_id: self.chunk_id@,
            content: self.content@,
            connected_entities: self.connected_entities.deep_view(),
        }
    }
}

impl DeepView for HybridContext {
    type V = HybridContextView;

    open spec fn deep_view(&self) -> HybridContextView {
        self@
    }
}

/// A node of the visualization projection of the graph.
#[derive(Clone, Debug)]
pub struct VisNode {
    pub id: String,
    pub label: String,
    pub group: String,
}

#[verifier::ext_equal]
pub struct VisNodeView {
    pub id: Seq<char>,
    pub label: Seq<char>,
    pub group: Seq<char>,
}

impl View for VisNode {
    type V = VisNodeView;

    open spec fn view(&self) -> VisNodeView {
        VisNodeView { id: self.id@, label: self.label@, group: self.group@ }
    }
}

impl DeepView for VisNode {
    type V = VisNodeView;

    open spec fn deep_view(&self) -> VisNodeView {
        self@
    }
}

/// An edge of the visualization projection of the graph.
#[derive(Clone, Debug)]
pub struct VisEdge {
    pub from: String,
    pub to: String,
    pub label: String,
}

#[verifier::ext_equal]
pub struct VisEdgeView {
    pub from: Seq<char>,
    pub to: Seq<char>,
    pub label: Seq<char>,
}

impl View for VisEdge {
    type V = VisEdgeView;

    open spec fn view(&self) -> VisEdgeView {
        VisEdgeView { from: self.from@, to: self.to@, label: self.label@ }
    }
}

impl DeepView for VisEdge {
    type V = VisEdgeView;

    open spec fn deep_view(&self) -> VisEdgeView {
        self@
    }
}

/// The full node-and-edge projection handed to the visualization layer.
#[derive(Clone, Debug)]
pub struct GraphDataResponse {
    pub nodes: Vec<VisNode>,
    pub edges: Vec<VisEdge>,
}

#[verifier::ext_equal]
pub struct GraphDataView {
    pub nodes: Seq<VisNodeView>,
    pub edges: Seq<VisEdgeView>,
}

impl View for GraphDataResponse {
    type V = GraphDataView;

    open spec fn view(&self) -> GraphDataView {
        GraphDataView { nodes: self.nodes.deep_view(), edges: self.edges.deep_view() }
    }
}

impl DeepView for GraphDataResponse {
    type V = GraphDataView;

    open spec fn deep_view(&self) -> GraphDataView {
        self@
    }
}

/// The closed set of AI providers the pipeline can be pointed at.
#[derive(Clone, Copy, Debug, PartialEq, Eq, Structural)]
pub enum AIProvider {
    OpenAI,
    Groq,
    Ollama,
}

/// The whole AI configuration, replaced atomically on an administrative
/// update; readers always see a fully-formed value.
#[derive(Clone, Debug)]
pub struct AIConfig {
    pub provider: AIProvider,
    pub model_name: String,
    pub embedding_model: String,
    pub api_key: String,
    pub embedding_dim: usize,
    pub base_url: Option<String>,
}

#[verifier::ext_equal]
pub struct AIConfigView {
    pub provider: AIProvider,
    pub model_name: Seq<char>,
    pub embedding_model: Seq<char>,
    pub api_key: Seq<char>,
    pub embedding_dim: int,
    pub base_url: Option<Seq<char>>,
}

impl View for AIConfig {
    type V = AIConfigView;

    open spec fn view(&self) -> AIConfigView {
        AIConfigView {
            provider: self.provider,
            model_name: self.model_name@,
            embedding_model: self.embedding_model@,
            api_key: self.api_key@,
            embedding_dim: self.embedding_dim as int,
            base_url: match self.base_url {
                Some(u) => Some(u@),
                None => None,
            },
        }
    }
}

impl AIConfig {
    /// A field-by-field copy whose view equals this one's.
    pub fn duplicate(&self) -> (r: AIConfig)
        ensures
            r@ == self@,
    {
        AIConfig {
            provider: self.provider,
            model_name: self.model_name.clone(),
            embedding_model: self.embedding_model.clone(),
            api_key: self.api_key.clone(),
            embedding_dim: self.embedding_dim,
            base_url: match &self.base_url {
                Some(u) => Some(u.clone()),
                None => None,
            },
        }
    }
}

/// A conversational query against the graph.
#[derive(Clone, Debug)]
pub struct ChatRequest {
    pub message: String,
}

/// The grounded answer with the references that backed it.
#[derive(Clone, Debug)]
pub struct ChatResponse {
    pub response: String,
    pub context_used: Vec<String>,
}

} // verus!
