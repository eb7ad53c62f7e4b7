//! A verified in-memory graph repository.
//!
//! This is the reference implementation of [`KGRepository`]: every write is
//! proved to perform exactly its transition on the abstract [`GraphView`],
//! and every read is proved to return exactly its query function. It backs
//! the library's tests and any caller that wants a local store.

use vstd::prelude::*;

use crate::errors::AppError;
use crate::graph::GraphEdge;
use crate::graph::GraphView;
use crate::graph::InferredEdge;
use crate::graph::MentionView;
use crate::graph::add_entities;
use crate::graph::add_inferred;
use crate::graph::add_mentions;
use crate::graph::add_relations;
use crate::graph::best_from;
use crate::graph::chunk_scores;
use crate::graph::context_line;
use crate::graph::context_render;
use crate::graph::dot;
use crate::graph::dot_upto;
use crate::graph::edge_scores;
use crate::graph::entity_category;
use crate::graph::full_graph_row_count;
use crate::graph::has_chunk;
use crate::graph::has_edge;
use crate::graph::has_entity;
use crate::graph::has_inferred;
use crate::graph::has_mention;
use crate::graph::has_vis_node;
use crate::graph::hybrid_rows;
use crate::graph::incident_edges;
use crate::graph::inferred_step;
use crate::graph::mention_names;
use crate::graph::mention_step;
use crate::graph::neighborhood_nodes;
use crate::graph::node_degree;
use crate::graph::normalize_relation_type;
use crate::graph::relation_step;
use crate::graph::entity_step;
use crate::graph::top_indices;
use crate::graph::top_rec;
use crate::graph::vis_edges_of;
use crate::graph::vis_node_step;
use crate::graph::vis_nodes_of;
use crate::graph::insert_node_sorted;
use crate::graph::sort_nodes_by_id;
use crate::text::str_le;
use crate::text::str_le_exec;
use crate::graph::ChunkView;
use crate::models::emb_wf;
use crate::models::Embedding;
use crate::models::Entity;
use crate::models::EntityView;
use crate::models::GraphDataResponse;
use crate::models::HybridContext;
use crate::models::HybridContextView;
use crate::models::InferredRelation;
use crate::models::KnowledgeExtraction;
use crate::models::VisEdge;
use crate::models::VisNode;
use crate::models::VisNodeView;
use crate::ports::KGRepository;

verus! {

use vstd::string::StringExecFns;

/// A persisted chunk record.
#[derive(Clone, Debug)]
pub struct StoredChunk {
    pub id: String,
    pub text: String,
    pub embedding: Embedding,
}

impl DeepView for StoredChunk {
    type V = ChunkView;

    open spec fn deep_view(&self) -> ChunkView {
        ChunkView { id: self.id@, text: self.text@, embedding: self.embedding.deep_view() }
    }
}

/// A persisted relation edge, already under its normalized kind.
#[derive(Clone, Debug)]
pub struct StoredRelation {
    pub source: String,
    pub target: String,
    pub kind: String,
}

impl DeepView for StoredRelation {
    type V = GraphEdge;

    open spec fn deep_view(&self) -> GraphEdge {
        GraphEdge { source: self.source@, target: self.target@, kind: self.kind@ }
    }
}

/// A persisted chunk-to-entity mention link.
#[derive(Clone, Debug)]
pub struct StoredMention {
    pub chunk_id: String,
    pub entity_name: String,
}

impl DeepView for StoredMention {
    type V = MentionView;

    open spec fn deep_view(&self) -> MentionView {
        MentionView { chunk_id: self.chunk_id@, entity_name: self.entity_name@ }
    }
}

/// A persisted AI-inferred edge.
#[derive(Clone, Debug)]
pub struct StoredInferred {
    pub source: String,
    pub target: String,
    pub kind: String,
    pub reasoning: String,
    pub ai_generated: bool,
}

impl DeepView for StoredInferred {
    type V = InferredEdge;

    open spec fn deep_view(&self) -> InferredEdge {
        InferredEdge {
            source: self.source@,
            target: self.target@,
            kind: self.kind@,
            reasoning: self.reasoning@,
            ai_generated: self.ai_generated,
        }
    }
}

// ---------------------------------------------------------------------------
// Membership helpers
// ---------------------------------------------------------------------------

/// The index of the first entity with this name.
fn entity_index(es: &Vec<Entity>, name: &String) -> (r: Option<usize>)
    ensures
        match r {
            Some(i) => i < es@.len() && es.deep_view()[i as int].name == name@ && (forall|k: int|
                0 <= k < i ==> (#[trigger] es.deep_view()[k]).name != name@) && has_entity(
                es.deep_view(),
                name@,
            ),
            None => !has_entity(es.deep_view(), name@),
        },
{
    let mut i: usize = 0;
    while i < es.len()
        invariant
            i <= es@.len(),
            forall|k: int| 0 <= k < i ==> (#[trigger] es.deep_view()[k]).name != name@,
        decreases es@.len() - i,
    {
        if es[i].name == *name {
            return Some(i);
        }
        i = i + 1;
    }
    None
}

/// Whether a chunk with this id is stored.
fn chunk_exists(cs: &Vec<StoredChunk>, id: &String) -> (r: bool)
    ensures
        r == has_chunk(cs.deep_view(), id@),
{
    let mut i: usize = 0;
    while i < cs.len()
        invariant
            i <= cs@.len(),
            forall|k: int| 0 <= k < i ==> (#[trigger] cs.deep_view()[k]).id != id@,
        decreases cs@.len() - i,
    {
        if cs[i].id == *id {
            proof {
                assert(cs@[i as int].id@ == id@);
                assert(cs.deep_view()[i as int] == cs@[i as int].deep_view());
                assert(cs.deep_view()[i as int].id == id@);
            }
            return true;
        }
        i = i + 1;
    }
    false
}

/// Whether this exact edge is stored.
fn edge_exists(rels: &Vec<StoredRelation>, source: &String, target: &String, kind: &String) -> (r:
    bool)
    ensures
        r == has_edge(rels.deep_view(), GraphEdge { source: source@, target: target@, kind: kind@ }),
{
    let ghost e = GraphEdge { source: source@, target: target@, kind: kind@ };
    let mut i: usize = 0;
    while i < rels.len()
        invariant
            i <= rels@.len(),
            e == (GraphEdge { source: source@, target: target@, kind: kind@ }),
            forall|k: int| 0 <= k < i ==> #[trigger] rels.deep_view()[k] != e,
        decreases rels@.len() - i,
    {
        let same = rels[i].source == *source && rels[i].target == *target && rels[i].kind
            == *kind;
        proof {
            assert(rels.deep_view()[i as int] == rels@[i as int].deep_view());
            if same {
                assert(rels@[i as int].source@ == source@);
                assert(rels@[i as int].target@ == target@);
                assert(rels@[i as int].kind@ == kind@);
                assert(rels.deep_view()[i as int] == e);
            } else {
                assert(rels.deep_view()[i as int] != e);
            }
        }
        if same {
            return true;
        }
        i = i + 1;
    }
    false
}

/// Whether this exact mention link is stored.
fn mention_exists(ms: &Vec<StoredMention>, chunk_id: &String, name: &String) -> (r: bool)
    ensures
        r == has_mention(ms.deep_view(), MentionView { chunk_id: chunk_id@, entity_name: name@ }),
{
    let ghost m = MentionView { chunk_id: chunk_id@, entity_name: name@ };
    let mut i: usize = 0;
    while i < ms.len()
        invariant
            i <= ms@.len(),
            m == (MentionView { chunk_id: chunk_id@, entity_name: name@ }),
            forall|k: int| 0 <= k < i ==> #[trigger] ms.deep_view()[k] != m,
        decreases ms@.len() - i,
    {
        let same = ms[i].chunk_id == *chunk_id && ms[i].entity_name == *name;
        proof {
            assert(ms.deep_view()[i as int] == ms@[i as int].deep_view());
            if same {
                assert(ms@[i as int].chunk_id@ == chunk_id@);
                assert(ms@[i as int].entity_name@ == name@);
                assert(ms.deep_view()[i as int] == m);
            } else {
                assert(ms.deep_view()[i as int] != m);
            }
        }
        if same {
            return true;
        }
        i = i + 1;
    }
    false
}

/// Whether an inferred edge with this source, target and kind is stored.
fn inferred_exists(inf: &Vec<StoredInferred>, source: &String, target: &String, kind: &String) -> (r:
    bool)
    ensures
        r == has_inferred(inf.deep_view(), source@, target@, kind@),
{
    let mut i: usize = 0;
    while i < inf.len()
        invariant
            i <= inf@.len(),
            forall|k: int|
                0 <= k < i ==> !((#[trigger] inf.deep_view()[k]).source == source@
                    && inf.deep_view()[k].target == target@ && inf.deep_view()[k].kind == kind@),
        decreases inf@.len() - i,
    {
        let same = inf[i].source == *source && inf[i].target == *target && inf[i].kind == *kind;
        proof {
            assert(inf.deep_view()[i as int] == inf@[i as int].deep_view());
        }
        if same {
            proof {
                assert(inf.deep_view()[i as int].source == source@);
                assert(inf.deep_view()[i as int].target == target@);
                assert(inf.deep_view()[i as int].kind == kind@);
            }
            return true;
        }
        i = i + 1;
    }
    false
}

/// The category of the first entity with this name, or empty.
fn category_of(es: &Vec<Entity>, name: &String) -> (r: String)
    ensures
        r@ == entity_category(es.deep_view(), name@),
{
    match entity_index(es, name) {
        Some(i) => {
            proof {
                lemma_entity_category_first(es.deep_view(), name@, i as int);
            }
            es[i].category.clone()
        },
        None => {
            proof {
                lemma_entity_category_missing(es.deep_view(), name@);
            }
            String::new()
        },
    }
}

proof fn lemma_entity_category_first(es: Seq<EntityView>, name: Seq<char>, i: int)
    requires
        0 <= i < es.len(),
        es[i].name == name,
        forall|k: int| 0 <= k < i ==> (#[trigger] es[k]).name != name,
    ensures
        entity_category(es, name) == es[i].category,
    decreases i,
{
    if i > 0 {
        assert(es[0].name != name);
        lemma_entity_category_first(es.drop_first(), name, i - 1);
        assert(es.drop_first()[i - 1] == es[i]);
    }
}

proof fn lemma_entity_category_missing(es: Seq<EntityView>, name: Seq<char>)
    requires
        !has_entity(es, name),
    ensures
        entity_category(es, name) == Seq::<char>::empty(),
    decreases es.len(),
{
    if es.len() > 0 {
        assert(es[0].name != name);
        assert(!has_entity(es.drop_first(), name)) by {
            if has_entity(es.drop_first(), name) {
                let j = choose|j: int|
                    0 <= j < es.drop_first().len() && (#[trigger] es.drop_first()[j]).name == name;
                assert(es[j + 1].name == name);
            }
        }
        lemma_entity_category_missing(es.drop_first(), name);
    }
}

// ---------------------------------------------------------------------------
// Similarity scoring and selection
// ---------------------------------------------------------------------------

/// The dot product of a stored vector against a well-formed query, exactly.
fn dot_score(a: &Vec<i64>, q: &Vec<i64>) -> (r: i128)
    requires
        emb_wf(q@),
    ensures
        r as int == dot(a@, q@),
{
    let n = if a.len() <= q.len() {
        a.len()
    } else {
        q.len()
    };
    let mut acc: i128 = 0;
    let mut i: usize = 0;
    while i < n
        invariant
            i <= n,
            n == if a@.len() <= q@.len() {
                a@.len()
            } else {
                q@.len()
            },
            emb_wf(q@),
            acc as int == dot_upto(a@, q@, i as int),
            -(i as int) * (0x8000000000000000int * 0x100000) <= acc as int <= (i as int) * (
            0x8000000000000000int * 0x100000),
        decreases n - i,
    {
        proof {
            let av = a@[i as int] as int;
            let qv = q@[i as int] as int;
            assert((-(0x8000000000000000int * 0x100000) <= av * qv) && (av * qv
                <= 0x8000000000000000int * 0x100000)) by (nonlinear_arith)
                requires
                    (-0x8000000000000000int <= av) && (av < 0x8000000000000000int),
                    (-0x100000int <= qv) && (qv <= 0x100000int),
            ;
            assert((i as int) * (0x8000000000000000int * 0x100000) + (0x8000000000000000int
                * 0x100000) == ((i as int) + 1) * (0x8000000000000000int * 0x100000))
                by (nonlinear_arith);
            assert(((i as int) + 1) * (0x8000000000000000int * 0x100000) <= 0x100000int * (
            0x8000000000000000int * 0x100000)) by (nonlinear_arith)
                requires
                    (i as int) + 1 <= 0x100000int,
            ;
        }
        let term: i128 = (a[i] as i128) * (q[i] as i128);
        acc = acc + term;
        i = i + 1;
    }
    acc
}

/// Whether `x` is among the picked indices.
fn picked_contains(picked: &Vec<usize>, x: usize) -> (r: bool)
    ensures
        r == picked@.map_values(|u: usize| u as int).contains(x as int),
{
    let ghost gp = picked@.map_values(|u: usize| u as int);
    let mut i: usize = 0;
    while i < picked.len()
        invariant
            i <= picked@.len(),
            gp == picked@.map_values(|u: usize| u as int),
            forall|k: int| 0 <= k < i ==> #[trigger] gp[k] != x as int,
        decreases picked@.len() - i,
    {
        if picked[i] == x {
            proof {
                assert(gp[i as int] == x as int);
            }
            return true;
        }
        i = i + 1;
    }
    false
}

/// The indices of the `limit` highest scores, in rank order.
fn select_top(scores: &Vec<i128>, limit: usize) -> (r: Vec<usize>)
    ensures
        r@.map_values(|u: usize| u as int) == top_indices(
            scores@.map_values(|x: i128| x as int),
            limit as nat,
        ),
        forall|k: int| 0 <= k < r@.len() ==> (#[trigger] r@[k]) < scores@.len(),
{
    let ghost gs = scores@.map_values(|x: i128| x as int);
    let mut picked: Vec<usize> = Vec::new();
    let mut t: usize = 0;
    proof {
        assert(picked@.map_values(|u: usize| u as int) =~= Seq::<int>::empty());
    }
    while t < limit
        invariant
            t <= limit,
            gs == scores@.map_values(|x: i128| x as int),
            forall|k: int| 0 <= k < picked@.len() ==> (#[trigger] picked@[k]) < scores@.len(),
            top_rec(gs, picked@.map_values(|u: usize| u as int), (limit - t) as nat) == top_indices(
                gs,
                limit as nat,
            ),
        ensures
            picked@.map_values(|u: usize| u as int) == top_indices(gs, limit as nat),
        decreases limit - t,
    {
        let ghost gp = picked@.map_values(|u: usize| u as int);
        // Scan downward so the running best matches `best_from` exactly.
        let mut best: Option<usize> = None;
        let mut j: usize = scores.len();
        proof {
            assert(best_from(gs, gp, j as int) is None);
        }
        while j > 0
            invariant
                j <= scores@.len(),
                gs == scores@.map_values(|x: i128| x as int),
                gp == picked@.map_values(|u: usize| u as int),
                match best {
                    Some(b) => b < scores@.len() && best_from(gs, gp, j as int) == Some(b as int),
                    None => best_from(gs, gp, j as int) is None,
                },
            decreases j,
        {
            j = j - 1;
            if !picked_contains(&picked, j) {
                match best {
                    None => {
                        best = Some(j);
                    },
                    Some(b) => {
                        if scores[b] > scores[j] {
                        } else {
                            best = Some(j);
                        }
                    },
                }
            }
        }
        match best {
            None => {
                proof {
                    assert(top_rec(gs, gp, (limit - t) as nat) == gp);
                }
                break ;
            },
            Some(b) => {
                picked.push(b);
                proof {
                    assert(picked@.map_values(|u: usize| u as int) =~= gp.push(b as int));
                    assert(top_rec(gs, gp, (limit - t) as nat) == top_rec(
                        gs,
                        gp.push(b as int),
                        (limit - t - 1) as nat,
                    ));
                }
                t = t + 1;
            },
        }
    }
    proof {
        if t == limit {
            assert(top_rec(gs, picked@.map_values(|u: usize| u as int), 0nat) == picked@.map_values(
                |u: usize| u as int,
            ));
        }
    }
    picked
}

// ---------------------------------------------------------------------------
// The repository
// ---------------------------------------------------------------------------

/// The in-memory store itself.
pub struct MemoryGraphRepository {
    chunks: Vec<StoredChunk>,
    entities: Vec<Entity>,
    relations: Vec<StoredRelation>,
    mentions: Vec<StoredMention>,
    inferred: Vec<StoredInferred>,
    index_dim: Option<usize>,
}

impl MemoryGraphRepository {
    /// An empty store with no index configured.
    pub fn new() -> (r: MemoryGraphRepository)
        ensures
            r.graph() == (GraphView {
                chunks: Seq::empty(),
                entities: Seq::empty(),
                relations: Seq::empty(),
                mentions: Seq::empty(),
                inferred: Seq::empty(),
                index_dim: None,
            }),
    {
        let r = MemoryGraphRepository {
            chunks: Vec::new(),
            entities: Vec::new(),
            relations: Vec::new(),
            mentions: Vec::new(),
            inferred: Vec::new(),
            index_dim: None,
        };
        proof {
            assert(r.chunks.deep_view() =~= Seq::<ChunkView>::empty());
            assert(r.entities.deep_view() =~= Seq::<EntityView>::empty());
            assert(r.relations.deep_view() =~= Seq::<GraphEdge>::empty());
            assert(r.mentions.deep_view() =~= Seq::<MentionView>::empty());
            assert(r.inferred.deep_view() =~= Seq::<InferredEdge>::empty());
        }
        r
    }

    /// The stored chunk records.
    pub fn chunks(&self) -> (r: &Vec<StoredChunk>)
        ensures
            r.deep_view() == self.graph().chunks,
    {
        &self.chunks
    }

    /// The stored entities.
    pub fn entities(&self) -> (r: &Vec<Entity>)
        ensures
            r.deep_view() == self.graph().entities,
    {
        &self.entities
    }

    /// The stored relation edges.
    pub fn relations(&self) -> (r: &Vec<StoredRelation>)
        ensures
            r.deep_view() == self.graph().relations,
    {
        &self.relations
    }

    /// The stored mention links.
    pub fn mentions(&self) -> (r: &Vec<StoredMention>)
        ensures
            r.deep_view() == self.graph().mentions,
    {
        &self.mentions
    }

    /// The stored AI-inferred edges.
    pub fn inferred_edges(&self) -> (r: &Vec<StoredInferred>)
        ensures
            r.deep_view() == self.graph().inferred,
    {
        &self.inferred
    }
}

impl KGRepository for MemoryGraphRepository {
    closed spec fn graph(&self) -> GraphView {
        GraphView {
            chunks: self.chunks.deep_view(),
            entities: self.entities.deep_view(),
            relations: self.relations.deep_view(),
            mentions: self.mentions.deep_view(),
            inferred: self.inferred.deep_view(),
            index_dim: match self.index_dim {
                Some(d) => Some(d as int),
                None => None,
            },
        }
    }

    fn create_indexes(&mut self, dim: usize) -> (r: Result<(), AppError>)
        ensures
            r is Ok,
    {
        self.index_dim = Some(dim);
        Ok(())
    }

    fn reset_database(&mut self) -> (r: Result<(), AppError>)
        ensures
            r is Ok,
    {
        self.chunks.clear();
        self.entities.clear();
        self.relations.clear();
        self.mentions.clear();
        self.inferred.clear();
        proof {
            assert(self.chunks.deep_view() =~= Seq::<ChunkView>::empty());
            assert(self.entities.deep_view() =~= Seq::<EntityView>::empty());
            assert(self.relations.deep_view() =~= Seq::<GraphEdge>::empty());
            assert(self.mentions.deep_view() =~= Seq::<MentionView>::empty());
            assert(self.inferred.deep_view() =~= Seq::<InferredEdge>::empty());
        }
        Ok(())
    }

    fn save_chunk(&mut self, id: &String, content: &String, embedding: &Embedding) -> (r: Result<
        (),
        AppError,
    >)
        ensures
            r is Ok,
    {
        let ghost v0 = self.graph();
        self.chunks.push(
            StoredChunk { id: id.clone(), text: content.clone(), embedding: embedding.duplicate() },
        );
        proof {
            assert(self.chunks.deep_view() =~= v0.chunks.push(
                ChunkView { id: id@, text: content@, embedding: embedding@ },
            ));
        }
        Ok(())
    }

    fn save_graph(&mut self, chunk_id: &String, data: &KnowledgeExtraction) -> (r: Result<
        (),
        AppError,
    >)
        ensures
            r is Ok,
    {
        let ghost v0 = self.graph();

        // Merge the entities, in order.
        let mut i: usize = 0;
        proof {
            assert(data@.entities.take(0) =~= Seq::<EntityView>::empty());
        }
        while i < data.entities.len()
            invariant
                i <= data@.entities.len(),
                data@.entities.len() == data.entities@.len(),
                self.graph() == (GraphView {
                    entities: add_entities(v0.entities, data@.entities.take(i as int)),
                    ..v0
                }),
            decreases data@.entities.len() - i,
        {
            let e = &data.entities[i];
            let ghost cur = self.entities.deep_view();
            if entity_index(&self.entities, &e.name).is_none() {
                self.entities.push(Entity { name: e.name.clone(), category: e.category.clone() });
                proof {
                    assert(self.entities.deep_view() =~= cur.push(data@.entities[i as int]));
                }
            }
            proof {
                assert(data@.entities.take(i + 1).drop_last() =~= data@.entities.take(i as int));
                assert(data@.entities.take(i + 1).last() == data@.entities[i as int]);
                assert(self.entities.deep_view() == entity_step(cur, data@.entities[i as int]));
            }
            i = i + 1;
        }
        proof {
            assert(data@.entities.take(data@.entities.len() as int) =~= data@.entities);
        }
        let ghost es1 = add_entities(v0.entities, data@.entities);

        // Merge the relations under their normalized kinds, in order.
        let mut j: usize = 0;
        proof {
            assert(data@.relations.take(0) =~= Seq::<crate::models::RelationView>::empty());
        }
        while j < data.relations.len()
            invariant
                j <= data@.relations.len(),
                data@.relations.len() == data.relations@.len(),
                data@.entities.len() == data.entities@.len(),
                self.graph() == (GraphView {
                    entities: es1,
                    relations: add_relations(es1, v0.relations, data@.relations.take(j as int)),
                    ..v0
                }),
                es1 == add_entities(v0.entities, data@.entities),
            decreases data@.relations.len() - j,
        {
            let rel = &data.relations[j];
            let kind = normalize_relation_type(rel.relation_type.as_str());
            let ghost cur = self.relations.deep_view();
            let src_ok = entity_index(&self.entities, &rel.source).is_some();
            let tgt_ok = entity_index(&self.entities, &rel.target).is_some();
            if src_ok && tgt_ok && !edge_exists(&self.relations, &rel.source, &rel.target, &kind) {
                self.relations.push(
                    StoredRelation { source: rel.source.clone(), target: rel.target.clone(), kind },
                );
                proof {
                    assert(self.relations.deep_view() =~= cur.push(
                        GraphEdge {
                            source: data@.relations[j as int].source,
                            target: data@.relations[j as int].target,
                            kind: crate::graph::normalized_kind(
                                data@.relations[j as int].relation_type,
                            ),
                        },
                    ));
                }
            }
            proof {
                assert(data@.relations.take(j + 1).drop_last() =~= data@.relations.take(j as int));
                assert(data@.relations.take(j + 1).last() == data@.relations[j as int]);
                assert(self.relations.deep_view() == relation_step(
                    es1,
                    cur,
                    data@.relations[j as int],
                ));
            }
            j = j + 1;
        }
        proof {
            assert(data@.relations.take(data@.relations.len() as int) =~= data@.relations);
        }
        let ghost rels1 = add_relations(es1, v0.relations, data@.relations);

        // Link every mentioned entity to the chunk, in order.
        let ghost names = data@.entities.map_values(|e: EntityView| e.name);
        let mut k: usize = 0;
        proof {
            assert(names.take(0) =~= Seq::<Seq<char>>::empty());
        }
        while k < data.entities.len()
            invariant
                k <= names.len(),
                names == data@.entities.map_values(|e: EntityView| e.name),
                names.len() == data.entities@.len(),
                data@.entities.len() == data.entities@.len(),
                self.graph() == (GraphView {
                    entities: es1,
                    relations: rels1,
                    mentions: add_mentions(
                        v0.chunks,
                        es1,
                        v0.mentions,
                        names.take(k as int),
                        chunk_id@,
                    ),
                    ..v0
                }),
                es1 == add_entities(v0.entities, data@.entities),
            decreases names.len() - k,
        {
            let name = &data.entities[k].name;
            let ghost cur = self.mentions.deep_view();
            let c_ok = chunk_exists(&self.chunks, chunk_id);
            let e_ok = entity_index(&self.entities, name).is_some();
            if c_ok && e_ok && !mention_exists(&self.mentions, chunk_id, name) {
                self.mentions.push(
                    StoredMention { chunk_id: chunk_id.clone(), entity_name: name.clone() },
                );
                proof {
                    assert(self.mentions.deep_view() =~= cur.push(
                        MentionView { chunk_id: chunk_id@, entity_name: names[k as int] },
                    ));
                }
            }
            proof {
                assert(names.take(k + 1).drop_last() =~= names.take(k as int));
                assert(names.take(k + 1).last() == names[k as int]);
                assert(self.mentions.deep_view() == mention_step(
                    v0.chunks,
                    es1,
                    cur,
                    chunk_id@,
                    names[k as int],
                ));
            }
            k = k + 1;
        }
        proof {
            assert(names.take(names.len() as int) =~= names);
        }
        Ok(())
    }

    fn save_inferred_relations(&mut self, relations: &Vec<InferredRelation>) -> (r: Result<
        (),
        AppError,
    >)
        ensures
            r is Ok,
    {
        let ghost v0 = self.graph();
        let ghost batch = relations.deep_view();
        let mut i: usize = 0;
        proof {
            assert(batch.take(0) =~= Seq::<crate::models::InferredRelationView>::empty());
        }
        while i < relations.len()
            invariant
                i <= batch.len(),
                batch == relations.deep_view(),
                batch.len() == relations@.len(),
                self.graph() == (GraphView {
                    inferred: add_inferred(v0.entities, v0.inferred, batch.take(i as int)),
                    ..v0
                }),
            decreases batch.len() - i,
        {
            let rel = &relations[i];
            let mut kind = String::from_str("INFERRED_");
            let norm = normalize_relation_type(rel.relation.as_str());
            kind.append(norm.as_str());
            proof {
                assert(kind@ == crate::graph::inferred_kind(batch[i as int].relation));
            }
            let ghost cur = self.inferred.deep_view();
            let src_ok = entity_index(&self.entities, &rel.source).is_some();
            let tgt_ok = entity_index(&self.entities, &rel.target).is_some();
            if src_ok && tgt_ok && !inferred_exists(&self.inferred, &rel.source, &rel.target, &kind)
             {
                self.inferred.push(
                    StoredInferred {
                        source: rel.source.clone(),
                        target: rel.target.clone(),
                        kind,
                        reasoning: rel.reasoning.clone(),
                        ai_generated: true,
                    },
                );
                proof {
                    assert(self.inferred.deep_view() =~= cur.push(
                        InferredEdge {
                            source: batch[i as int].source,
                            target: batch[i as int].target,
                            kind: crate::graph::inferred_kind(batch[i as int].relation),
                            reasoning: batch[i as int].reasoning,
                            ai_generated: true,
                        },
                    ));
                }
            }
            proof {
                assert(batch.take(i + 1).drop_last() =~= batch.take(i as int));
                assert(batch.take(i + 1).last() == batch[i as int]);
                assert(self.inferred.deep_view() == inferred_step(
                    v0.entities,
                    cur,
                    batch[i as int],
                ));
            }
            i = i + 1;
        }
        proof {
            assert(batch.take(batch.len() as int) =~= batch);
        }
        Ok(())
    }

    fn get_full_graph(&self) -> (r: Result<GraphDataResponse, AppError>)
        ensures
            r is Ok,
    {
        let m: usize = if self.relations.len() <= 1000 {
            self.relations.len()
        } else {
            1000
        };
        let ghost rels = self.graph().relations.take(m as int);
        let mut nodes: Vec<VisNode> = Vec::new();
        let mut edges: Vec<VisEdge> = Vec::new();
        let mut i: usize = 0;
        proof {
            assert(rels.take(0) =~= Seq::<GraphEdge>::empty());
            assert(nodes.deep_view() =~= Seq::<VisNodeView>::empty());
            assert(edges.deep_view() =~= Seq::<crate::models::VisEdgeView>::empty());
            assert(vis_edges_of(rels.take(0)) =~= Seq::<crate::models::VisEdgeView>::empty());
        }
        while i < m
            invariant
                i <= m,
                m <= self.relations@.len(),
                m == full_graph_row_count(self.graph()),
                rels == self.graph().relations.take(m as int),
                nodes.deep_view() == vis_nodes_of(self.graph().entities, rels.take(i as int)),
                edges.deep_view() == vis_edges_of(rels.take(i as int)),
            decreases m - i,
        {
            let e = &self.relations[i];
            proof {
                assert(rels.take(i + 1).drop_last() =~= rels.take(i as int));
                assert(rels.take(i + 1).last() == e.deep_view());
            }
            push_vis_node(&mut nodes, &self.entities, &e.source);
            push_vis_node(&mut nodes, &self.entities, &e.target);
            let ghost edges0 = edges.deep_view();
            edges.push(
                VisEdge { from: e.source.clone(), to: e.target.clone(), label: e.kind.clone() },
            );
            proof {
                assert(edges.deep_view() =~= edges0.push(
                    crate::models::VisEdgeView { from: e.source@, to: e.target@, label: e.kind@ },
                ));
                assert(vis_edges_of(rels.take(i + 1)) =~= vis_edges_of(rels.take(i as int)).push(
                    crate::models::VisEdgeView { from: e.source@, to: e.target@, label: e.kind@ },
                ));
            }
            i = i + 1;
        }
        proof {
            assert(rels.take(m as int) =~= rels);
        }
        Ok(GraphDataResponse { nodes, edges })
    }

    fn find_hybrid_context(&self, embedding: &Embedding, limit: usize) -> (r: Result<
        Vec<HybridContext>,
        AppError,
    >)
        ensures
            r is Ok,
    {
        // Score every chunk against the query.
        let mut scores: Vec<i128> = Vec::new();
        let mut i: usize = 0;
        while i < self.chunks.len()
            invariant
                i <= self.chunks@.len(),
                scores@.len() == i,
                forall|k: int|
                    0 <= k < i ==> (#[trigger] scores@[k]) as int == chunk_scores(
                        self.graph().chunks,
                        embedding@,
                    )[k],
                emb_wf(embedding@),
            decreases self.chunks@.len() - i,
        {
            let s = dot_score(self.chunks[i].embedding.components(), embedding.components());
            scores.push(s);
            i = i + 1;
        }
        proof {
            assert(scores@.map_values(|x: i128| x as int) =~= chunk_scores(
                self.graph().chunks,
                embedding@,
            ));
        }
        let picked = select_top(&scores, limit);
        let ghost gp = picked@.map_values(|u: usize| u as int);

        // Build the rows in rank order.
        let mut rows: Vec<HybridContext> = Vec::new();
        let mut t: usize = 0;
        proof {
            assert(gp.take(0) =~= Seq::<int>::empty());
            assert(rows.deep_view() =~= Seq::<HybridContextView>::empty());
        }
        while t < picked.len()
            invariant
                t <= picked@.len(),
                gp == picked@.map_values(|u: usize| u as int),
                forall|k: int| 0 <= k < picked@.len() ==> (#[trigger] picked@[k])
                    < self.chunks@.len(),
                rows.deep_view() == hybrid_rows(self.graph(), gp.take(t as int)),
            decreases picked@.len() - t,
        {
            let b = picked[t];
            let names = self.names_for_chunk(&self.chunks[b].id);
            let ghost rows0 = rows.deep_view();
            proof {
                assert(gp.take(t + 1).drop_last() =~= gp.take(t as int));
                assert(gp.take(t + 1).last() == b as int);
            }
            rows.push(
                HybridContext {
                    chunk_id: self.chunks[b].id.clone(),
                    content: self.chunks[b].text.clone(),
                    connected_entities: names,
                },
            );
            proof {
                assert(rows.deep_view() =~= rows0.push(
                    HybridContextView {
                        chunk_id: self.graph().chunks[b as int].id,
                        content: self.graph().chunks[b as int].text,
                        connected_entities: mention_names(
                            self.graph().mentions,
                            self.graph().chunks[b as int].id,
                        ),
                    },
                ));
            }
            t = t + 1;
        }
        proof {
            assert(gp.take(picked@.len() as int) =~= gp);
        }
        Ok(rows)
    }

    fn get_concept_neighborhood(&self, name: &String) -> (r: Result<GraphDataResponse, AppError>)
        ensures
            r is Ok,
    {
        // Collect the incident edges, bounded to a hundred.
        let mut inc: Vec<StoredRelation> = Vec::new();
        let mut i: usize = 0;
        proof {
            assert(self.graph().relations.take(0) =~= Seq::<GraphEdge>::empty());
            assert(inc.deep_view() =~= Seq::<GraphEdge>::empty());
            assert(incident_edges(self.graph().relations.take(0), name@) =~= Seq::<
                GraphEdge,
            >::empty());
        }
        while i < self.relations.len()
            invariant
                i <= self.relations@.len(),
                inc.deep_view() == incident_edges(self.graph().relations.take(i as int), name@),
            decreases self.relations@.len() - i,
        {
            let e = &self.relations[i];
            proof {
                assert(self.graph().relations.take(i + 1).drop_last() =~= self.graph(
                ).relations.take(i as int));
                assert(self.graph().relations.take(i + 1).last() == e.deep_view());
            }
            let ghost inc0 = inc.deep_view();
            if e.source == *name || e.target == *name {
                inc.push(
                    StoredRelation {
                        source: e.source.clone(),
                        target: e.target.clone(),
                        kind: e.kind.clone(),
                    },
                );
                proof {
                    assert(inc.deep_view() =~= inc0.push(e.deep_view()));
                }
            }
            i = i + 1;
        }
        proof {
            assert(self.graph().relations.take(self.relations@.len() as int) =~= self.graph(
            ).relations);
        }
        let ghost inc_all = incident_edges(self.graph().relations, name@);
        inc.truncate(100);
        proof {
            if inc_all.len() <= 100 {
                assert(inc.deep_view() =~= inc_all);
            } else {
                assert(inc.deep_view() =~= inc_all.take(100));
            }
        }
        let ghost inc_g = inc.deep_view();

        if inc.len() == 0 {
            match entity_index(&self.entities, name) {
                Some(_) => {
                    let cat = category_of(&self.entities, name);
                    let mut nodes: Vec<VisNode> = Vec::new();
                    nodes.push(VisNode { id: name.clone(), label: name.clone(), group: cat });
                    proof {
                        assert(nodes.deep_view() =~= seq![
                            VisNodeView {
                                id: name@,
                                label: name@,
                                group: entity_category(self.graph().entities, name@),
                            },
                        ]);
                    }
                    Ok(GraphDataResponse { nodes, edges: Vec::new() })
                },
                None => {
                    let nodes: Vec<VisNode> = Vec::new();
                    proof {
                        assert(nodes.deep_view() =~= Seq::<VisNodeView>::empty());
                    }
                    Ok(GraphDataResponse { nodes, edges: Vec::new() })
                },
            }
        } else {
            let mut nodes: Vec<VisNode> = Vec::new();
            let mut edges: Vec<VisEdge> = Vec::new();
            let mut k: usize = 0;
            proof {
                assert(inc_g.take(0) =~= Seq::<GraphEdge>::empty());
                assert(nodes.deep_view() =~= Seq::<VisNodeView>::empty());
                assert(edges.deep_view() =~= Seq::<crate::models::VisEdgeView>::empty());
                assert(vis_edges_of(inc_g.take(0)) =~= Seq::<crate::models::VisEdgeView>::empty());
            }
            while k < inc.len()
                invariant
                    k <= inc@.len(),
                    inc_g == inc.deep_view(),
                    inc_g.len() == inc@.len(),
                    nodes.deep_view() == neighborhood_nodes(
                        self.graph().entities,
                        name@,
                        inc_g.take(k as int),
                    ),
                    edges.deep_view() == vis_edges_of(inc_g.take(k as int)),
                decreases inc@.len() - k,
            {
                let e = &inc[k];
                proof {
                    assert(inc_g.take(k + 1).drop_last() =~= inc_g.take(k as int));
                    assert(inc_g.take(k + 1).last() == e.deep_view());
                }
                push_vis_node(&mut nodes, &self.entities, &e.source);
                push_vis_node(&mut nodes, &self.entities, &e.target);
                let ghost edges0 = edges.deep_view();
                edges.push(
                    VisEdge { from: e.source.clone(), to: e.target.clone(), label: e.kind.clone() },
                );
                proof {
                    assert(edges.deep_view() =~= edges0.push(
                        crate::models::VisEdgeView {
                            from: e.source@,
                            to: e.target@,
                            label: e.kind@,
                        },
                    ));
                    assert(vis_edges_of(inc_g.take(k + 1)) =~= vis_edges_of(
                        inc_g.take(k as int),
                    ).push(
                        crate::models::VisEdgeView {
                            from: e.source@,
                            to: e.target@,
                            label: e.kind@,
                        },
                    ));
                }
                k = k + 1;
            }
            proof {
                assert(inc_g.take(inc@.len() as int) =~= inc_g);
            }
            // Rearrange the nodes into ascending id order.
            let mut sorted_nodes: Vec<VisNode> = Vec::new();
            let mut w: usize = 0;
            proof {
                assert(sorted_nodes.deep_view() =~= Seq::<VisNodeView>::empty());
                assert(nodes.deep_view().take(0) =~= Seq::<VisNodeView>::empty());
            }
            while w < nodes.len()
                invariant
                    w <= nodes@.len(),
                    sorted_nodes.deep_view() == sort_nodes_by_id(nodes.deep_view().take(w as int)),
                decreases nodes@.len() - w,
            {
                let copy = VisNode {
                    id: nodes[w].id.clone(),
                    label: nodes[w].label.clone(),
                    group: nodes[w].group.clone(),
                };
                proof {
                    assert(copy@ == nodes.deep_view()[w as int]);
                    assert(nodes.deep_view().take(w + 1).drop_last() =~= nodes.deep_view().take(
                        w as int,
                    ));
                    assert(nodes.deep_view().take(w + 1).last() == nodes.deep_view()[w as int]);
                }
                insert_node_by_id(&mut sorted_nodes, copy);
                w = w + 1;
            }
            proof {
                assert(nodes.deep_view().take(nodes@.len() as int) =~= nodes.deep_view());
            }
            Ok(GraphDataResponse { nodes: sorted_nodes, edges })
        }
    }

    fn get_graph_context_for_reasoning(&self, limit: usize) -> (r: Result<String, AppError>)
        ensures
            r is Ok,
    {
        if self.relations.len() == 0 || limit == 0 {
            return Ok(String::from_str("El grafo está vacío."));
        }
        // Score every edge by the degrees of its endpoints.
        let mut scores: Vec<i128> = Vec::new();
        let mut i: usize = 0;
        while i < self.relations.len()
            invariant
                i <= self.relations@.len(),
                scores@.len() == i,
                forall|k: int|
                    0 <= k < i ==> (#[trigger] scores@[k]) as int == edge_scores(
                        self.graph().relations,
                    )[k],
            decreases self.relations@.len() - i,
        {
            let ds = self.degree_of(&self.relations[i].source);
            let dt = self.degree_of(&self.relations[i].target);
            scores.push(ds as i128 + dt as i128);
            i = i + 1;
        }
        proof {
            assert(scores@.map_values(|x: i128| x as int) =~= edge_scores(self.graph().relations));
        }
        let picked = select_top(&scores, limit);
        let ghost gp = picked@.map_values(|u: usize| u as int);

        let mut out = String::new();
        let mut t: usize = 0;
        proof {
            assert(gp.take(0) =~= Seq::<int>::empty());
            assert(out@ =~= context_render(self.graph().relations, gp.take(0)));
        }
        while t < picked.len()
            invariant
                t <= picked@.len(),
                gp == picked@.map_values(|u: usize| u as int),
                forall|k: int| 0 <= k < picked@.len() ==> (#[trigger] picked@[k])
                    < self.relations@.len(),
                out@ == context_render(self.graph().relations, gp.take(t as int)),
            decreases picked@.len() - t,
        {
            let b = picked[t];
            let e = &self.relations[b];
            proof {
                assert(gp.take(t + 1).drop_last() =~= gp.take(t as int));
                assert(gp.take(t + 1).last() == b as int);
            }
            out.append("(");
            out.append(e.source.as_str());
            out.append(") -[");
            out.append(e.kind.as_str());
            out.append("]-> (");
            out.append(e.target.as_str());
            out.append(")\n");
            proof {
                assert(out@ =~= context_render(self.graph().relations, gp.take(t as int))
                    + context_line(self.graph().relations[b as int]));
            }
            t = t + 1;
        }
        proof {
            assert(gp.take(picked@.len() as int) =~= gp);
        }
        Ok(out)
    }
}

impl MemoryGraphRepository {
    /// The distinct entity names mentioned by this chunk id, in link order.
    fn names_for_chunk(&self, id: &String) -> (r: Vec<String>)
        ensures
            r.deep_view() == mention_names(self.graph().mentions, id@),
    {
        let mut r: Vec<String> = Vec::new();
        let mut i: usize = 0;
        proof {
            assert(self.graph().mentions.take(0) =~= Seq::<MentionView>::empty());
            assert(r.deep_view() =~= Seq::<Seq<char>>::empty());
            assert(mention_names(self.graph().mentions.take(0), id@) =~= Seq::<Seq<char>>::empty());
        }
        while i < self.mentions.len()
            invariant
                i <= self.mentions@.len(),
                r.deep_view() == mention_names(self.graph().mentions.take(i as int), id@),
            decreases self.mentions@.len() - i,
        {
            let m = &self.mentions[i];
            proof {
                assert(self.graph().mentions.take(i + 1).drop_last() =~= self.graph().mentions.take(
                    i as int,
                ));
                assert(self.graph().mentions.take(i + 1).last() == m.deep_view());
            }
            let ghost r0 = r.deep_view();
            if m.chunk_id == *id {
                r.push(m.entity_name.clone());
                proof {
                    assert(r.deep_view() =~= r0.push(m.entity_name@));
                }
            }
            i = i + 1;
        }
        proof {
            assert(self.graph().mentions.take(self.mentions@.len() as int) =~= self.graph(
            ).mentions);
        }
        r
    }

    /// How many stored relation edges touch this entity name.
    fn degree_of(&self, name: &String) -> (r: usize)
        ensures
            r as int == node_degree(self.graph().relations, name@),
    {
        let mut count: usize = 0;
        let mut i: usize = 0;
        proof {
            assert(self.graph().relations.take(0) =~= Seq::<GraphEdge>::empty());
        }
        while i < self.relations.len()
            invariant
                i <= self.relations@.len(),
                count <= i,
                count as int == node_degree(self.graph().relations.take(i as int), name@),
            decreases self.relations@.len() - i,
        {
            let e = &self.relations[i];
            proof {
                assert(self.graph().relations.take(i + 1).drop_last() =~= self.graph(
                ).relations.take(i as int));
                assert(self.graph().relations.take(i + 1).last() == e.deep_view());
            }
            if e.source == *name || e.target == *name {
                count = count + 1;
            }
            i = i + 1;
        }
        proof {
            assert(self.graph().relations.take(self.relations@.len() as int) =~= self.graph(
            ).relations);
        }
        count
    }
}

proof fn lemma_insert_sorted_at(ns: Seq<VisNodeView>, x: VisNodeView, p: int)
    requires
        0 <= p <= ns.len(),
        forall|k: int| 0 <= k < p ==> !str_le(x.id, (#[trigger] ns[k]).id),
        p < ns.len() ==> str_le(x.id, ns[p].id),
    ensures
        insert_node_sorted(ns, x) == ns.take(p) + seq![x] + ns.skip(p),
    decreases ns.len(),
{
    if ns.len() == 0 {
        assert(insert_node_sorted(ns, x) =~= ns.take(p) + seq![x] + ns.skip(p));
    } else if p == 0 {
        assert(insert_node_sorted(ns, x) == seq![x] + ns);
        assert(seq![x] + ns =~= ns.take(0) + seq![x] + ns.skip(0));
    } else {
        assert(!str_le(x.id, ns[0].id));
        assert forall|k: int| 0 <= k < p - 1 implies !str_le(
            x.id,
            (#[trigger] ns.drop_first()[k]).id,
        ) by {
            assert(ns.drop_first()[k] == ns[k + 1]);
        }
        if p - 1 < ns.drop_first().len() {
            assert(ns.drop_first()[p - 1] == ns[p]);
        }
        lemma_insert_sorted_at(ns.drop_first(), x, p - 1);
        assert(seq![ns[0]] + (ns.drop_first().take(p - 1) + seq![x] + ns.drop_first().skip(p - 1))
            =~= ns.take(p) + seq![x] + ns.skip(p));
    }
}

/// Inserts the node at its place in an id-sorted vector.
fn insert_node_by_id(nodes: &mut Vec<VisNode>, x: VisNode)
    ensures
        final(nodes).deep_view() == insert_node_sorted(old(nodes).deep_view(), x@),
{
    let ghost gx = x@;
    let mut p: usize = 0;
    while p < nodes.len() && !str_le_exec(x.id.as_str(), nodes[p].id.as_str())
        invariant
            p <= nodes@.len(),
            nodes@ == old(nodes)@,
            gx == x@,
            forall|k: int| 0 <= k < p ==> !str_le(gx.id, (#[trigger] nodes.deep_view()[k]).id),
        decreases nodes@.len() - p,
    {
        p = p + 1;
    }
    proof {
        lemma_insert_sorted_at(nodes.deep_view(), gx, p as int);
    }
    let ghost prior = nodes.deep_view();
    nodes.insert(p, x);
    proof {
        assert(nodes.deep_view() =~= prior.take(p as int) + seq![gx] + prior.skip(p as int));
    }
}

/// Appends the visualization node for `name` unless one with that id is
/// already present.
fn push_vis_node(nodes: &mut Vec<VisNode>, es: &Vec<Entity>, name: &String)
    ensures
        final(nodes).deep_view() == vis_node_step(es.deep_view(), old(nodes).deep_view(), name@),
{
    let mut found = false;
    let mut i: usize = 0;
    while i < nodes.len()
        invariant
            i <= nodes@.len(),
            nodes@ == old(nodes)@,
            found ==> has_vis_node(nodes.deep_view(), name@),
            !found ==> forall|k: int| 0 <= k < i ==> (#[trigger] nodes.deep_view()[k]).id != name@,
        decreases nodes@.len() - i,
    {
        if nodes[i].id == *name {
            proof {
                assert(nodes.deep_view()[i as int].id == name@);
            }
            found = true;
        }
        i = i + 1;
    }
    if !found {
        let cat = category_of(es, name);
        let ghost prior = nodes.deep_view();
        nodes.push(VisNode { id: name.clone(), label: name.clone(), group: cat });
        proof {
            assert(nodes.deep_view() =~= prior.push(
                VisNodeView {
                    id: name@,
                    label: name@,
                    group: entity_category(es.deep_view(), name@),
                },
            ));
        }
    }
}

} // verus!
