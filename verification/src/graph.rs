//! The mathematical model of the graph repository.
//!
//! [`GraphView`] is the abstract state every repository implementation is
//! specified against: a sequence of stored chunks, a set of entities keyed by
//! name, normalized relation edges, chunk-to-entity mention links, and
//! AI-inferred edges. The transition functions here say exactly what each
//! write does, and the query functions say exactly what each read returns.

use vstd::prelude::*;

use crate::models::EntityView;
use crate::models::ExtractionView;
use crate::models::HybridContextView;
use crate::models::InferredRelationView;
use crate::models::RelationView;
use crate::models::VisEdgeView;
use crate::models::VisNodeView;
use crate::models::GraphDataView;
use crate::text::chars_of;
use crate::text::is_whitespace_char;
use crate::text::is_ws;
use crate::text::push_char;
use crate::text::str_le;

verus! {

// ---------------------------------------------------------------------------
// Relation-type normalization
// ---------------------------------------------------------------------------

/// `s` with every whitespace character replaced by an underscore.
pub open spec fn underscored(s: Seq<char>) -> Seq<char> {
    s.map_values(|c: char| if is_ws(c) { '_' } else { c })
}

/// The Unicode uppercase mapping of a string, named but not written out: it
/// is a function of the characters alone, computed by std.
pub uninterp spec fn upper_of(s: Seq<char>) -> Seq<char>;

/// Relies on `str::to_uppercase` from std: the result is the Unicode
/// uppercase equivalent of `s`, a function of `s` alone; an empty string
/// stays empty.
#[verifier::external_body]
fn to_uppercase_str(s: &str) -> (r: String)
    ensures
        r@ == upper_of(s@),
        s@.len() == 0 ==> r@.len() == 0,
{
    s.to_uppercase()
}

/// The deterministic edge kind for a relation-type label: whitespace becomes
/// underscores, then the whole label is uppercased.
pub open spec fn normalized_kind(s: Seq<char>) -> Seq<char> {
    upper_of(underscored(s))
}

/// Normalizes a relation-type label into the edge kind it is stored under.
pub fn normalize_relation_type(s: &str) -> (r: String)
    ensures
        r@ == normalized_kind(s@),
{
    let cs = chars_of(s);
    let mut t = String::new();
    let mut i: usize = 0;
    proof {
        assert(t@ =~= underscored(s@).take(0));
    }
    while i < cs.len()
        invariant
            i <= cs@.len(),
            cs@ == s@,
            t@ == underscored(s@).take(i as int),
        decreases cs@.len() - i,
    {
        let c = cs[i];
        if is_whitespace_char(c) {
            push_char(&mut t, '_');
        } else {
            push_char(&mut t, c);
        }
        proof {
            assert(underscored(s@).take(i + 1) =~= underscored(s@).take(i as int).push(
                underscored(s@)[i as int],
            ));
        }
        i = i + 1;
    }
    proof {
        assert(underscored(s@).take(s@.len() as int) =~= underscored(s@));
    }
    to_uppercase_str(t.as_str())
}

// ---------------------------------------------------------------------------
// The abstract store
// ---------------------------------------------------------------------------

/// A stored document chunk: opaque id, raw text, fixed-point embedding.
#[verifier::ext_equal]
pub struct ChunkView {
    pub id: Seq<char>,
    pub text: Seq<char>,
    pub embedding: Seq<i64>,
}

/// A directly-extracted edge, stored under its normalized kind.
#[verifier::ext_equal]
pub struct GraphEdge {
    pub source: Seq<char>,
    pub target: Seq<char>,
    pub kind: Seq<char>,
}

/// A chunk-to-entity mention link.
#[verifier::ext_equal]
pub struct MentionView {
    pub chunk_id: Seq<char>,
    pub entity_name: Seq<char>,
}

/// An AI-inferred edge: kind prefixed so it is distinguishable from directly
/// extracted relations, tagged as AI-generated, carrying its reasoning text.
#[verifier::ext_equal]
pub struct InferredEdge {
    pub source: Seq<char>,
    pub target: Seq<char>,
    pub kind: Seq<char>,
    pub reasoning: Seq<char>,
    pub ai_generated: bool,
}

/// The whole abstract state of a graph repository.
#[verifier::ext_equal]
pub struct GraphView {
    pub chunks: Seq<ChunkView>,
    pub entities: Seq<EntityView>,
    pub relations: Seq<GraphEdge>,
    pub mentions: Seq<MentionView>,
    pub inferred: Seq<InferredEdge>,
    pub index_dim: Option<int>,
}

impl GraphView {
    /// The state of a freshly reset repository: empty, indexes kept.
    pub open spec fn emptied(self) -> GraphView {
        GraphView {
            chunks: Seq::empty(),
            entities: Seq::empty(),
            relations: Seq::empty(),
            mentions: Seq::empty(),
            inferred: Seq::empty(),
            index_dim: self.index_dim,
        }
    }
}

/// Whether an entity with this name exists.
pub open spec fn has_entity(es: Seq<EntityView>, name: Seq<char>) -> bool {
    exists|i: int| 0 <= i < es.len() && (#[trigger] es[i]).name == name
}

/// Whether a chunk with this id exists.
pub open spec fn has_chunk(cs: Seq<ChunkView>, id: Seq<char>) -> bool {
    exists|i: int| 0 <= i < cs.len() && (#[trigger] cs[i]).id == id
}

/// Whether this exact edge exists.
pub open spec fn has_edge(rels: Seq<GraphEdge>, e: GraphEdge) -> bool {
    exists|i: int| 0 <= i < rels.len() && #[trigger] rels[i] == e
}

/// Whether this exact mention link exists.
pub open spec fn has_mention(ms: Seq<MentionView>, m: MentionView) -> bool {
    exists|i: int| 0 <= i < ms.len() && #[trigger] ms[i] == m
}

/// Whether an inferred edge with this source, target and kind exists.
pub open spec fn has_inferred(inf: Seq<InferredEdge>, source: Seq<char>, target: Seq<char>, kind: Seq<char>) -> bool {
    exists|i: int|
        0 <= i < inf.len() && (#[trigger] inf[i]).source == source && inf[i].target == target
            && inf[i].kind == kind
}

/// The category of the first entity with this name, or the empty string.
pub open spec fn entity_category(es: Seq<EntityView>, name: Seq<char>) -> Seq<char>
    decreases es.len(),
{
    if es.len() == 0 {
        Seq::empty()
    } else if es[0].name == name {
        es[0].category
    } else {
        entity_category(es.drop_first(), name)
    }
}

// ---------------------------------------------------------------------------
// Write transitions
// ---------------------------------------------------------------------------

/// Appending one chunk record.
pub open spec fn save_chunk_t(v: GraphView, id: Seq<char>, text: Seq<char>, emb: Seq<i64>) -> GraphView {
    GraphView { chunks: v.chunks.push(ChunkView { id, text, embedding: emb }), ..v }
}

/// Merging one extracted entity: repeated sightings of a name never duplicate
/// the node, and the category is kept from the first sighting.
pub open spec fn entity_step(es: Seq<EntityView>, e: EntityView) -> Seq<EntityView> {
    if has_entity(es, e.name) {
        es
    } else {
        es.push(e)
    }
}

/// Merging a batch of extracted entities, in order.
pub open spec fn add_entities(es: Seq<EntityView>, batch: Seq<EntityView>) -> Seq<EntityView>
    decreases batch.len(),
{
    if batch.len() == 0 {
        es
    } else {
        entity_step(add_entities(es, batch.drop_last()), batch.last())
    }
}

/// Merging one extracted relation: the edge appears under its normalized
/// kind, only if both endpoints already exist, and never as a duplicate.
pub open spec fn relation_step(es: Seq<EntityView>, rels: Seq<GraphEdge>, r: RelationView) -> Seq<GraphEdge> {
    let e = GraphEdge { source: r.source, target: r.target, kind: normalized_kind(r.relation_type) };
    if has_entity(es, r.source) && has_entity(es, r.target) && !has_edge(rels, e) {
        rels.push(e)
    } else {
        rels
    }
}

/// Merging a batch of extracted relations, in order.
pub open spec fn add_relations(es: Seq<EntityView>, rels: Seq<GraphEdge>, batch: Seq<RelationView>) -> Seq<GraphEdge>
    decreases batch.len(),
{
    if batch.len() == 0 {
        rels
    } else {
        relation_step(es, add_relations(es, rels, batch.drop_last()), batch.last())
    }
}

/// Linking one mentioned entity to the chunk: only if the chunk and the
/// entity exist, and never as a duplicate link.
pub open spec fn mention_step(
    cs: Seq<ChunkView>,
    es: Seq<EntityView>,
    ms: Seq<MentionView>,
    chunk_id: Seq<char>,
    name: Seq<char>,
) -> Seq<MentionView> {
    let m = MentionView { chunk_id, entity_name: name };
    if has_chunk(cs, chunk_id) && has_entity(es, name) && !has_mention(ms, m) {
        ms.push(m)
    } else {
        ms
    }
}

/// Linking every entity named by the extraction to the chunk, in order.
pub open spec fn add_mentions(
    cs: Seq<ChunkView>,
    es: Seq<EntityView>,
    ms: Seq<MentionView>,
    names: Seq<Seq<char>>,
    chunk_id: Seq<char>,
) -> Seq<MentionView>
    decreases names.len(),
{
    if names.len() == 0 {
        ms
    } else {
        mention_step(cs, es, add_mentions(cs, es, ms, names.drop_last(), chunk_id), chunk_id, names.last())
    }
}

/// Persisting one extraction for a chunk: entities are merged first, then
/// relations, then the mention links — in that order.
pub open spec fn save_graph_t(v: GraphView, chunk_id: Seq<char>, x: ExtractionView) -> GraphView {
    let es = add_entities(v.entities, x.entities);
    let rels = add_relations(es, v.relations, x.relations);
    let ms = add_mentions(v.chunks, es, v.mentions, x.entities.map_values(|e: EntityView| e.name), chunk_id);
    GraphView { entities: es, relations: rels, mentions: ms, ..v }
}

/// The kind an inferred relation is stored under: a dedicated prefix ahead of
/// the normalized relation type.
pub open spec fn inferred_kind(relation: Seq<char>) -> Seq<char> {
    "INFERRED_"@ + normalized_kind(relation)
}

/// Merging one inferred relation: only between existing entities, tagged as
/// AI-generated; the reasoning text of the first sighting is kept.
pub open spec fn inferred_step(es: Seq<EntityView>, inf: Seq<InferredEdge>, r: InferredRelationView) -> Seq<InferredEdge> {
    let e = InferredEdge {
        source: r.source,
        target: r.target,
        kind: inferred_kind(r.relation),
        reasoning: r.reasoning,
        ai_generated: true,
    };
    if has_entity(es, r.source) && has_entity(es, r.target) && !has_inferred(inf, e.source, e.target, e.kind) {
        inf.push(e)
    } else {
        inf
    }
}

/// Merging a batch of inferred relations, in order.
pub open spec fn add_inferred(es: Seq<EntityView>, inf: Seq<InferredEdge>, batch: Seq<InferredRelationView>) -> Seq<InferredEdge>
    decreases batch.len(),
{
    if batch.len() == 0 {
        inf
    } else {
        inferred_step(es, add_inferred(es, inf, batch.drop_last()), batch.last())
    }
}

/// Persisting a reasoning batch: additive only — chunks, entities, and the
/// directly-extracted relations are untouched.
pub open spec fn save_inferred_t(v: GraphView, batch: Seq<InferredRelationView>) -> GraphView {
    GraphView { inferred: add_inferred(v.entities, v.inferred, batch), ..v }
}

// ---------------------------------------------------------------------------
// Similarity ranking
// ---------------------------------------------------------------------------

/// The dot product of the first `i` components of `a` and `b`.
pub open spec fn dot_upto(a: Seq<i64>, b: Seq<i64>, i: int) -> int
    decreases i,
{
    if i <= 0 {
        0
    } else {
        dot_upto(a, b, i - 1) + a[i - 1] * b[i - 1]
    }
}

/// The similarity score of two fixed-point vectors: their dot product.
/// This is the engine's scoring under the library's integer arithmetic; for
/// provider-normalized vectors of one dimension its ranking coincides with
/// cosine similarity. The common-prefix truncation only matters for
/// mismatched dimensions, which the repository contract rejects once an
/// index dimension is set.
pub open spec fn dot(a: Seq<i64>, b: Seq<i64>) -> int {
    dot_upto(a, b, if a.len() <= b.len() { a.len() as int } else { b.len() as int })
}

/// The score of every stored chunk against the query vector.
pub open spec fn chunk_scores(cs: Seq<ChunkView>, q: Seq<i64>) -> Seq<int> {
    Seq::new(cs.len(), |i: int| dot(cs[i].embedding, q))
}

/// Among the indices `i..scores.len()` not yet picked, the one with the
/// highest score; the earliest wins a tie.
pub open spec fn best_from(scores: Seq<int>, picked: Seq<int>, i: int) -> Option<int>
    decreases scores.len() - i,
{
    if i < 0 || i >= scores.len() {
        None
    } else {
        let rest = best_from(scores, picked, i + 1);
        if picked.contains(i) {
            rest
        } else {
            match rest {
                None => Some(i),
                Some(j) => if scores[j] > scores[i] {
                    Some(j)
                } else {
                    Some(i)
                },
            }
        }
    }
}

pub proof fn lemma_best_from_range(scores: Seq<int>, picked: Seq<int>, i: int)
    ensures
        match best_from(scores, picked, i) {
            Some(j) => i <= j < scores.len() && !picked.contains(j),
            None => true,
        },
    decreases scores.len() - i,
{
    if 0 <= i < scores.len() {
        lemma_best_from_range(scores, picked, i + 1);
    }
}

/// Picking the `k` best indices, in rank order.
pub open spec fn top_rec(scores: Seq<int>, picked: Seq<int>, k: nat) -> Seq<int>
    decreases k,
{
    if k == 0 {
        picked
    } else {
        match best_from(scores, picked, 0) {
            None => picked,
            Some(b) => top_rec(scores, picked.push(b), (k - 1) as nat),
        }
    }
}

/// The indices of the `k` highest scores, in descending rank order, earliest
/// index first among equal scores.
pub open spec fn top_indices(scores: Seq<int>, k: nat) -> Seq<int> {
    top_rec(scores, Seq::empty(), k)
}

// ---------------------------------------------------------------------------
// Read queries
// ---------------------------------------------------------------------------

/// The distinct entity names mentioned by the chunk, in link order.
pub open spec fn mention_names(ms: Seq<MentionView>, chunk_id: Seq<char>) -> Seq<Seq<char>>
    decreases ms.len(),
{
    if ms.len() == 0 {
        Seq::empty()
    } else {
        let r = mention_names(ms.drop_last(), chunk_id);
        if ms.last().chunk_id == chunk_id {
            r.push(ms.last().entity_name)
        } else {
            r
        }
    }
}

/// The retrieval rows for the picked chunk indices, in rank order. Every
/// matched chunk appears; one that mentions no entity carries an empty set.
pub open spec fn hybrid_rows(v: GraphView, picked: Seq<int>) -> Seq<HybridContextView>
    decreases picked.len(),
{
    if picked.len() == 0 {
        Seq::empty()
    } else {
        let i = picked.last();
        hybrid_rows(v, picked.drop_last()).push(
            HybridContextView {
                chunk_id: v.chunks[i].id,
                content: v.chunks[i].text,
                connected_entities: mention_names(v.mentions, v.chunks[i].id),
            },
        )
    }
}

/// Hybrid retrieval: the top `limit` chunks by similarity to the query, each
/// joined with the distinct entities it mentions.
pub open spec fn hybrid_of(v: GraphView, q: Seq<i64>, limit: nat) -> Seq<HybridContextView> {
    hybrid_rows(v, top_indices(chunk_scores(v.chunks, q), limit))
}

/// How many relation edges this entity participates in, as source or target.
pub open spec fn node_degree(rels: Seq<GraphEdge>, name: Seq<char>) -> int
    decreases rels.len(),
{
    if rels.len() == 0 {
        0
    } else {
        node_degree(rels.drop_last(), name) + if rels.last().source == name
            || rels.last().target == name {
            1int
        } else {
            0int
        }
    }
}

/// The density proxy of each edge: the degrees of its two endpoints.
pub open spec fn edge_scores(rels: Seq<GraphEdge>) -> Seq<int> {
    Seq::new(
        rels.len(),
        |i: int| node_degree(rels, rels[i].source) + node_degree(rels, rels[i].target),
    )
}

/// One rendered context line for an edge.
pub open spec fn context_line(e: GraphEdge) -> Seq<char> {
    "("@ + e.source + ") -["@ + e.kind + "]-> ("@ + e.target + ")\n"@
}

/// The rendered context lines for the picked edge indices, in rank order.
pub open spec fn context_render(rels: Seq<GraphEdge>, picked: Seq<int>) -> Seq<char>
    decreases picked.len(),
{
    if picked.len() == 0 {
        Seq::empty()
    } else {
        context_render(rels, picked.drop_last()) + context_line(rels[picked.last()])
    }
}

/// The sentinel context text for a repository with no relations to show.
pub open spec fn empty_graph_sentinel() -> Seq<char> {
    "El grafo está vacío."@
}

/// The bounded, density-ranked textual rendering of the graph handed to the
/// reasoning prompt; the sentinel when there is nothing to render.
pub open spec fn context_of(v: GraphView, limit: nat) -> Seq<char> {
    if v.relations.len() == 0 || limit == 0 {
        empty_graph_sentinel()
    } else {
        context_render(v.relations, top_indices(edge_scores(v.relations), limit))
    }
}

/// Whether a visualization node with this id was already emitted.
pub open spec fn has_vis_node(ns: Seq<VisNodeView>, id: Seq<char>) -> bool {
    exists|i: int| 0 <= i < ns.len() && (#[trigger] ns[i]).id == id
}

/// Emitting one entity as a visualization node, once.
pub open spec fn vis_node_step(es: Seq<EntityView>, ns: Seq<VisNodeView>, name: Seq<char>) -> Seq<VisNodeView> {
    if has_vis_node(ns, name) {
        ns
    } else {
        ns.push(VisNodeView { id: name, label: name, group: entity_category(es, name) })
    }
}

/// The nodes that participate in the given edges, in first-appearance order.
pub open spec fn vis_nodes_of(es: Seq<EntityView>, rels: Seq<GraphEdge>) -> Seq<VisNodeView>
    decreases rels.len(),
{
    if rels.len() == 0 {
        Seq::empty()
    } else {
        let ns = vis_nodes_of(es, rels.drop_last());
        vis_node_step(es, vis_node_step(es, ns, rels.last().source), rels.last().target)
    }
}

/// The edges, as the visualization layer draws them.
pub open spec fn vis_edges_of(rels: Seq<GraphEdge>) -> Seq<VisEdgeView> {
    rels.map_values(|e: GraphEdge| VisEdgeView { from: e.source, to: e.target, label: e.kind })
}

/// The number of relation rows the full-graph projection reads.
pub open spec fn full_graph_row_count(v: GraphView) -> int {
    if v.relations.len() <= 1000 {
        v.relations.len() as int
    } else {
        1000
    }
}

/// The full visualization projection: every entity that participates in a
/// relation, and every relation edge, bounded to the first thousand rows.
pub open spec fn full_graph_of(v: GraphView) -> GraphDataView {
    let rels = v.relations.take(full_graph_row_count(v));
    GraphDataView { nodes: vis_nodes_of(v.entities, rels), edges: vis_edges_of(rels) }
}

/// The edges incident to the named entity, in store order.
pub open spec fn incident_edges(rels: Seq<GraphEdge>, name: Seq<char>) -> Seq<GraphEdge>
    decreases rels.len(),
{
    if rels.len() == 0 {
        Seq::empty()
    } else {
        let r = incident_edges(rels.drop_last(), name);
        if rels.last().source == name || rels.last().target == name {
            r.push(rels.last())
        } else {
            r
        }
    }
}

/// The nodes of a neighborhood projection: the center first, then each
/// neighbor in first-appearance order.
pub open spec fn neighborhood_nodes(es: Seq<EntityView>, name: Seq<char>, inc: Seq<GraphEdge>) -> Seq<VisNodeView>
    decreases inc.len(),
{
    if inc.len() == 0 {
        Seq::empty()
    } else {
        let ns = neighborhood_nodes(es, name, inc.drop_last());
        vis_node_step(es, vis_node_step(es, ns, inc.last().source), inc.last().target)
    }
}

/// Inserting a node into an id-sorted sequence, keeping it sorted.
pub open spec fn insert_node_sorted(ns: Seq<VisNodeView>, x: VisNodeView) -> Seq<VisNodeView>
    decreases ns.len(),
{
    if ns.len() == 0 {
        seq![x]
    } else if str_le(x.id, ns[0].id) {
        seq![x] + ns
    } else {
        seq![ns[0]] + insert_node_sorted(ns.drop_first(), x)
    }
}

/// The nodes rearranged into ascending id order, by insertion.
pub open spec fn sort_nodes_by_id(ns: Seq<VisNodeView>) -> Seq<VisNodeView>
    decreases ns.len(),
{
    if ns.len() == 0 {
        Seq::empty()
    } else {
        insert_node_sorted(sort_nodes_by_id(ns.drop_last()), ns.last())
    }
}

/// The direct neighborhood of one concept: its incident edges (bounded to a
/// hundred) and the nodes they touch, sorted by id; an isolated concept
/// yields its own node alone; an unknown concept yields nothing.
pub open spec fn neighborhood_of(v: GraphView, name: Seq<char>) -> GraphDataView {
    let inc_all = incident_edges(v.relations, name);
    let inc = if inc_all.len() <= 100 {
        inc_all
    } else {
        inc_all.take(100)
    };
    if inc.len() == 0 {
        if has_entity(v.entities, name) {
            GraphDataView {
                nodes: seq![
                    VisNodeView { id: name, label: name, group: entity_category(v.entities, name) },
                ],
                edges: Seq::empty(),
            }
        } else {
            GraphDataView { nodes: Seq::empty(), edges: Seq::empty() }
        }
    } else {
        GraphDataView {
            nodes: sort_nodes_by_id(neighborhood_nodes(v.entities, name, inc)),
            edges: vis_edges_of(inc),
        }
    }
}

} // verus!
