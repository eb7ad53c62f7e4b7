//! The cross-cutting guarantees of the graph model, proved once.
//!
//! Entity names stay unique and a merged entity keeps its first-seen
//! category across every extraction write; relation edges and mention links
//! never duplicate; the entity names joined to a retrieval row are distinct;
//! and an empty graph renders as the explicit sentinel.

use vstd::prelude::*;

use crate::graph::GraphEdge;
use crate::graph::GraphView;
use crate::graph::InferredEdge;
use crate::graph::MentionView;
use crate::graph::add_inferred;
use crate::graph::add_relations;
use crate::graph::best_from;
use crate::graph::has_edge;
use crate::graph::has_inferred;
use crate::graph::hybrid_of;
use crate::graph::hybrid_rows;
use crate::graph::inferred_step;
use crate::graph::relation_step;
use crate::graph::save_inferred_t;
use crate::graph::top_rec;
use crate::graph::top_indices;
use crate::models::InferredRelationView;
use crate::models::RelationView;
use crate::graph::add_entities;
use crate::graph::add_mentions;
use crate::graph::context_of;
use crate::graph::empty_graph_sentinel;
use crate::graph::entity_category;
use crate::graph::entity_step;
use crate::graph::has_entity;
use crate::graph::has_mention;
use crate::graph::mention_names;
use crate::graph::mention_step;
use crate::graph::save_graph_t;
use crate::models::EntityView;
use crate::models::ExtractionView;

verus! {

/// No two stored entities share a name.
pub open spec fn entities_unique(es: Seq<EntityView>) -> bool {
    forall|i: int, j: int|
        #![trigger es[i], es[j]]
        0 <= i < j < es.len() ==> es[i].name != es[j].name
}

/// No two stored relation edges are the same triple.
pub open spec fn relations_unique(rels: Seq<GraphEdge>) -> bool {
    forall|i: int, j: int| #![trigger rels[i], rels[j]] 0 <= i < j < rels.len() ==> rels[i] != rels[j]
}

/// No two stored inferred edges share source, target and kind.
pub open spec fn inferred_unique(inf: Seq<InferredEdge>) -> bool {
    forall|i: int, j: int|
        #![trigger inf[i], inf[j]]
        0 <= i < j < inf.len() ==> !(inf[i].source == inf[j].source && inf[i].target
            == inf[j].target && inf[i].kind == inf[j].kind)
}

/// No two stored mention links are the same pair.
pub open spec fn mentions_unique(ms: Seq<MentionView>) -> bool {
    forall|i: int, j: int| #![trigger ms[i], ms[j]] 0 <= i < j < ms.len() ==> ms[i] != ms[j]
}

/// A repository state the write transitions keep well-formed.
pub open spec fn store_wf(v: GraphView) -> bool {
    &&& entities_unique(v.entities)
    &&& relations_unique(v.relations)
    &&& mentions_unique(v.mentions)
    &&& inferred_unique(v.inferred)
}

proof fn lemma_entity_step_unique(es: Seq<EntityView>, e: EntityView)
    requires
        entities_unique(es),
    ensures
        entities_unique(entity_step(es, e)),
{
    if !has_entity(es, e.name) {
        let r = es.push(e);
        assert forall|i: int, j: int|
            #![trigger r[i], r[j]]
            0 <= i < j < r.len() implies r[i].name != r[j].name by {
            if j == es.len() {
                assert(r[i] == es[i]);
            } else {
                assert(r[i] == es[i] && r[j] == es[j]);
            }
        }
    }
}

/// Merging extracted entities never duplicates a name.
pub proof fn lemma_add_entities_unique(es: Seq<EntityView>, batch: Seq<EntityView>)
    requires
        entities_unique(es),
    ensures
        entities_unique(add_entities(es, batch)),
    decreases batch.len(),
{
    if batch.len() > 0 {
        lemma_add_entities_unique(es, batch.drop_last());
        lemma_entity_step_unique(add_entities(es, batch.drop_last()), batch.last());
    }
}

proof fn lemma_category_after_push(es: Seq<EntityView>, e2: EntityView, name: Seq<char>)
    requires
        has_entity(es, name),
    ensures
        has_entity(es.push(e2), name),
        entity_category(es.push(e2), name) == entity_category(es, name),
    decreases es.len(),
{
    let w = choose|i: int| 0 <= i < es.len() && (#[trigger] es[i]).name == name;
    assert(es.push(e2)[w] == es[w]);
    if es[0].name == name {
        assert(es.push(e2)[0] == es[0]);
    } else {
        assert(has_entity(es.drop_first(), name)) by {
            assert(es.drop_first()[w - 1] == es[w]);
        }
        lemma_category_after_push(es.drop_first(), e2, name);
        assert(es.drop_first().push(e2) =~= es.push(e2).drop_first());
        assert(es.push(e2)[0] == es[0]);
    }
}

proof fn lemma_entity_step_keeps_category(es: Seq<EntityView>, e: EntityView, name: Seq<char>)
    requires
        has_entity(es, name),
    ensures
        has_entity(entity_step(es, e), name),
        entity_category(entity_step(es, e), name) == entity_category(es, name),
{
    if !has_entity(es, e.name) {
        lemma_category_after_push(es, e, name);
    }
}

/// An entity that already exists survives any batch of merges with its
/// category untouched: the category is fixed at first creation.
pub proof fn lemma_add_entities_keeps_category(
    es: Seq<EntityView>,
    batch: Seq<EntityView>,
    name: Seq<char>,
)
    requires
        has_entity(es, name),
    ensures
        has_entity(add_entities(es, batch), name),
        entity_category(add_entities(es, batch), name) == entity_category(es, name),
    decreases batch.len(),
{
    if batch.len() > 0 {
        lemma_add_entities_keeps_category(es, batch.drop_last(), name);
        lemma_entity_step_keeps_category(add_entities(es, batch.drop_last()), batch.last(), name);
    }
}

/// Persisting an extraction keeps entity names unique, and keeps the name
/// and first-seen category of every entity that already existed.
pub proof fn lemma_entity_merge_is_idempotent(
    v: GraphView,
    chunk_id: Seq<char>,
    x: ExtractionView,
    name: Seq<char>,
)
    requires
        entities_unique(v.entities),
        has_entity(v.entities, name),
    ensures
        entities_unique(save_graph_t(v, chunk_id, x).entities),
        has_entity(save_graph_t(v, chunk_id, x).entities, name),
        entity_category(save_graph_t(v, chunk_id, x).entities, name) == entity_category(
            v.entities,
            name,
        ),
{
    lemma_add_entities_unique(v.entities, x.entities);
    lemma_add_entities_keeps_category(v.entities, x.entities, name);
}

proof fn lemma_mention_step_unique(
    cs: Seq<crate::graph::ChunkView>,
    es: Seq<EntityView>,
    ms: Seq<MentionView>,
    chunk_id: Seq<char>,
    name: Seq<char>,
)
    requires
        mentions_unique(ms),
    ensures
        mentions_unique(mention_step(cs, es, ms, chunk_id, name)),
{
    let m = MentionView { chunk_id, entity_name: name };
    if crate::graph::has_chunk(cs, chunk_id) && has_entity(es, name) && !has_mention(ms, m) {
        let r = ms.push(m);
        assert forall|i: int, j: int| #![trigger r[i], r[j]] 0 <= i < j < r.len() implies r[i]
            != r[j] by {
            if j == ms.len() {
                assert(r[i] == ms[i]);
            } else {
                assert(r[i] == ms[i] && r[j] == ms[j]);
            }
        }
    }
}

proof fn lemma_add_mentions_unique(
    cs: Seq<crate::graph::ChunkView>,
    es: Seq<EntityView>,
    ms: Seq<MentionView>,
    names: Seq<Seq<char>>,
    chunk_id: Seq<char>,
)
    requires
        mentions_unique(ms),
    ensures
        mentions_unique(add_mentions(cs, es, ms, names, chunk_id)),
    decreases names.len(),
{
    if names.len() > 0 {
        lemma_add_mentions_unique(cs, es, ms, names.drop_last(), chunk_id);
        lemma_mention_step_unique(
            cs,
            es,
            add_mentions(cs, es, ms, names.drop_last(), chunk_id),
            chunk_id,
            names.last(),
        );
    }
}

proof fn lemma_relation_step_unique(es: Seq<EntityView>, rels: Seq<GraphEdge>, r: RelationView)
    requires
        relations_unique(rels),
    ensures
        relations_unique(relation_step(es, rels, r)),
{
    let e = GraphEdge {
        source: r.source,
        target: r.target,
        kind: crate::graph::normalized_kind(r.relation_type),
    };
    if has_entity(es, r.source) && has_entity(es, r.target) && !has_edge(rels, e) {
        let out = rels.push(e);
        assert forall|i: int, j: int| #![trigger out[i], out[j]] 0 <= i < j < out.len() implies out[i]
            != out[j] by {
            if j == rels.len() {
                assert(out[i] == rels[i]);
            } else {
                assert(out[i] == rels[i] && out[j] == rels[j]);
            }
        }
    }
}

proof fn lemma_add_relations_unique(
    es: Seq<EntityView>,
    rels: Seq<GraphEdge>,
    batch: Seq<RelationView>,
)
    requires
        relations_unique(rels),
    ensures
        relations_unique(add_relations(es, rels, batch)),
    decreases batch.len(),
{
    if batch.len() > 0 {
        lemma_add_relations_unique(es, rels, batch.drop_last());
        lemma_relation_step_unique(es, add_relations(es, rels, batch.drop_last()), batch.last());
    }
}

proof fn lemma_inferred_step_unique(
    es: Seq<EntityView>,
    inf: Seq<InferredEdge>,
    r: InferredRelationView,
)
    requires
        inferred_unique(inf),
    ensures
        inferred_unique(inferred_step(es, inf, r)),
{
    let e = InferredEdge {
        source: r.source,
        target: r.target,
        kind: crate::graph::inferred_kind(r.relation),
        reasoning: r.reasoning,
        ai_generated: true,
    };
    if has_entity(es, r.source) && has_entity(es, r.target) && !has_inferred(
        inf,
        e.source,
        e.target,
        e.kind,
    ) {
        let out = inf.push(e);
        assert forall|i: int, j: int|
            #![trigger out[i], out[j]]
            0 <= i < j < out.len() implies !(out[i].source == out[j].source && out[i].target
            == out[j].target && out[i].kind == out[j].kind) by {
            if j == inf.len() {
                assert(out[i] == inf[i]);
            } else {
                assert(out[i] == inf[i] && out[j] == inf[j]);
            }
        }
    }
}

proof fn lemma_add_inferred_unique(
    es: Seq<EntityView>,
    inf: Seq<InferredEdge>,
    batch: Seq<InferredRelationView>,
)
    requires
        inferred_unique(inf),
    ensures
        inferred_unique(add_inferred(es, inf, batch)),
    decreases batch.len(),
{
    if batch.len() > 0 {
        lemma_add_inferred_unique(es, inf, batch.drop_last());
        lemma_inferred_step_unique(es, add_inferred(es, inf, batch.drop_last()), batch.last());
    }
}

/// An extraction write keeps the store well-formed: entity names stay
/// unique, and relation edges and mention links never duplicate.
pub proof fn lemma_save_graph_preserves_wf(v: GraphView, chunk_id: Seq<char>, x: ExtractionView)
    requires
        store_wf(v),
    ensures
        store_wf(save_graph_t(v, chunk_id, x)),
{
    lemma_add_entities_unique(v.entities, x.entities);
    lemma_add_relations_unique(add_entities(v.entities, x.entities), v.relations, x.relations);
    lemma_add_mentions_unique(
        v.chunks,
        add_entities(v.entities, x.entities),
        v.mentions,
        x.entities.map_values(|e: EntityView| e.name),
        chunk_id,
    );
}

/// A reasoning write keeps the store well-formed: inferred edges never
/// duplicate a source-target-kind triple, and nothing else is touched.
pub proof fn lemma_save_inferred_preserves_wf(v: GraphView, batch: Seq<InferredRelationView>)
    requires
        store_wf(v),
    ensures
        store_wf(save_inferred_t(v, batch)),
{
    lemma_add_inferred_unique(v.entities, v.inferred, batch);
}

/// The names joined to one retrieval row are exactly the names of that
/// chunk's mention links; with unique links they are pairwise distinct —
/// the deduplication that hybrid retrieval promises.
pub proof fn lemma_mention_names_distinct(ms: Seq<MentionView>, chunk_id: Seq<char>)
    requires
        mentions_unique(ms),
    ensures
        forall|n: Seq<char>|
            #[trigger] mention_names(ms, chunk_id).contains(n) <==> has_mention(
                ms,
                MentionView { chunk_id, entity_name: n },
            ),
        forall|i: int, j: int|
            #![trigger mention_names(ms, chunk_id)[i], mention_names(ms, chunk_id)[j]]
            0 <= i < j < mention_names(ms, chunk_id).len() ==> mention_names(ms, chunk_id)[i]
                != mention_names(ms, chunk_id)[j],
    decreases ms.len(),
{
    let r = mention_names(ms, chunk_id);
    if ms.len() == 0 {
        assert forall|n: Seq<char>| #[trigger] r.contains(n) <==> has_mention(
            ms,
            MentionView { chunk_id, entity_name: n },
        ) by {
            if has_mention(ms, MentionView { chunk_id, entity_name: n }) {
                let w = choose|i: int|
                    0 <= i < ms.len() && #[trigger] ms[i] == MentionView {
                        chunk_id,
                        entity_name: n,
                    };
            }
        }
    } else {
        let front = ms.drop_last();
        assert(mentions_unique(front)) by {
            assert forall|i: int, j: int|
                #![trigger front[i], front[j]]
                0 <= i < j < front.len() implies front[i] != front[j] by {
                assert(front[i] == ms[i] && front[j] == ms[j]);
            }
        }
        lemma_mention_names_distinct(front, chunk_id);
        let rf = mention_names(front, chunk_id);
        assert forall|n: Seq<char>| #[trigger] r.contains(n) implies has_mention(
            ms,
            MentionView { chunk_id, entity_name: n },
        ) by {
            let w = choose|i: int| 0 <= i < r.len() && r[i] == n;
            if ms.last().chunk_id == chunk_id && w == r.len() - 1 {
                assert(ms[ms.len() - 1] == MentionView { chunk_id, entity_name: n });
            } else {
                assert(rf[w] == n);
                assert(rf.contains(n));
                let v = choose|i: int|
                    0 <= i < front.len() && #[trigger] front[i] == MentionView {
                        chunk_id,
                        entity_name: n,
                    };
                assert(ms[v] == MentionView { chunk_id, entity_name: n });
            }
        }
        assert forall|n: Seq<char>|
            has_mention(ms, MentionView { chunk_id, entity_name: n }) implies #[trigger] r.contains(
            n,
        ) by {
            let w = choose|i: int|
                0 <= i < ms.len() && #[trigger] ms[i] == MentionView { chunk_id, entity_name: n };
            if w == ms.len() - 1 {
                assert(r[r.len() - 1] == n);
            } else {
                assert(front[w] == ms[w]);
                assert(has_mention(front, MentionView { chunk_id, entity_name: n }));
                assert(rf.contains(n));
                let v = choose|i: int| 0 <= i < rf.len() && rf[i] == n;
                if ms.last().chunk_id == chunk_id {
                    assert(r[v] == rf[v]);
                } else {
                    assert(r[v] == rf[v]);
                }
            }
        }
        assert forall|i: int, j: int|
            #![trigger r[i], r[j]]
            0 <= i < j < r.len() implies r[i] != r[j] by {
            if ms.last().chunk_id == chunk_id && j == r.len() - 1 {
                // A repeated name would mean the same pair is stored twice.
                if r[i] == r[j] {
                    assert(rf[i] == r[i]);
                    assert(rf.contains(r[i]));
                    let v = choose|t: int|
                        0 <= t < front.len() && #[trigger] front[t] == MentionView {
                            chunk_id,
                            entity_name: r[i],
                        };
                    assert(ms[v] == ms[ms.len() - 1]);
                }
            } else {
                assert(r[i] == rf[i] && r[j] == rf[j]);
            }
        }
    }
}

proof fn lemma_top_rec_len(scores: Seq<int>, picked: Seq<int>, k: nat)
    ensures
        top_rec(scores, picked, k).len() <= picked.len() + k,
    decreases k,
{
    if k > 0 {
        match best_from(scores, picked, 0) {
            None => {},
            Some(b) => {
                lemma_top_rec_len(scores, picked.push(b), (k - 1) as nat);
            },
        }
    }
}

proof fn lemma_hybrid_rows_len(v: GraphView, picked: Seq<int>)
    ensures
        hybrid_rows(v, picked).len() == picked.len(),
    decreases picked.len(),
{
    if picked.len() > 0 {
        lemma_hybrid_rows_len(v, picked.drop_last());
    }
}

/// Hybrid retrieval returns at most `limit` rows.
pub proof fn lemma_hybrid_limit(v: GraphView, q: Seq<i64>, limit: nat)
    ensures
        hybrid_of(v, q, limit).len() <= limit,
{
    let scores = crate::graph::chunk_scores(v.chunks, q);
    lemma_top_rec_len(scores, Seq::empty(), limit);
    lemma_hybrid_rows_len(v, top_indices(scores, limit));
}

proof fn lemma_best_from_none_all_picked(scores: Seq<int>, picked: Seq<int>, i: int)
    requires
        0 <= i,
        best_from(scores, picked, i) is None,
    ensures
        forall|j: int| i <= j < scores.len() ==> picked.contains(j),
    decreases scores.len() - i,
{
    if 0 <= i < scores.len() {
        lemma_best_from_none_all_picked(scores, picked, i + 1);
    }
}

proof fn lemma_top_rec_exact(scores: Seq<int>, picked: Seq<int>, k: nat)
    requires
        picked.no_duplicates(),
        forall|t: int| 0 <= t < picked.len() ==> 0 <= #[trigger] picked[t] < scores.len(),
        picked.len() + k <= scores.len(),
    ensures
        top_rec(scores, picked, k).len() == picked.len() + k,
    decreases k,
{
    broadcast use vstd::seq_lib::seq_to_set_is_finite;

    if k > 0 {
        match best_from(scores, picked, 0) {
            None => {
                // Every in-range index would already be picked: impossible,
                // since the distinct picked indices number fewer than the
                // range.
                lemma_best_from_none_all_picked(scores, picked, 0);
                let range = vstd::set_lib::set_int_range(0, scores.len() as int);
                vstd::set_lib::lemma_int_range(0, scores.len() as int);
                assert(range.subset_of(picked.to_set())) by {
                    assert forall|j: int| range.contains(j) implies picked.to_set().contains(
                        j,
                    ) by {
                        assert(picked.contains(j));
                    }
                }
                picked.unique_seq_to_set();
                vstd::set_lib::lemma_len_subset(range, picked.to_set());
                assert(false);
            },
            Some(b) => {
                crate::graph::lemma_best_from_range(scores, picked, 0);
                let next = picked.push(b);
                assert(next.no_duplicates()) by {
                    assert forall|x: int, y: int|
                        0 <= x < next.len() && 0 <= y < next.len() && x != y implies next[x]
                        != next[y] by {
                        if x < picked.len() && y < picked.len() {
                            assert(next[x] == picked[x] && next[y] == picked[y]);
                        } else if x < picked.len() {
                            assert(next[x] == picked[x] && next[y] == b);
                            assert(!picked.contains(b));
                        } else {
                            assert(next[x] == b && next[y] == picked[y]);
                            assert(!picked.contains(b));
                        }
                    }
                }
                assert(forall|t: int|
                    0 <= t < next.len() ==> 0 <= #[trigger] next[t] < scores.len());
                lemma_top_rec_exact(scores, next, (k - 1) as nat);
            },
        }
    }
}

proof fn lemma_best_from_is_max(scores: Seq<int>, picked: Seq<int>, i: int)
    requires
        0 <= i,
    ensures
        match best_from(scores, picked, i) {
            Some(b) => forall|j: int|
                i <= j < scores.len() && !picked.contains(j) ==> scores[j] <= scores[b],
            None => true,
        },
    decreases scores.len() - i,
{
    if 0 <= i < scores.len() {
        lemma_best_from_is_max(scores, picked, i + 1);
        crate::graph::lemma_best_from_range(scores, picked, i + 1);
        if best_from(scores, picked, i + 1) is None {
            lemma_best_from_none_all_picked(scores, picked, i + 1);
        }
    }
}

proof fn lemma_top_rec_ranked(scores: Seq<int>, picked: Seq<int>, k: nat)
    requires
        forall|t: int| 0 <= t < picked.len() ==> 0 <= #[trigger] picked[t] < scores.len(),
        forall|a: int, b: int|
            #![trigger picked[a], picked[b]]
            0 <= a < b < picked.len() ==> scores[picked[b]] <= scores[picked[a]],
        picked.len() > 0 ==> forall|j: int|
            0 <= j < scores.len() && !picked.contains(j) ==> scores[j] <= scores[picked.last()],
    ensures
        ({
            let q = top_rec(scores, picked, k);
            &&& forall|t: int| 0 <= t < q.len() ==> 0 <= #[trigger] q[t] < scores.len()
            &&& forall|a: int, b: int|
                #![trigger q[a], q[b]]
                0 <= a < b < q.len() ==> scores[q[b]] <= scores[q[a]]
            &&& q.len() > 0 ==> forall|j: int|
                0 <= j < scores.len() && !q.contains(j) ==> scores[j] <= scores[q.last()]
        }),
    decreases k,
{
    if k > 0 {
        match best_from(scores, picked, 0) {
            None => {},
            Some(b) => {
                crate::graph::lemma_best_from_range(scores, picked, 0);
                lemma_best_from_is_max(scores, picked, 0);
                let next = picked.push(b);
                assert forall|a: int, c: int|
                    #![trigger next[a], next[c]]
                    0 <= a < c < next.len() implies scores[next[c]] <= scores[next[a]] by {
                    if c < picked.len() {
                        assert(next[a] == picked[a] && next[c] == picked[c]);
                    } else {
                        assert(next[c] == b && next[a] == picked[a]);
                        assert(scores[b] <= scores[picked.last()]);
                        if a < picked.len() - 1 {
                            assert(scores[picked.last()] <= scores[picked[a]]);
                        }
                    }
                }
                assert(next.len() > 0 ==> forall|j: int|
                    0 <= j < scores.len() && !next.contains(j) ==> scores[j] <= scores[
                        next.last()
                    ]) by {
                    assert forall|j: int|
                        0 <= j < scores.len() && !next.contains(j) implies scores[j] <= scores[
                        next.last()
                    ] by {
                        assert(!picked.contains(j)) by {
                            if picked.contains(j) {
                                let w = choose|w: int|
                                    0 <= w < picked.len() && picked[w] == j;
                                assert(next[w] == j);
                            }
                        }
                        assert(next.last() == b);
                    }
                }
                lemma_top_rec_ranked(scores, next, (k - 1) as nat);
                assert(top_rec(scores, picked, k) == top_rec(scores, next, (k - 1) as nat));
            },
        }
    }
}

/// The selection that backs hybrid retrieval is a true top-k: the chosen
/// indices come in non-increasing score order, and no index left out scores
/// higher than any chosen one.
pub proof fn lemma_top_indices_ranked(scores: Seq<int>, k: nat)
    ensures
        ({
            let p = top_indices(scores, k);
            &&& forall|t: int| 0 <= t < p.len() ==> 0 <= #[trigger] p[t] < scores.len()
            &&& forall|a: int, b: int|
                #![trigger p[a], p[b]]
                0 <= a < b < p.len() ==> scores[p[b]] <= scores[p[a]]
            &&& forall|j: int, t: int|
                #![trigger scores[j], p[t]]
                0 <= j < scores.len() && !p.contains(j) && 0 <= t < p.len()
                    ==> scores[j] <= scores[p[t]]
        }),
{
    lemma_top_rec_ranked(scores, Seq::empty(), k);
    let p = top_indices(scores, k);
    assert forall|j: int, t: int|
        #![trigger scores[j], p[t]]
        0 <= j < scores.len() && !p.contains(j) && 0 <= t < p.len() implies scores[j] <= scores[
        p[t]
    ] by {
        assert(scores[j] <= scores[p.last()]);
        if t < p.len() - 1 {
            assert(scores[p.last()] <= scores[p[t]]);
        }
    }
}

/// With at least `limit` chunks stored, hybrid retrieval returns exactly
/// `limit` rows.
pub proof fn lemma_hybrid_exact_limit(v: GraphView, q: Seq<i64>, limit: nat)
    requires
        v.chunks.len() >= limit,
    ensures
        hybrid_of(v, q, limit).len() == limit,
{
    let scores = crate::graph::chunk_scores(v.chunks, q);
    assert(Seq::<int>::empty().no_duplicates());
    lemma_top_rec_exact(scores, Seq::empty(), limit);
    lemma_hybrid_rows_len(v, top_indices(scores, limit));
}

/// In a well-formed store, every hybrid-retrieval row carries a
/// deduplicated set of connected entity names.
pub proof fn lemma_hybrid_rows_dedup(v: GraphView, picked: Seq<int>)
    requires
        mentions_unique(v.mentions),
    ensures
        forall|r: int|
            0 <= r < hybrid_rows(v, picked).len() ==> {
                let names = (#[trigger] hybrid_rows(v, picked)[r]).connected_entities;
                forall|i: int, j: int|
                    #![trigger names[i], names[j]]
                    0 <= i < j < names.len() ==> names[i] != names[j]
            },
    decreases picked.len(),
{
    if picked.len() > 0 {
        lemma_hybrid_rows_dedup(v, picked.drop_last());
        let rows = hybrid_rows(v, picked);
        let prev = hybrid_rows(v, picked.drop_last());
        let i = picked.last();
        let names = mention_names(v.mentions, v.chunks[i].id);
        lemma_mention_names_distinct(v.mentions, v.chunks[i].id);
        assert forall|r: int| 0 <= r < rows.len() implies {
            let ns = (#[trigger] rows[r]).connected_entities;
            forall|a: int, b: int| #![trigger ns[a], ns[b]] 0 <= a < b < ns.len() ==> ns[a]
                != ns[b]
        } by {
            if r < prev.len() {
                assert(rows[r] == prev[r]);
            } else {
                assert(rows[r].connected_entities == names);
            }
        }
    }
}

/// An empty graph renders for reasoning as the explicit sentinel, never as
/// an empty string.
pub proof fn lemma_empty_graph_sentinel(v: GraphView, limit: nat)
    requires
        v.relations.len() == 0,
    ensures
        context_of(v, limit) == empty_graph_sentinel(),
{
}

} // verus!
