//! The ingestion orchestrator: chunk, embed, persist, extract, persist —
//! per chunk, in order, tolerating per-chunk AI failures and aborting on
//! storage failures.
//!
//! The behaviour is specified by a small interpreter: a [`ChunkTrace`]
//! records what the oracle and the store answered for one chunk, and
//! [`ingest_run`] folds the per-chunk transition over a trace. The
//! orchestrator promises that what happened — the final store, the progress
//! log, and the result — is exactly the interpreter's outcome for some
//! well-formed trace of oracle answers. The lemmas at the end pin down the
//! partial-failure policy: a failed embedding skips exactly its own chunk,
//! and a storage failure aborts the run where it happens.

use vstd::prelude::*;

use crate::chunking::spec_split;
use crate::chunking::split_into_segments;
use crate::errors::AppError;
use crate::errors::ErrorView;
use crate::errors::spec_message;
use crate::graph::GraphView;
use crate::graph::save_chunk_t;
use crate::graph::save_graph_t;
use crate::models::emb_wf;
use crate::models::ExtractionView;
use crate::ports::AIService;
use crate::ports::IdGenerator;
use crate::ports::KGRepository;
use crate::ports::ProgressSink;
use crate::text::dec_of;
use crate::text::push_dec_u64;

verus! {

use vstd::string::StringExecFns;

// ---------------------------------------------------------------------------
// Progress lines
// ---------------------------------------------------------------------------

/// A progress line of the form `{prefix}{step}/{total}{suffix}`.
pub open spec fn step_msg(prefix: Seq<char>, step: nat, total: nat, suffix: Seq<char>) -> Seq<
    char,
> {
    prefix + dec_of(step) + "/"@ + dec_of(total) + suffix
}

/// The opening line naming the number of fragments.
pub open spec fn msg_split(total: nat) -> Seq<char> {
    "🔪 Documento largo detectado. Dividido en "@ + dec_of(total) + " fragmentos."@
}

/// The per-chunk embedding progress line.
pub open spec fn msg_embed(step: nat, total: nat) -> Seq<char> {
    step_msg("🧠 ["@, step, total, "] Generando Embeddings..."@)
}

/// The warning emitted when one chunk's embedding fails and the chunk is
/// skipped.
pub open spec fn msg_embed_err(step: nat, e: ErrorView) -> Seq<char> {
    "⚠️ Error embedding chunk "@ + dec_of(step) + ": "@ + spec_message(e) + ". Saltando..."@
}

/// The per-chunk extraction progress line.
pub open spec fn msg_extract(step: nat, total: nat) -> Seq<char> {
    step_msg("🕵️ ["@, step, total, "] Extrayendo conocimiento..."@)
}

/// The per-chunk line naming how many entities are being connected.
pub open spec fn msg_connect(step: nat, total: nat, count: nat) -> Seq<char> {
    step_msg("🕸️ ["@, step, total, "] Conectando "@) + dec_of(count)
        + " entidades al grafo..."@
}

/// The warning emitted when one chunk's extraction fails.
pub open spec fn msg_extract_err(step: nat, e: ErrorView) -> Seq<char> {
    "⚠️ Error extrayendo entidades en parte "@ + dec_of(step) + ": "@ + spec_message(e)
}

/// The closing line of a fully processed document.
pub open spec fn msg_processed() -> Seq<char> {
    "✅ ¡Todo el documento ha sido procesado!"@
}

// ---------------------------------------------------------------------------
// The interpreter
// ---------------------------------------------------------------------------

/// What the oracle and the store answered while one chunk was processed.
/// Fields on paths that were never reached are unconstrained.
#[verifier::ext_equal]
pub struct ChunkTrace {
    pub id: Seq<char>,
    pub embedding: Result<Seq<i64>, ErrorView>,
    pub chunk_save: Result<(), ErrorView>,
    pub extraction: Result<ExtractionView, ErrorView>,
    pub graph_save: Result<(), ErrorView>,
}

/// The evolving outcome of an ingestion: the store, the progress log, and
/// the storage failure that aborted it, if one did.
#[verifier::ext_equal]
pub struct IngestState {
    pub store: GraphView,
    pub log: Seq<Seq<char>>,
    pub failure: Option<ErrorView>,
}

/// A trace an honest run can produce: fresh non-empty ids, well-formed
/// embeddings on success, and database errors on storage failure.
pub open spec fn trace_wf(trs: Seq<ChunkTrace>) -> bool {
    forall|i: int|
        0 <= i < trs.len() ==> {
            &&& (#[trigger] trs[i]).id.len() > 0
            &&& (trs[i].embedding matches Ok(e) ==> emb_wf(e))
            &&& (trs[i].chunk_save matches Err(e) ==> e is Database)
            &&& (trs[i].graph_save matches Err(e) ==> e is Database)
        }
}

/// Processing one chunk: report, embed (skip the chunk on failure), persist
/// the chunk (abort on failure), extract (skip enrichment on failure),
/// persist the extraction (abort on failure).
pub open spec fn ingest_chunk_step(
    st: IngestState,
    text: Seq<char>,
    tr: ChunkTrace,
    step: nat,
    total: nat,
) -> IngestState {
    if st.failure is Some {
        st
    } else {
        let st1 = IngestState { log: st.log.push(msg_embed(step, total)), ..st };
        match tr.embedding {
            Err(e) => IngestState { log: st1.log.push(msg_embed_err(step, e)), ..st1 },
            Ok(emb) => match tr.chunk_save {
                Err(e) => IngestState { failure: Some(e), ..st1 },
                Ok(_) => {
                    let st2 = IngestState {
                        store: save_chunk_t(st1.store, tr.id, text, emb),
                        log: st1.log.push(msg_extract(step, total)),
                        ..st1
                    };
                    match tr.extraction {
                        Err(e) => IngestState { log: st2.log.push(msg_extract_err(step, e)), ..st2 },
                        Ok(x) => {
                            let st3 = IngestState {
                                log: st2.log.push(msg_connect(step, total, x.entities.len())),
                                ..st2
                            };
                            match tr.graph_save {
                                Err(e) => IngestState { failure: Some(e), ..st3 },
                                Ok(_) => IngestState {
                                    store: save_graph_t(st3.store, tr.id, x),
                                    ..st3
                                },
                            }
                        },
                    }
                },
            },
        }
    }
}

/// The state before any chunk is processed: the opening line is on the log.
pub open spec fn ingest_start(v: GraphView, log0: Seq<Seq<char>>, total: nat) -> IngestState {
    IngestState { store: v, log: log0.push(msg_split(total)), failure: None }
}

/// Folding the per-chunk step over a trace, in document order.
pub open spec fn ingest_run(start: IngestState, texts: Seq<Seq<char>>, trs: Seq<ChunkTrace>) -> IngestState
    decreases trs.len(),
{
    if trs.len() == 0 {
        start
    } else {
        ingest_chunk_step(
            ingest_run(start, texts, trs.drop_last()),
            texts[trs.len() - 1],
            trs.last(),
            trs.len() as nat,
            texts.len() as nat,
        )
    }
}

/// The mathematical shape of an ingestion result: the group id's
/// characters, or the error.
pub open spec fn result_view(r: Result<String, AppError>) -> Result<Seq<char>, ErrorView> {
    match r {
        Ok(gid) => Ok(gid@),
        Err(e) => Err(e@),
    }
}

/// The whole contract of one ingestion, for a given trace: the final store
/// and log are the interpreter's, a success processed every chunk and closed
/// the log, and a failure is the storage failure the interpreter hit.
pub open spec fn ingest_post(
    trs: Seq<ChunkTrace>,
    content: Seq<char>,
    v0: GraphView,
    log0: Seq<Seq<char>>,
    vf: GraphView,
    logf: Seq<Seq<char>>,
    r: Result<Seq<char>, ErrorView>,
) -> bool {
    let texts = spec_split(content);
    let out = ingest_run(ingest_start(v0, log0, texts.len()), texts, trs);
    &&& trace_wf(trs)
    &&& trs.len() <= texts.len()
    &&& vf == out.store
    &&& match r {
        Ok(gid) => trs.len() == texts.len() && out.failure is None && gid.len() > 0 && logf
            == out.log.push(msg_processed()),
        Err(e) => out.failure == Some(e) && logf == out.log,
    }
}

// ---------------------------------------------------------------------------
// The orchestrator
// ---------------------------------------------------------------------------

/// Builds `{prefix}{step}/{total}{suffix}`.
fn build_step_msg(prefix: &str, step: u64, total: u64, suffix: &str) -> (r: String)
    ensures
        r@ == step_msg(prefix@, step as nat, total as nat, suffix@),
{
    let mut m = String::from_str(prefix);
    push_dec_u64(&mut m, step);
    m.append("/");
    push_dec_u64(&mut m, total);
    m.append(suffix);
    proof {
        assert(m@ =~= step_msg(prefix@, step as nat, total as nat, suffix@));
    }
    m
}

/// The least number of characters (after trimming whitespace) a document
/// must have to be worth ingesting.
pub const MIN_DOCUMENT_CHARS: usize = 5;

/// Whether a document has enough content to ingest: at least
/// [`MIN_DOCUMENT_CHARS`] characters once surrounding whitespace is
/// trimmed. Shorter input is rejected before any side effect.
pub fn document_long_enough(content: &str) -> (r: bool)
    ensures
        r == (crate::ai::trim_of(content@).len() >= MIN_DOCUMENT_CHARS),
{
    let cs = crate::text::chars_of(content);
    let n = cs.len();
    let ghost s = content@;

    let mut lo: usize = 0;
    while lo < n && crate::text::is_whitespace_char(cs[lo])
        invariant
            lo <= n,
            n == s.len(),
            cs@ == s,
            crate::chunking::scan_run(s, 0, true) == crate::chunking::scan_run(s, lo as int, true),
        decreases n - lo,
    {
        lo = lo + 1;
    }
    proof {
        assert(crate::chunking::scan_run(s, lo as int, true) == lo);
    }
    let mut hi: usize = n;
    while hi > lo && crate::text::is_whitespace_char(cs[hi - 1])
        invariant
            lo <= hi <= n,
            n == s.len(),
            cs@ == s,
            crate::ai::scan_ws_back(s, n as int) == crate::ai::scan_ws_back(s, hi as int),
        decreases hi,
    {
        hi = hi - 1;
    }
    proof {
        crate::ai::lemma_scan_ws_back_bounds(s, n as int);
        if hi > lo {
            assert(crate::ai::scan_ws_back(s, hi as int) == hi);
        } else {
            crate::ai::lemma_scan_ws_back_bounds(s, lo as int);
        }
    }
    hi - lo >= MIN_DOCUMENT_CHARS
}

/// The ingestion orchestrator. It owns no state: the repository, the AI
/// oracle, the id source and the progress sink are injected per call.
pub struct IngestionService {}

impl IngestionService {
    /// A new orchestrator.
    pub fn new() -> (r: IngestionService) {
        IngestionService {}
    }

    /// Splits text into word-safe segments within the chunk budget; the
    /// segments concatenate back to the input exactly.
    pub fn split_text_into_chunks(&self, text: &str) -> (r: Vec<String>)
        ensures
            r.deep_view() == spec_split(text@),
    {
        split_into_segments(text)
    }

    /// Ingests a document: chunks it, then for every chunk requests an
    /// embedding (a failure skips the chunk), persists the chunk (a failure
    /// aborts), requests an extraction (a failure skips the enrichment), and
    /// persists the extraction (a failure aborts). Progress is reported on
    /// `sink`; the returned id names the document group. Where a vector
    /// index was created, the oracle's embedding dimension must agree with
    /// it: a mismatch is a caller error, never silently stored.
    pub fn ingest_with_progress<R: KGRepository, A: AIService, G: IdGenerator, S: ProgressSink>(
        &self,
        content: &str,
        repo: &mut R,
        ai: &mut A,
        ids: &mut G,
        sink: &mut S,
    ) -> (r: Result<String, AppError>)
        requires
            old(repo).graph().index_dim matches Some(d) ==> old(ai).config().embedding_dim == d,
        ensures
            final(ai).config() == old(ai).config(),
            exists|trs: Seq<ChunkTrace>|
                #[trigger] ingest_post(
                    trs,
                    content@,
                    old(repo).graph(),
                    old(sink).log(),
                    final(repo).graph(),
                    final(sink).log(),
                    result_view(r),
                ),
    {
        let chunks = self.split_text_into_chunks(content);
        let total = chunks.len();
        let doc_group_id = ids.fresh_id();

        let ghost texts = spec_split(content@);
        let mut opening = String::from_str("🔪 Documento largo detectado. Dividido en ");
        push_dec_u64(&mut opening, total as u64);
        opening.append(" fragmentos.");
        proof {
            assert(opening@ =~= msg_split(texts.len()));
        }
        sink.send(opening);

        let ghost st0 = ingest_start(old(repo).graph(), old(sink).log(), texts.len());
        let ghost mut trs: Seq<ChunkTrace> = Seq::empty();
        let mut index: usize = 0;
        proof {
            assert(st0.log =~= sink.log());
        }
        while index < total
            invariant
                index <= total,
                total == texts.len(),
                texts == spec_split(content@),
                chunks.deep_view() == texts,
                st0 == ingest_start(old(repo).graph(), old(sink).log(), texts.len()),
                trs.len() == index,
                trace_wf(trs),
                ingest_run(st0, texts, trs) == (IngestState {
                    store: repo.graph(),
                    log: sink.log(),
                    failure: None,
                }),
                repo.graph().index_dim == old(repo).graph().index_dim,
                old(repo).graph().index_dim matches Some(d) ==> old(ai).config().embedding_dim
                    == d,
                ai.config() == old(ai).config(),
            decreases total - index,
        {
            let ghost pre = ingest_run(st0, texts, trs);
            let step64 = (index as u64) + 1;
            let chunk_id = ids.fresh_id();
            let ghost step_n = (index + 1) as nat;

            sink.send(
                build_step_msg("🧠 [", step64, total as u64, "] Generando Embeddings..."),
            );
            proof {
                assert(sink.log() =~= pre.log.push(msg_embed(step_n, texts.len())));
            }

            match ai.generate_embedding(chunks[index].as_str()) {
                Err(e) => {
                    let mut warn = String::from_str("⚠️ Error embedding chunk ");
                    push_dec_u64(&mut warn, step64);
                    warn.append(": ");
                    let m = e.message();
                    warn.append(m.as_str());
                    warn.append(". Saltando...");
                    proof {
                        assert(warn@ =~= msg_embed_err(step_n, e@));
                    }
                    sink.send(warn);
                    proof {
                        let entry = ChunkTrace {
                            id: chunk_id@,
                            embedding: Err(e@),
                            chunk_save: Ok(()),
                            extraction: Err(ErrorView::Ai(Seq::empty())),
                            graph_save: Ok(()),
                        };
                        let prev = trs;
                        trs = prev.push(entry);
                        assert(trs.drop_last() =~= prev);
                        assert(trs.last() == entry);
                        assert(ingest_run(st0, texts, trs) == ingest_chunk_step(
                            pre,
                            texts[index as int],
                            entry,
                            step_n,
                            texts.len() as nat,
                        ));
                        assert(ingest_run(st0, texts, trs) =~= (IngestState {
                            store: repo.graph(),
                            log: sink.log(),
                            failure: None,
                        }));
                    }
                },
                Ok(embedding) => {
                    proof {
                        match repo.graph().index_dim {
                            Some(d) => {
                                assert(old(ai).config().embedding_dim == d);
                                assert(embedding@.len() == d);
                            },
                            None => {},
                        }
                    }
                    match repo.save_chunk(&chunk_id, &chunks[index], &embedding) {
                        Err(e) => {
                            proof {
                                let entry = ChunkTrace {
                                    id: chunk_id@,
                                    embedding: Ok(embedding@),
                                    chunk_save: Err(e@),
                                    extraction: Err(ErrorView::Ai(Seq::empty())),
                                    graph_save: Ok(()),
                                };
                                let prev = trs;
                                trs = prev.push(entry);
                                assert(trs.drop_last() =~= prev);
                                assert(trs.last() == entry);
                                assert(ingest_run(st0, texts, trs) == ingest_chunk_step(
                                    pre,
                                    texts[index as int],
                                    entry,
                                    step_n,
                                    texts.len() as nat,
                                ));
                                assert(ingest_post(
                                    trs,
                                    content@,
                                    old(repo).graph(),
                                    old(sink).log(),
                                    repo.graph(),
                                    sink.log(),
                                    Err(e@),
                                ));
                            }
                            return Err(e);
                        },
                        Ok(_) => {
                            let ghost st_saved = save_chunk_t(
                                pre.store,
                                chunk_id@,
                                texts[index as int],
                                embedding@,
                            );
                            sink.send(
                                build_step_msg(
                                    "🕵️ [",
                                    step64,
                                    total as u64,
                                    "] Extrayendo conocimiento...",
                                ),
                            );
                            match ai.extract_knowledge(chunks[index].as_str()) {
                                Err(e) => {
                                    let mut warn = String::from_str(
                                        "⚠️ Error extrayendo entidades en parte ",
                                    );
                                    push_dec_u64(&mut warn, step64);
                                    warn.append(": ");
                                    let m = e.message();
                                    warn.append(m.as_str());
                                    proof {
                                        assert(warn@ =~= msg_extract_err(step_n, e@));
                                    }
                                    sink.send(warn);
                                    proof {
                                        let entry = ChunkTrace {
                                            id: chunk_id@,
                                            embedding: Ok(embedding@),
                                            chunk_save: Ok(()),
                                            extraction: Err(e@),
                                            graph_save: Ok(()),
                                        };
                                        let prev = trs;
                                        trs = prev.push(entry);
                                        assert(trs.drop_last() =~= prev);
                                        assert(trs.last() == entry);
                                        assert(ingest_run(st0, texts, trs) == ingest_chunk_step(
                                            pre,
                                            texts[index as int],
                                            entry,
                                            step_n,
                                            texts.len() as nat,
                                        ));
                                        assert(ingest_run(st0, texts, trs) =~= (IngestState {
                                            store: repo.graph(),
                                            log: sink.log(),
                                            failure: None,
                                        }));
                                    }
                                },
                                Ok(extraction) => {
                                    let count = extraction.entities.len();
                                    let mut connect = build_step_msg(
                                        "🕸️ [",
                                        step64,
                                        total as u64,
                                        "] Conectando ",
                                    );
                                    push_dec_u64(&mut connect, count as u64);
                                    connect.append(" entidades al grafo...");
                                    proof {
                                        assert(connect@ =~= msg_connect(
                                            step_n,
                                            texts.len() as nat,
                                            extraction@.entities.len(),
                                        ));
                                    }
                                    sink.send(connect);
                                    match repo.save_graph(&chunk_id, &extraction) {
                                        Err(e) => {
                                            proof {
                                                let entry = ChunkTrace {
                                                    id: chunk_id@,
                                                    embedding: Ok(embedding@),
                                                    chunk_save: Ok(()),
                                                    extraction: Ok(extraction@),
                                                    graph_save: Err(e@),
                                                };
                                                let prev = trs;
                                                trs = prev.push(entry);
                                                assert(trs.drop_last() =~= prev);
                                                assert(trs.last() == entry);
                                                assert(ingest_run(st0, texts, trs)
                                                    == ingest_chunk_step(
                                                    pre,
                                                    texts[index as int],
                                                    entry,
                                                    step_n,
                                                    texts.len() as nat,
                                                ));
                                                assert(ingest_post(
                                                    trs,
                                                    content@,
                                                    old(repo).graph(),
                                                    old(sink).log(),
                                                    repo.graph(),
                                                    sink.log(),
                                                    Err(e@),
                                                ));
                                            }
                                            return Err(e);
                                        },
                                        Ok(_) => {
                                            proof {
                                                let entry = ChunkTrace {
                                                    id: chunk_id@,
                                                    embedding: Ok(embedding@),
                                                    chunk_save: Ok(()),
                                                    extraction: Ok(extraction@),
                                                    graph_save: Ok(()),
                                                };
                                                let prev = trs;
                                                trs = prev.push(entry);
                                                assert(trs.drop_last() =~= prev);
                                                assert(trs.last() == entry);
                                                assert(ingest_run(st0, texts, trs)
                                                    == ingest_chunk_step(
                                                    pre,
                                                    texts[index as int],
                                                    entry,
                                                    step_n,
                                                    texts.len() as nat,
                                                ));
                                                assert(ingest_run(st0, texts, trs)
                                                    =~= (IngestState {
                                                    store: repo.graph(),
                                                    log: sink.log(),
                                                    failure: None,
                                                }));
                                            }
                                        },
                                    }
                                },
                            }
                        },
                    }
                },
            }
            index = index + 1;
        }

        let closing = String::from_str("✅ ¡Todo el documento ha sido procesado!");
        sink.send(closing);
        proof {
            assert(final(sink).log() =~= ingest_run(st0, texts, trs).log.push(msg_processed()));
            assert(ingest_post(
                trs,
                content@,
                old(repo).graph(),
                old(sink).log(),
                repo.graph(),
                sink.log(),
                Ok(doc_group_id@),
            ));
        }
        Ok(doc_group_id)
    }

    /// Runs one ingestion job to its observable end: the whole ingestion of
    /// [`Self::ingest_with_progress`], then the stream closed with the
    /// `DONE` sentinel on success or a labelled critical-error line on a
    /// fatal failure. The interpreter postcondition carries over: up to that
    /// closing line, the final store, log and result are exactly the
    /// interpreter's outcome for some well-formed oracle trace.
    pub fn ingest_job<R: KGRepository, A: AIService, G: IdGenerator, S: ProgressSink>(
        &self,
        content: &str,
        repo: &mut R,
        ai: &mut A,
        ids: &mut G,
        sink: &mut S,
    ) -> (r: Result<String, AppError>)
        requires
            old(repo).graph().index_dim matches Some(d) ==> old(ai).config().embedding_dim == d,
        ensures
            final(ai).config() == old(ai).config(),
            final(sink).log().len() > 0,
            exists|trs: Seq<ChunkTrace>|
                #[trigger] ingest_post(
                    trs,
                    content@,
                    old(repo).graph(),
                    old(sink).log(),
                    final(repo).graph(),
                    final(sink).log().drop_last(),
                    result_view(r),
                ),
            match r {
                Ok(_) => final(sink).log().last() == "DONE"@,
                Err(e) => final(sink).log().last() == "❌ Error Crítico en Ingesta: "@
                    + spec_message(e@),
            },
    {
        let inner = self.ingest_with_progress(content, repo, ai, ids, sink);
        let ghost mid_graph = repo.graph();
        let ghost mid_log = sink.log();
        let r = match inner {
            Ok(gid) => {
                sink.send(String::from_str("DONE"));
                Ok(gid)
            },
            Err(e) => {
                let mut line = String::from_str("❌ Error Crítico en Ingesta: ");
                let m = e.message();
                line.append(m.as_str());
                sink.send(line);
                Err(e)
            },
        };
        proof {
            let trs = choose|trs: Seq<ChunkTrace>|
                #[trigger] ingest_post(
                    trs,
                    content@,
                    old(repo).graph(),
                    old(sink).log(),
                    mid_graph,
                    mid_log,
                    result_view(r),
                );
            assert(sink.log().drop_last() =~= mid_log);
            assert(ingest_post(
                trs,
                content@,
                old(repo).graph(),
                old(sink).log(),
                repo.graph(),
                sink.log().drop_last(),
                result_view(r),
            ));
        }
        r
    }
}

// ---------------------------------------------------------------------------
// The partial-failure policy, proved
// ---------------------------------------------------------------------------

/// How many chunks of the trace embedded successfully.
pub open spec fn count_embedded(trs: Seq<ChunkTrace>) -> int
    decreases trs.len(),
{
    if trs.len() == 0 {
        0
    } else {
        count_embedded(trs.drop_last()) + if trs.last().embedding is Ok {
            1int
        } else {
            0int
        }
    }
}

/// The chunk records a trace stores: one per successful embedding, in
/// document order, skipping exactly the chunks whose embedding failed.
pub open spec fn persisted_chunks(texts: Seq<Seq<char>>, trs: Seq<ChunkTrace>) -> Seq<
    crate::graph::ChunkView,
>
    decreases trs.len(),
{
    if trs.len() == 0 {
        Seq::empty()
    } else {
        let r = persisted_chunks(texts, trs.drop_last());
        match trs.last().embedding {
            Ok(emb) => r.push(
                crate::graph::ChunkView {
                    id: trs.last().id,
                    text: texts[trs.len() - 1],
                    embedding: emb,
                },
            ),
            Err(_) => r,
        }
    }
}

pub proof fn lemma_persisted_chunks_count(texts: Seq<Seq<char>>, trs: Seq<ChunkTrace>)
    ensures
        persisted_chunks(texts, trs).len() == count_embedded(trs),
    decreases trs.len(),
{
    if trs.len() > 0 {
        lemma_persisted_chunks_count(texts, trs.drop_last());
    }
}

/// While storage never fails, an ingestion never aborts, and it appends
/// exactly one chunk record — its own id, text and embedding, in document
/// order — for every successful embedding.
pub proof fn lemma_ingestion_persists_embedded(
    start: IngestState,
    texts: Seq<Seq<char>>,
    trs: Seq<ChunkTrace>,
)
    requires
        start.failure is None,
        forall|j: int|
            0 <= j < trs.len() ==> (#[trigger] trs[j]).chunk_save is Ok && trs[j].graph_save is Ok,
    ensures
        ingest_run(start, texts, trs).failure is None,
        ingest_run(start, texts, trs).store.chunks == start.store.chunks + persisted_chunks(
            texts,
            trs,
        ),
        ingest_run(start, texts, trs).store.chunks.len() == start.store.chunks.len()
            + count_embedded(trs),
    decreases trs.len(),
{
    lemma_persisted_chunks_count(texts, trs);
    if trs.len() == 0 {
        assert(start.store.chunks + persisted_chunks(texts, trs) =~= start.store.chunks);
    } else {
        lemma_ingestion_persists_embedded(start, texts, trs.drop_last());
        let prev = ingest_run(start, texts, trs.drop_last());
        match trs.last().embedding {
            Ok(emb) => {
                assert(prev.store.chunks.push(
                    crate::graph::ChunkView {
                        id: trs.last().id,
                        text: texts[trs.len() - 1],
                        embedding: emb,
                    },
                ) =~= start.store.chunks + persisted_chunks(texts, trs));
            },
            Err(_) => {
                assert(start.store.chunks + persisted_chunks(texts, trs) =~= start.store.chunks
                    + persisted_chunks(texts, trs.drop_last()));
            },
        }
    }
}

/// Exactly one failed embedding among `n` chunks persists `n - 1` chunks:
/// the failed chunk is skipped — neither stored nor enriched — and every
/// other chunk's record is stored, in document order.
pub proof fn lemma_ingestion_skips_failed_embedding(
    start: IngestState,
    texts: Seq<Seq<char>>,
    trs: Seq<ChunkTrace>,
    k: int,
)
    requires
        start.failure is None,
        trs.len() == texts.len(),
        0 <= k < trs.len(),
        trs[k].embedding is Err,
        forall|j: int| 0 <= j < trs.len() && j != k ==> (#[trigger] trs[j]).embedding is Ok,
        forall|j: int|
            0 <= j < trs.len() ==> (#[trigger] trs[j]).chunk_save is Ok && trs[j].graph_save is Ok,
    ensures
        ingest_run(start, texts, trs).failure is None,
        ingest_run(start, texts, trs).store.chunks == start.store.chunks + persisted_chunks(
            texts,
            trs,
        ),
        ingest_run(start, texts, trs).store.chunks.len() == start.store.chunks.len() + texts.len()
            - 1,
{
    lemma_ingestion_persists_embedded(start, texts, trs);
    lemma_count_embedded_one_failure(trs, k);
}

proof fn lemma_count_embedded_one_failure(trs: Seq<ChunkTrace>, k: int)
    requires
        0 <= k < trs.len(),
        trs[k].embedding is Err,
        forall|j: int| 0 <= j < trs.len() && j != k ==> (#[trigger] trs[j]).embedding is Ok,
    ensures
        count_embedded(trs) == trs.len() - 1,
    decreases trs.len(),
{
    if trs.len() - 1 == k {
        lemma_count_embedded_all_ok(trs.drop_last());
    } else {
        lemma_count_embedded_one_failure(trs.drop_last(), k);
    }
}

proof fn lemma_count_embedded_all_ok(trs: Seq<ChunkTrace>)
    requires
        forall|j: int| 0 <= j < trs.len() ==> (#[trigger] trs[j]).embedding is Ok,
    ensures
        count_embedded(trs) == trs.len(),
    decreases trs.len(),
{
    if trs.len() > 0 {
        lemma_count_embedded_all_ok(trs.drop_last());
    }
}

/// When every call succeeds, every chunk is persisted: one record per
/// chunk, in document order.
pub proof fn lemma_ingestion_all_ok(start: IngestState, texts: Seq<Seq<char>>, trs: Seq<ChunkTrace>)
    requires
        start.failure is None,
        forall|j: int|
            0 <= j < trs.len() ==> (#[trigger] trs[j]).embedding is Ok && trs[j].chunk_save is Ok
                && trs[j].graph_save is Ok,
    ensures
        ingest_run(start, texts, trs).failure is None,
        ingest_run(start, texts, trs).store.chunks == start.store.chunks + persisted_chunks(
            texts,
            trs,
        ),
        ingest_run(start, texts, trs).store.chunks.len() == start.store.chunks.len() + trs.len(),
{
    lemma_ingestion_persists_embedded(start, texts, trs);
    lemma_count_embedded_all_ok(trs);
}

/// A storage failure while persisting a chunk's extraction aborts the run at
/// that chunk: the failure is reported, the chunk itself (already durably
/// stored) is the last record appended, and no later chunk is processed.
pub proof fn lemma_ingestion_aborts_on_graph_save(
    start: IngestState,
    texts: Seq<Seq<char>>,
    trs: Seq<ChunkTrace>,
    e: ErrorView,
)
    requires
        trs.len() >= 1,
        ingest_run(start, texts, trs.drop_last()).failure is None,
        trs.last().embedding is Ok,
        trs.last().chunk_save is Ok,
        trs.last().extraction is Ok,
        trs.last().graph_save == Err::<(), ErrorView>(e),
    ensures
        ingest_run(start, texts, trs).failure == Some(e),
        trs.last().embedding matches Ok(emb) ==> ingest_run(start, texts, trs).store.chunks
            == ingest_run(start, texts, trs.drop_last()).store.chunks.push(
            crate::graph::ChunkView {
                id: trs.last().id,
                text: texts[trs.len() - 1],
                embedding: emb,
            },
        ),
        ingest_run(start, texts, trs).store.chunks.len() == ingest_run(
            start,
            texts,
            trs.drop_last(),
        ).store.chunks.len() + 1,
{
}

} // verus!
