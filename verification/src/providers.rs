//! Small verified providers for the capability interfaces.
//!
//! A scripted AI oracle that replays prepared outcomes, a sequential id
//! generator, a UUID-backed id generator, a recording progress sink, and a
//! repository wrapper that injects storage failures on schedule. Together
//! they let the pipeline run — and be tested — without any network.

use vstd::prelude::*;

use crate::errors::AppError;
use crate::graph::GraphView;
use crate::models::AIConfig;
use crate::models::AIConfigView;
use crate::models::Embedding;
use crate::models::GraphDataResponse;
use crate::models::HybridContext;
use crate::models::InferenceResult;
use crate::models::InferredRelation;
use crate::models::KnowledgeExtraction;
use crate::ports::AIService;
use crate::ports::IdGenerator;
use crate::ports::KGRepository;
use crate::ports::ProgressSink;
use crate::text::dec_of;
use crate::text::lemma_dec_of_injective;
use crate::text::lemma_dec_of_len;
use crate::text::push_dec_u64;

verus! {

use vstd::string::StringExecFns;

/// An AI oracle that replays prepared outcomes front to back: embeddings as
/// raw fixed-point vectors (validated on the way out), extractions and
/// inferences as prepared results or error texts. An exhausted script
/// reports an AI error.
pub struct ScriptedAI {
    config: AIConfig,
    embeddings: Vec<Result<Vec<i64>, String>>,
    extractions: Vec<Result<KnowledgeExtraction, String>>,
    inferences: Vec<Result<InferenceResult, String>>,
}

impl ScriptedAI {
    /// A scripted oracle over the given outcome queues.
    pub fn new(
        config: AIConfig,
        embeddings: Vec<Result<Vec<i64>, String>>,
        extractions: Vec<Result<KnowledgeExtraction, String>>,
        inferences: Vec<Result<InferenceResult, String>>,
    ) -> (r: ScriptedAI)
        ensures
            r.config() == config@,
    {
        ScriptedAI { config, embeddings, extractions, inferences }
    }
}

impl AIService for ScriptedAI {
    closed spec fn config(&self) -> AIConfigView {
        self.config@
    }

    fn generate_embedding(&mut self, text: &str) -> (r: Result<Embedding, AppError>) {
        if self.embeddings.len() == 0 {
            return Err(AppError::AIError(String::from_str("embedding script exhausted")));
        }
        match self.embeddings.remove(0) {
            Ok(components) => {
                if components.len() != self.config.embedding_dim {
                    return Err(
                        AppError::AIError(
                            String::from_str("scripted embedding has the wrong dimension"),
                        ),
                    );
                }
                match Embedding::new(components) {
                    Some(e) => Ok(e),
                    None => Err(
                        AppError::AIError(String::from_str("scripted embedding out of bounds")),
                    ),
                }
            },
            Err(msg) => Err(AppError::AIError(msg)),
        }
    }

    fn extract_knowledge(&mut self, text: &str) -> (r: Result<KnowledgeExtraction, AppError>) {
        if self.extractions.len() == 0 {
            return Err(AppError::AIError(String::from_str("extraction script exhausted")));
        }
        match self.extractions.remove(0) {
            Ok(x) => Ok(x),
            Err(msg) => Err(AppError::AIError(msg)),
        }
    }

    fn generate_inference(&mut self, prompt: &str) -> (r: Result<InferenceResult, AppError>) {
        if self.inferences.len() == 0 {
            return Err(AppError::AIError(String::from_str("inference script exhausted")));
        }
        match self.inferences.remove(0) {
            Ok(x) => Ok(x),
            Err(msg) => Err(AppError::AIError(msg)),
        }
    }

    fn update_config(&mut self, config: AIConfig) -> (r: Result<(), AppError>) {
        self.config = config;
        Ok(())
    }

    fn get_config(&self) -> (r: AIConfig) {
        self.config.duplicate()
    }
}

/// The id the sequential generator hands out on its `n`-th call.
pub open spec fn sequential_id(n: nat) -> Seq<char> {
    "id-"@ + dec_of(n)
}

/// Distinct call numbers yield distinct sequential ids.
pub proof fn lemma_sequential_id_injective(a: nat, b: nat)
    requires
        sequential_id(a) == sequential_id(b),
    ensures
        a == b,
{
    reveal_strlit("id-");
    assert(("id-"@ + dec_of(a)).skip(3) =~= dec_of(a));
    assert(("id-"@ + dec_of(b)).skip(3) =~= dec_of(b));
    lemma_dec_of_injective(a, b);
}

/// A deterministic id source: `id-0`, `id-1`, and so on. Every id it hands
/// out below its saturation point is provably fresh: distinct from every id
/// it handed out before. Once the counter saturates it can only repeat its
/// last id, and promises no freshness there.
pub struct SequentialIdGen {
    counter: u64,
    issued: Ghost<Set<Seq<char>>>,
}

impl SequentialIdGen {
    /// How many ids were handed out (while below saturation).
    pub closed spec fn count(&self) -> nat {
        self.counter as nat
    }

    /// The ids handed out so far.
    pub closed spec fn issued_ids(&self) -> Set<Seq<char>> {
        self.issued@
    }

    /// Whether the counter can no longer advance.
    pub open spec fn saturated(&self) -> bool {
        self.count() == u64::MAX as nat
    }

    /// The issued set is exactly the sequential ids below the counter.
    pub closed spec fn wf(&self) -> bool {
        &&& forall|k: nat| k < self.count() ==> self.issued@.contains(#[trigger] sequential_id(k))
        &&& forall|s: Seq<char>|
            #[trigger] self.issued@.contains(s) ==> exists|k: nat|
                k < self.count() && s == sequential_id(k)
    }

    /// A generator starting at zero, with nothing issued.
    pub fn new() -> (r: SequentialIdGen)
        ensures
            r.wf(),
            r.count() == 0,
            r.issued_ids() == Set::<Seq<char>>::empty(),
    {
        let r = SequentialIdGen { counter: 0, issued: Ghost(Set::empty()) };
        proof {
            assert forall|s: Seq<char>| #[trigger] r.issued@.contains(s) implies exists|k: nat|
                k < r.count() && s == sequential_id(k) by {}
        }
        r
    }
}

impl IdGenerator for SequentialIdGen {
    fn fresh_id(&mut self) -> (r: String)
        ensures
            r@ == sequential_id(old(self).count()),
            old(self).wf() ==> final(self).wf(),
            old(self).wf() && !old(self).saturated() ==> {
                &&& !old(self).issued_ids().contains(r@)
                &&& final(self).issued_ids() == old(self).issued_ids().insert(r@)
                &&& final(self).count() == old(self).count() + 1
            },
    {
        let mut s = String::from_str("id-");
        proof {
            reveal_strlit("id-");
            lemma_dec_of_len(self.counter as nat);
        }
        push_dec_u64(&mut s, self.counter);
        proof {
            assert(s@ =~= sequential_id(old(self).count()));
        }
        if self.counter < u64::MAX {
            proof {
                if old(self).wf() {
                    // The new id never occurs among the issued ones.
                    if self.issued@.contains(sequential_id(self.counter as nat)) {
                        let k = choose|k: nat|
                            k < self.counter as nat && sequential_id(self.counter as nat)
                                == #[trigger] sequential_id(k);
                        lemma_sequential_id_injective(k, self.counter as nat);
                    }
                }
                self.issued = Ghost(self.issued@.insert(sequential_id(self.counter as nat)));
            }
            self.counter = self.counter + 1;
            proof {
                if old(self).wf() {
                    assert forall|s2: Seq<char>| #[trigger] self.issued@.contains(s2) implies
                        exists|k: nat| k < self.count() && s2 == sequential_id(k) by {
                        if s2 == sequential_id((self.counter - 1) as nat) {
                            assert(((self.counter - 1) as nat) < self.count());
                        } else {
                            assert(old(self).issued@.contains(s2));
                        }
                    }
                    assert forall|k: nat| k < self.count() implies self.issued@.contains(
                        #[trigger] sequential_id(k),
                    ) by {
                        if k < old(self).count() {
                            assert(old(self).issued@.contains(sequential_id(k)));
                        }
                    }
                }
            }
        }
        s
    }
}

/// Relies on `uuid::Uuid::new_v4` and its `Display` form: a fresh random
/// version-4 UUID rendered as the 36-character hyphenated lowercase string.
/// `new_v4` aborts the process if the operating system's random source
/// fails — a machine-resource failure of the same class as running out of
/// memory, outside this contract.
#[verifier::external_body]
fn random_uuid_string() -> (r: String)
    ensures
        r@.len() == 36,
{
    uuid::Uuid::new_v4().to_string()
}

/// An id source backed by random version-4 UUIDs, as production uses.
/// Collisions are astronomically unlikely but not impossible, so freshness
/// is not stated: no axiom is taken about randomness.
pub struct UuidIdGen {}

impl UuidIdGen {
    /// A UUID-backed generator.
    pub fn new() -> (r: UuidIdGen) {
        UuidIdGen {}
    }
}

impl IdGenerator for UuidIdGen {
    fn fresh_id(&mut self) -> (r: String) {
        random_uuid_string()
    }
}

/// A progress sink that simply records every line.
pub struct RecordingSink {
    lines: Vec<String>,
}

impl RecordingSink {
    /// An empty sink.
    pub fn new() -> (r: RecordingSink)
        ensures
            r.log() == Seq::<Seq<char>>::empty(),
    {
        let r = RecordingSink { lines: Vec::new() };
        proof {
            assert(r.lines.deep_view() =~= Seq::<Seq<char>>::empty());
        }
        r
    }

    /// The lines recorded so far.
    pub fn lines(&self) -> (r: &Vec<String>)
        ensures
            r.deep_view() == self.log(),
    {
        &self.lines
    }
}

impl ProgressSink for RecordingSink {
    closed spec fn log(&self) -> Seq<Seq<char>> {
        self.lines.deep_view()
    }

    fn send(&mut self, msg: String) {
        let ghost prior = self.lines.deep_view();
        let ghost m = msg@;
        self.lines.push(msg);
        proof {
            assert(self.lines.deep_view() =~= prior.push(m));
        }
    }
}

/// A repository wrapper that fails scheduled writes with a database error,
/// leaving the store untouched, and passes everything else through. The two
/// schedules are consumed call by call; an exhausted schedule means the call
/// goes through.
pub struct FaultyRepository<R: KGRepository> {
    inner: R,
    chunk_faults: Vec<bool>,
    graph_faults: Vec<bool>,
}

impl<R: KGRepository> FaultyRepository<R> {
    /// Wraps `inner`, failing the n-th `save_chunk` where `chunk_faults[n]`
    /// and the n-th `save_graph` where `graph_faults[n]`.
    pub fn new(inner: R, chunk_faults: Vec<bool>, graph_faults: Vec<bool>) -> (r: FaultyRepository<
        R,
    >)
        ensures
            r.graph() == inner.graph(),
    {
        FaultyRepository { inner, chunk_faults, graph_faults }
    }

    /// The wrapped store.
    pub fn inner(&self) -> (r: &R)
        ensures
            r.graph() == self.graph(),
    {
        &self.inner
    }
}

impl<R: KGRepository> KGRepository for FaultyRepository<R> {
    closed spec fn graph(&self) -> GraphView {
        self.inner.graph()
    }

    fn create_indexes(&mut self, dim: usize) -> (r: Result<(), AppError>) {
        self.inner.create_indexes(dim)
    }

    fn reset_database(&mut self) -> (r: Result<(), AppError>) {
        self.inner.reset_database()
    }

    fn save_chunk(&mut self, id: &String, content: &String, embedding: &Embedding) -> (r: Result<
        (),
        AppError,
    >) {
        let fail = if self.chunk_faults.len() > 0 {
            self.chunk_faults.remove(0)
        } else {
            false
        };
        if fail {
            Err(AppError::DatabaseError(String::from_str("injected chunk-write failure")))
        } else {
            self.inner.save_chunk(id, content, embedding)
        }
    }

    fn save_graph(&mut self, chunk_id: &String, data: &KnowledgeExtraction) -> (r: Result<
        (),
        AppError,
    >) {
        let fail = if self.graph_faults.len() > 0 {
            self.graph_faults.remove(0)
        } else {
            false
        };
        if fail {
            Err(AppError::DatabaseError(String::from_str("injected graph-write failure")))
        } else {
            self.inner.save_graph(chunk_id, data)
        }
    }

    fn save_inferred_relations(&mut self, relations: &Vec<InferredRelation>) -> (r: Result<
        (),
        AppError,
    >) {
        self.inner.save_inferred_relations(relations)
    }

    fn get_full_graph(&self) -> (r: Result<GraphDataResponse, AppError>) {
        self.inner.get_full_graph()
    }

    fn find_hybrid_context(&self, embedding: &Embedding, limit: usize) -> (r: Result<
        Vec<HybridContext>,
        AppError,
    >) {
        self.inner.find_hybrid_context(embedding, limit)
    }

    fn get_concept_neighborhood(&self, name: &String) -> (r: Result<GraphDataResponse, AppError>) {
        self.inner.get_concept_neighborhood(name)
    }

    fn get_graph_context_for_reasoning(&self, limit: usize) -> (r: Result<String, AppError>) {
        self.inner.get_graph_context_for_reasoning(limit)
    }
}

} // verus!
