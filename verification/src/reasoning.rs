//! The reasoning orchestrator: read the graph as ranked text, ask the AI
//! oracle for implicit relations, persist the batch.
//!
//! Any failure — fetching the context, the inference call, or the write —
//! fails the whole operation and leaves the store untouched: there is no
//! partial reasoning result.

use vstd::prelude::*;

use crate::errors::AppError;
use crate::graph::save_inferred_t;
use crate::models::InferredRelation;
use crate::ports::AIService;
use crate::ports::KGRepository;

verus! {

use vstd::string::StringExecFns;

/// How many ranked edges of the graph are offered to the model.
pub const REASONING_CONTEXT_LIMIT: usize = 500;

/// The instruction text placed ahead of the graph context.
pub open spec fn prompt_prefix() -> Seq<char> {
    "Actúa como un Ingeniero de Ontologías Senior y experto en Lógica Difusa.\nAnaliza las siguientes triplas (Entidad -> Relación -> Entidad) extraídas de un grafo:\n\n"@
}

/// The instruction text placed after the graph context: the inference rules,
/// the strict JSON reply format, and the constraints.
pub open spec fn prompt_suffix() -> Seq<char> {
    "\n\nTU OBJETIVO: Descubrir conocimiento implícito (\"Eslabones Perdidos\").\n\nREGLAS DE INFERENCIA:\n1. Transitividad: Si A -> B y B -> C, evalúa si lógicamente A -> C.\n2. Resolución de Entidades: Si \"Dr. Juan\" y \"Juan Perez\" parecen ser la misma persona por contexto, sugiere relación \"SAME_AS\".\n3. Causalidad: Si A \"CAUSA\" B, y B \"IMPLICA\" C, entonces A \"LLEVA_A\" C.\n\nFORMATO DE RESPUESTA (JSON estricto):\n{\n    \"new_relations\": [\n        {\n            \"source\": \"NombreExactoOrigen\",\n            \"target\": \"NombreExactoDestino\",\n            \"relation\": \"TIPO_RELACION_INFERIDA\",\n            \"reasoning\": \"(Confianza: Alta/Media) Explicación breve de por qué dedujiste esto.\"\n        }\n    ]\n}\n\nIMPORTANTE:\n- Solo genera relaciones con una confianza alta.\n- No inventes entidades que no estén en la lista.\n- Si no encuentras nada seguro, devuelve un array vacío.\n"@
}

/// The fixed-structure reasoning prompt around a graph context.
pub open spec fn reasoning_prompt(context: Seq<char>) -> Seq<char> {
    prompt_prefix() + context + prompt_suffix()
}

/// Builds the reasoning prompt around the given graph context.
pub fn build_reasoning_prompt(context: &str) -> (r: String)
    ensures
        r@ == reasoning_prompt(context@),
{
    let mut p = String::from_str(
        "Actúa como un Ingeniero de Ontologías Senior y experto en Lógica Difusa.\nAnaliza las siguientes triplas (Entidad -> Relación -> Entidad) extraídas de un grafo:\n\n",
    );
    p.append(context);
    p.append(
        "\n\nTU OBJETIVO: Descubrir conocimiento implícito (\"Eslabones Perdidos\").\n\nREGLAS DE INFERENCIA:\n1. Transitividad: Si A -> B y B -> C, evalúa si lógicamente A -> C.\n2. Resolución de Entidades: Si \"Dr. Juan\" y \"Juan Perez\" parecen ser la misma persona por contexto, sugiere relación \"SAME_AS\".\n3. Causalidad: Si A \"CAUSA\" B, y B \"IMPLICA\" C, entonces A \"LLEVA_A\" C.\n\nFORMATO DE RESPUESTA (JSON estricto):\n{\n    \"new_relations\": [\n        {\n            \"source\": \"NombreExactoOrigen\",\n            \"target\": \"NombreExactoDestino\",\n            \"relation\": \"TIPO_RELACION_INFERIDA\",\n            \"reasoning\": \"(Confianza: Alta/Media) Explicación breve de por qué dedujiste esto.\"\n        }\n    ]\n}\n\nIMPORTANTE:\n- Solo genera relaciones con una confianza alta.\n- No inventes entidades que no estén en la lista.\n- Si no encuentras nada seguro, devuelve un array vacío.\n",
    );
    p
}

/// The reasoning orchestrator. The repository and the AI oracle are
/// injected per call.
pub struct ReasoningService {}

impl ReasoningService {
    /// A new orchestrator.
    pub fn new() -> (r: ReasoningService) {
        ReasoningService {}
    }

    /// One reasoning pass: pulls the density-ranked graph context, prompts
    /// the oracle for implicit relations, and persists a non-empty batch.
    /// On success the store gains exactly the returned batch (additively,
    /// between existing entities); on any failure the store is untouched.
    pub fn infer_new_knowledge<R: KGRepository, A: AIService>(&self, repo: &mut R, ai: &mut A) -> (r:
        Result<Vec<InferredRelation>, AppError>)
        ensures
            final(ai).config() == old(ai).config(),
            match r {
                Ok(v) => final(repo).graph() == if v@.len() > 0 {
                    save_inferred_t(old(repo).graph(), v.deep_view())
                } else {
                    old(repo).graph()
                },
                Err(_) => final(repo).graph() == old(repo).graph(),
            },
    {
        let graph_context = match repo.get_graph_context_for_reasoning(REASONING_CONTEXT_LIMIT) {
            Ok(c) => c,
            Err(e) => {
                return Err(e);
            },
        };
        let prompt = build_reasoning_prompt(graph_context.as_str());
        let response = match ai.generate_inference(prompt.as_str()) {
            Ok(x) => x,
            Err(e) => {
                return Err(e);
            },
        };
        if response.new_relations.len() > 0 {
            match repo.save_inferred_relations(&response.new_relations) {
                Ok(_) => {},
                Err(e) => {
                    return Err(e);
                },
            }
        }
        Ok(response.new_relations)
    }
}

} // verus!
