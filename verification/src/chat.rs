//! The conversational-query prompt: turning hybrid-retrieval matches into
//! the grounded system prompt and the human-readable reference list.

use vstd::prelude::*;

use crate::models::HybridContext;
use crate::models::HybridContextView;

verus! {

use vstd::string::StrSliceExecFns;
use vstd::string::StringExecFns;

/// The first `i` parts joined with `", "`.
pub open spec fn joined_upto(parts: Seq<Seq<char>>, i: int) -> Seq<char>
    decreases i,
{
    if i <= 0 {
        Seq::empty()
    } else if i == 1 {
        parts[0]
    } else {
        joined_upto(parts, i - 1) + ", "@ + parts[i - 1]
    }
}

/// The parts joined with `", "`.
pub open spec fn join_names(parts: Seq<Seq<char>>) -> Seq<char> {
    joined_upto(parts, parts.len() as int)
}

/// Joins the names with `", "`.
pub fn join_strings(parts: &Vec<String>) -> (r: String)
    ensures
        r@ == join_names(parts.deep_view()),
{
    let mut out = String::new();
    let mut i: usize = 0;
    while i < parts.len()
        invariant
            i <= parts@.len(),
            out@ == joined_upto(parts.deep_view(), i as int),
        decreases parts@.len() - i,
    {
        if i > 0 {
            out.append(", ");
        }
        out.append(parts[i].as_str());
        proof {
            assert(out@ =~= joined_upto(parts.deep_view(), i + 1));
        }
        i = i + 1;
    }
    out
}

/// A chunk id shortened to its first eight characters for a citation.
pub open spec fn short_id(id: Seq<char>) -> Seq<char> {
    if id.len() > 8 {
        id.subrange(0, 8)
    } else {
        id
    }
}

/// One retrieved fragment rendered into the prompt context.
pub open spec fn fragment_text(ctx: HybridContextView) -> Seq<char> {
    "FRAGMENTO [ID: "@ + ctx.chunk_id + "]\nCONTENIDO: "@ + ctx.content + "\nCONCEPTOS: ["@
        + join_names(ctx.connected_entities) + "]\n---\n"@
}

/// The first `i` fragments rendered in order.
pub open spec fn context_text_upto(ctxs: Seq<HybridContextView>, i: int) -> Seq<char>
    decreases i,
{
    if i <= 0 {
        Seq::empty()
    } else {
        context_text_upto(ctxs, i - 1) + fragment_text(ctxs[i - 1])
    }
}

/// The whole rendered context block.
pub open spec fn context_text_of(ctxs: Seq<HybridContextView>) -> Seq<char> {
    context_text_upto(ctxs, ctxs.len() as int)
}

/// One citation line for a retrieved fragment.
pub open spec fn reference_line(ctx: HybridContextView) -> Seq<char> {
    "Fragmento "@ + short_id(ctx.chunk_id) + " (Conceptos: "@ + join_names(
        ctx.connected_entities,
    ) + ")"@
}

/// The citation lines, in retrieval order.
pub open spec fn references_of(ctxs: Seq<HybridContextView>) -> Seq<Seq<char>> {
    ctxs.map_values(|c: HybridContextView| reference_line(c))
}

/// The grounded system prompt around a rendered context block.
pub open spec fn chat_system_prompt(context_text: Seq<char>) -> Seq<char> {
    "Eres 'La Muralla'. Responde a la pregunta basándote SOLO en el contexto.\nReglas:\n1. Usa [[Concepto]] para entidades del grafo.\n2. Cita fuentes como (Ref: ID_FRAGMENTO).\n3. Sé conciso.\n\nCONTEXTO:\n"@
        + context_text
}

/// Renders the retrieved fragments into the grounded system prompt and the
/// citation list that backs the answer.
pub fn build_chat_prompt(contexts: &Vec<HybridContext>) -> (r: (String, Vec<String>))
    ensures
        r.0@ == chat_system_prompt(context_text_of(contexts.deep_view())),
        r.1.deep_view() == references_of(contexts.deep_view()),
{
    let mut context_text = String::new();
    let mut references: Vec<String> = Vec::new();
    let mut i: usize = 0;
    proof {
        assert(references.deep_view() =~= Seq::<Seq<char>>::empty());
        assert(references.deep_view() =~= references_of(contexts.deep_view().take(0)));
    }
    while i < contexts.len()
        invariant
            i <= contexts@.len(),
            context_text@ == context_text_upto(contexts.deep_view(), i as int),
            references.deep_view() == references_of(contexts.deep_view().take(i as int)),
        decreases contexts@.len() - i,
    {
        let ctx = &contexts[i];
        let entity_list = join_strings(&ctx.connected_entities);

        context_text.append("FRAGMENTO [ID: ");
        context_text.append(ctx.chunk_id.as_str());
        context_text.append("]\nCONTENIDO: ");
        context_text.append(ctx.content.as_str());
        context_text.append("\nCONCEPTOS: [");
        context_text.append(entity_list.as_str());
        context_text.append("]\n---\n");
        proof {
            assert(context_text@ =~= context_text_upto(contexts.deep_view(), i + 1));
        }

        let mut line = String::from_str("Fragmento ");
        if ctx.chunk_id.as_str().unicode_len() > 8 {
            let head = ctx.chunk_id.as_str().substring_char(0, 8);
            line.append(head);
        } else {
            line.append(ctx.chunk_id.as_str());
        }
        line.append(" (Conceptos: ");
        line.append(entity_list.as_str());
        line.append(")");
        proof {
            assert(line@ =~= reference_line(contexts.deep_view()[i as int]));
        }
        references.push(line);
        proof {
            assert(references.deep_view() =~= references_of(
                contexts.deep_view().take(i as int),
            ).push(reference_line(contexts.deep_view()[i as int])));
            assert(references_of(contexts.deep_view().take(i + 1)) =~= references_of(
                contexts.deep_view().take(i as int),
            ).push(reference_line(contexts.deep_view()[i as int])));
        }
        i = i + 1;
    }
    proof {
        assert(contexts.deep_view().take(contexts@.len() as int) =~= contexts.deep_view());
    }
    let mut prompt = String::from_str(
        "Eres 'La Muralla'. Responde a la pregunta basándote SOLO en el contexto.\nReglas:\n1. Usa [[Concepto]] para entidades del grafo.\n2. Cita fuentes como (Ref: ID_FRAGMENTO).\n3. Sé conciso.\n\nCONTEXTO:\n",
    );
    prompt.append(context_text.as_str());
    (prompt, references)
}

} // verus!
