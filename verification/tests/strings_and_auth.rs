use lamuralla::ai::RigAIService;
use lamuralla::auth::AuthPayload;
use lamuralla::auth::check_credentials;
use lamuralla::auth::cookie_grants_access;
use lamuralla::auth::session_cookie_value;
use lamuralla::chat::build_chat_prompt;
use lamuralla::errors::AppError;
use lamuralla::formats::DocumentFormat;
use lamuralla::formats::classify_format;
use lamuralla::graph::normalize_relation_type;
use lamuralla::models::AIConfig;
use lamuralla::models::AIProvider;
use lamuralla::models::HybridContext;
use lamuralla::ports::IdGenerator;
use lamuralla::providers::SequentialIdGen;
use lamuralla::providers::UuidIdGen;
use lamuralla::text::str_contains;
use lamuralla::text::u64_to_string;

fn config() -> AIConfig {
    AIConfig {
        provider: AIProvider::Ollama,
        model_name: "llama3".to_string(),
        embedding_model: "nomic-embed-text".to_string(),
        api_key: "test-key".to_string(),
        embedding_dim: 768,
        base_url: Some("http://localhost:11434/v1".to_string()),
    }
}

#[test]
fn relation_normalization_is_deterministic() {
    assert_eq!(normalize_relation_type("same as"), "SAME_AS");
    assert_eq!(normalize_relation_type("lleva a"), "LLEVA_A");
    assert_eq!(normalize_relation_type("CAUSA"), "CAUSA");
    assert_eq!(normalize_relation_type("is\ta\nfriend of"), "IS_A_FRIEND_OF");
    assert_eq!(normalize_relation_type(""), "");
}

#[test]
fn cleaning_strips_fences_and_whitespace() {
    let svc = RigAIService::new(config());
    assert_eq!(svc.clean_json_response("  {\"a\": 1}  "), "{\"a\": 1}");
    assert_eq!(svc.clean_json_response("```json\n{\"a\": 1}\n```"), "\n{\"a\": 1}\n");
    assert_eq!(svc.clean_json_response("```{\"a\": 1}```"), "{\"a\": 1}");
    assert_eq!(svc.clean_json_response("``````"), "");
    assert_eq!(svc.clean_json_response("plain"), "plain");
}

#[test]
fn the_config_cell_swaps_whole_values() {
    let mut svc = RigAIService::new(config());
    let before = svc.get_config();
    assert_eq!(before.model_name, "llama3");
    assert_eq!(before.embedding_dim, 768);
    let mut next = config();
    next.provider = AIProvider::Groq;
    next.model_name = "mixtral".to_string();
    next.embedding_dim = 1536;
    svc.update_config(next).unwrap();
    let after = svc.get_config();
    assert_eq!(after.model_name, "mixtral");
    assert_eq!(after.embedding_dim, 1536);
    assert_eq!(after.provider, AIProvider::Groq);
}

#[test]
fn credentials_are_checked_exactly() {
    let good = AuthPayload {
        username: "propileno".to_string(),
        password: "propileno24".to_string(),
    };
    let bad = AuthPayload {
        username: "propileno".to_string(),
        password: "wrong".to_string(),
    };
    assert!(check_credentials(&good));
    assert!(!check_credentials(&bad));
}

#[test]
fn the_session_cookie_guards_access() {
    let cookie = session_cookie_value();
    assert_eq!(
        cookie,
        "lamuralla_auth=valid; Path=/; Max-Age=3600; HttpOnly; SameSite=Strict"
    );
    assert!(cookie_grants_access("other=1; lamuralla_auth=valid; theme=dark"));
    assert!(!cookie_grants_access("other=1; lamuralla_auth=expired"));
    assert!(!cookie_grants_access(""));
}

#[test]
fn filenames_classify_by_extension() {
    assert_eq!(classify_format("informe.pdf"), DocumentFormat::Pdf);
    assert_eq!(classify_format("Informe.PDF"), DocumentFormat::Pdf);
    assert_eq!(classify_format("acta.docx"), DocumentFormat::Docx);
    assert_eq!(classify_format("notas.md"), DocumentFormat::PlainText);
    assert_eq!(classify_format("datos.csv"), DocumentFormat::PlainText);
    assert_eq!(classify_format("datos.json"), DocumentFormat::PlainText);
    assert_eq!(classify_format("texto.txt"), DocumentFormat::PlainText);
    assert_eq!(classify_format("archivo.tar.gz"), DocumentFormat::Unsupported);
    assert_eq!(classify_format("README"), DocumentFormat::Unsupported);
    assert_eq!(classify_format(".bashrc"), DocumentFormat::Unsupported);
}

#[test]
fn error_messages_carry_their_labels() {
    assert_eq!(
        AppError::ValidationError("too short".to_string()).message(),
        "Validation Error: too short"
    );
    assert_eq!(AppError::AIError("down".to_string()).message(), "AI Service Error: down");
    assert_eq!(
        AppError::DatabaseError("unreachable".to_string()).message(),
        "Database Error: unreachable"
    );
    assert_eq!(AppError::ParseError("bad json".to_string()).message(), "Parse Error: bad json");
}

#[test]
fn decimal_rendering_is_exact() {
    assert_eq!(u64_to_string(0), "0");
    assert_eq!(u64_to_string(7), "7");
    assert_eq!(u64_to_string(12345), "12345");
    assert_eq!(u64_to_string(u64::MAX), "18446744073709551615");
}

#[test]
fn substring_search_finds_needles() {
    assert!(str_contains("hello world", "lo wo"));
    assert!(str_contains("hello", ""));
    assert!(!str_contains("hello", "world"));
    assert!(!str_contains("", "x"));
}

#[test]
fn sequential_ids_are_distinct() {
    let mut ids = SequentialIdGen::new();
    let a = ids.fresh_id();
    let b = ids.fresh_id();
    assert_eq!(a, "id-0");
    assert_eq!(b, "id-1");
}

#[test]
fn uuid_ids_have_the_hyphenated_form() {
    let mut ids = UuidIdGen::new();
    let a = ids.fresh_id();
    let b = ids.fresh_id();
    assert_eq!(a.len(), 36);
    assert_eq!(b.len(), 36);
    assert_ne!(a, b);
    assert_eq!(a.matches('-').count(), 4);
}

#[test]
fn the_chat_prompt_cites_its_fragments() {
    let contexts = vec![
        HybridContext {
            chunk_id: "123456789".to_string(),
            content: "Paris is in France".to_string(),
            connected_entities: vec!["Paris".to_string(), "France".to_string()],
        },
        HybridContext {
            chunk_id: "short".to_string(),
            content: "two".to_string(),
            connected_entities: vec!["X".to_string()],
        },
    ];
    let (prompt, references) = build_chat_prompt(&contexts);
    assert!(prompt.starts_with("Eres 'La Muralla'."));
    assert!(prompt.contains("FRAGMENTO [ID: 123456789]\nCONTENIDO: Paris is in France\nCONCEPTOS: [Paris, France]\n---\n"));
    assert!(prompt.contains("FRAGMENTO [ID: short]\nCONTENIDO: two\nCONCEPTOS: [X]\n---\n"));
    assert_eq!(references.len(), 2);
    assert_eq!(references[0], "Fragmento 12345678 (Conceptos: Paris, France)");
    assert_eq!(references[1], "Fragmento short (Conceptos: X)");
}
