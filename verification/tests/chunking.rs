use lamuralla::ingestion::IngestionService;

fn reassemble(parts: &[String]) -> String {
    let mut out = String::new();
    for p in parts {
        out.push_str(p);
    }
    out
}

#[test]
fn short_text_is_one_segment() {
    let service = IngestionService::new();
    let parts = service.split_text_into_chunks("hello world");
    assert_eq!(parts, vec!["hello world".to_string()]);
}

#[test]
fn empty_text_yields_no_segments() {
    let service = IngestionService::new();
    let parts = service.split_text_into_chunks("");
    assert!(parts.is_empty());
}

#[test]
fn segments_concatenate_to_input() {
    let service = IngestionService::new();
    let text = "uno dos tres  cuatro\ncinco\t seis ".repeat(2000);
    let parts = service.split_text_into_chunks(&text);
    assert_eq!(reassemble(&parts), text);
    for p in &parts {
        assert!(!p.is_empty());
    }
}

#[test]
fn segments_respect_the_budget() {
    let service = IngestionService::new();
    let text = "abcdefghi ".repeat(6000);
    let parts = service.split_text_into_chunks(&text);
    assert_eq!(reassemble(&parts), text);
    for p in &parts {
        assert!(p.chars().count() <= 24000);
    }
}

#[test]
fn an_oversized_token_is_never_split() {
    let service = IngestionService::new();
    let giant = "x".repeat(30000);
    let text = format!("small {} tail", giant);
    let parts = service.split_text_into_chunks(&text);
    assert_eq!(reassemble(&parts), text);
    // The giant token stands in a segment of its own.
    assert!(parts.iter().any(|p| p.chars().count() > 24000));
    for p in &parts {
        if p.chars().count() > 24000 {
            assert!(p.starts_with('x'));
        }
    }
}

#[test]
fn fifty_thousand_characters_make_three_segments() {
    let service = IngestionService::new();
    let text = "abcdefghi ".repeat(5000);
    assert_eq!(text.chars().count(), 50000);
    let parts = service.split_text_into_chunks(&text);
    assert_eq!(parts.len(), 3);
    for p in &parts {
        assert!(p.chars().count() <= 24000);
    }
    assert_eq!(reassemble(&parts), text);
}
