use bilbo::error::AppError;
use bilbo::model::{BookSearchResult, ChatMessage, ChatRole, SearchResult};
use bilbo::rag::{
    build_context, build_sources, chat_answer, chat_context, chat_query, check_embedding, last_user_message, rag_messages,
    ChatError, RAG_PREAMBLE,
};
use bilbo::search::{boost_applies, boost_books, distinct_references, hybrid_page, merge_boost};

fn book(reference: &str) -> BookSearchResult {
    BookSearchResult {
        id: 0,
        reference: reference.to_string(),
        title: format!("Title {reference}"),
        authors: vec![],
        tags: vec![],
        editor: None,
        edition_date: None,
        summary: None,
    }
}

fn refs(v: &[BookSearchResult]) -> Vec<String> {
    v.iter().map(|b| b.reference.clone()).collect()
}

fn msg(role: ChatRole, content: &str) -> ChatMessage {
    ChatMessage { role, content: content.to_string(), sources: vec![] }
}

fn hit(reference: &str, title: &str, text: &str) -> SearchResult {
    SearchResult { reference: reference.to_string(), title: title.to_string(), chunk_text: text.to_string() }
}

#[test]
fn merge_deduplicates_by_reference() {
    let merged = merge_boost(vec![book("R1")], vec![book("R1"), book("R2")]);
    assert_eq!(refs(&merged), vec!["R1", "R2"]);
}

#[test]
fn merge_keeps_primary_order_then_semantic_order() {
    let merged = merge_boost(
        vec![book("B"), book("A")],
        vec![book("D"), book("A"), book("C"), book("D")],
    );
    assert_eq!(refs(&merged), vec!["B", "A", "D", "C"]);
}

#[test]
fn boost_skipped_beyond_first_page() {
    let (page, total) = hybrid_page(1, "dragons", true, Ok((vec![book("R1")], 42)), Some(vec![book("R2")])).unwrap();
    assert_eq!(refs(&page), vec!["R1"]);
    assert_eq!(total, 42);
}

#[test]
fn boost_applied_on_first_page() {
    let (page, total) =
        hybrid_page(0, "dragons", true, Ok((vec![book("R1")], 1)), Some(vec![book("R1"), book("R2")])).unwrap();
    assert_eq!(refs(&page), vec!["R1", "R2"]);
    assert_eq!(total, 1);
}

#[test]
fn boost_conditions() {
    assert!(boost_applies(0, "x", true));
    assert!(!boost_applies(0, "  ", true));
    assert!(!boost_applies(0, "x", false));
    assert!(!boost_applies(2, "x", true));
    let (page, _) = hybrid_page(0, "x", true, Ok((vec![book("R1")], 1)), None).unwrap();
    assert_eq!(refs(&page), vec!["R1"]);
    let failed = hybrid_page(0, "x", true, Err("database error".to_string()), Some(vec![book("R2")]));
    assert_eq!(failed.err(), Some("database error".to_string()));
}

#[test]
fn distinct_references_in_first_order() {
    let hits = vec![hit("R2", "", ""), hit("R1", "", ""), hit("R2", "", "")];
    assert_eq!(distinct_references(&hits), vec!["R2", "R1"]);
}

#[test]
fn rag_empty_history_has_no_user_message() {
    assert!(matches!(chat_query(&[], true), Err(ChatError::NoUserMessage)));
    let only_assistant = vec![msg(ChatRole::Assistant, "hi")];
    assert!(matches!(chat_query(&only_assistant, true), Err(ChatError::NoUserMessage)));
}

#[test]
fn rag_needs_a_provider() {
    let history = vec![msg(ChatRole::User, "q")];
    assert!(matches!(chat_query(&history, false), Err(ChatError::EmbeddingUnavailable)));
}

#[test]
fn rag_uses_last_user_message() {
    let history = vec![
        msg(ChatRole::User, "first"),
        msg(ChatRole::Assistant, "answer"),
        msg(ChatRole::User, "second"),
        msg(ChatRole::Assistant, "again"),
    ];
    assert_eq!(last_user_message(&history), Some(2));
    match chat_query(&history, true) {
        Ok(q) => assert_eq!(q, "second"),
        Err(_) => panic!("expected a query"),
    }
}

#[test]
fn rag_context_block_is_numbered() {
    let hits = vec![hit("R1", "Book One", "alpha"), hit("R2", "Book Two", "beta")];
    assert_eq!(
        build_context(&hits),
        "[Source 1: Book One - R1]\nalpha\n[Source 2: Book Two - R2]\nbeta\n"
    );
    assert_eq!(build_context(&[]), "");
}

#[test]
fn rag_citations_truncate_to_200_characters() {
    let long: String = std::iter::repeat('é').take(250).collect();
    let sources = build_sources(&[hit("R1", "T", &long), hit("R2", "U", "short")]);
    assert_eq!(sources.len(), 2);
    assert_eq!(sources[0].chunk_text.chars().count(), 200);
    assert_eq!(sources[0].reference, "R1");
    assert_eq!(sources[0].title, "T");
    assert_eq!(sources[1].chunk_text, "short");
}

#[test]
fn rag_messages_lead_with_context() {
    let history = vec![msg(ChatRole::User, "q"), msg(ChatRole::Assistant, "a")];
    let m = rag_messages("CTX", &history);
    assert_eq!(m.len(), 3);
    assert_eq!(m[0].0, "system");
    assert_eq!(m[0].1, format!("{RAG_PREAMBLE}CTX"));
    assert!(m[0].1.ends_with("Extraits :\nCTX"));
    assert_eq!(m[1], ("user".to_string(), "q".to_string()));
    assert_eq!(m[2], ("assistant".to_string(), "a".to_string()));
}

#[test]
fn rag_answer_and_generation_failure() {
    let sources = build_sources(&[hit("R1", "T", "x")]);
    match chat_answer(Ok("reply".to_string()), sources) {
        Ok(m) => {
            assert_eq!(m.role, ChatRole::Assistant);
            assert_eq!(m.content, "reply");
            assert_eq!(m.sources.len(), 1);
        }
        Err(_) => panic!("expected an answer"),
    }
    match chat_answer(Err("down".to_string()), vec![]) {
        Err(ChatError::GenerationFailed(e)) => assert_eq!(e, "down"),
        _ => panic!("expected a generation failure"),
    }
}

#[test]
fn app_error_keeps_message() {
    let e = AppError::new("database error: gone".to_string());
    assert_eq!(e.message, "database error: gone");
    assert_eq!(e.to_string(), "database error: gone");
}

#[test]
fn rag_embedding_outcomes() {
    assert!(check_embedding(Ok(1)).is_ok());
    assert!(matches!(check_embedding(Ok(0)), Err(ChatError::EmbeddingFailed(_))));
    match check_embedding(Err("401".to_string())) {
        Err(ChatError::EmbeddingFailed(e)) => assert_eq!(e, "401"),
        _ => panic!("expected an embedding failure"),
    }
}

#[test]
fn rag_search_outcomes() {
    match chat_context(Ok(vec![hit("R1", "T", "text")])) {
        Ok((context, sources)) => {
            assert_eq!(context, "[Source 1: T - R1]\ntext\n");
            assert_eq!(sources.len(), 1);
        }
        Err(_) => panic!("expected a context"),
    }
    match chat_context(Err("index down".to_string())) {
        Err(ChatError::SearchFailed(e)) => assert_eq!(e, "index down"),
        _ => panic!("expected a search failure"),
    }
}

#[test]
fn boost_books_skip_missing() {
    let found = vec![Some(book("R2")), None, Some(book("R5")), None];
    assert_eq!(refs(&boost_books(found)), vec!["R2", "R5"]);
    assert!(boost_books(vec![None]).is_empty());
}
