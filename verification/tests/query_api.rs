use know::error::KnowError;
use know::qdrant::DocumentChunk;
use know::query::{
    after_search, assemble_context, distinct_sources, empty_kb_message, no_results_message,
    query_gate, QueryGate, SearchVerdict,
};
use know::server::{
    build_completion, chat_begin, chat_on_embed, chat_on_generate, chat_on_info, chat_on_search,
    default_top_k, health_reply, latest_user_text, new_completion_id, status_of, ChatMessage,
    ChatOutcome, ChatStep,
};

fn chunk(content: &str, source: &str) -> DocumentChunk {
    DocumentChunk { id: String::new(), content: content.to_string(), source: source.to_string() }
}

fn msg(role: &str, content: &str) -> ChatMessage {
    ChatMessage { role: role.to_string(), content: content.to_string() }
}

#[test]
fn context_is_assembled_in_rank_order() {
    let chunks = vec![chunk("Alpha", "a.txt"), chunk("Beta", "b.txt")];
    assert_eq!(
        assemble_context(&chunks),
        "[Source: a.txt]\nAlpha\n---\n[Source: b.txt]\nBeta"
    );
}

#[test]
fn sources_are_deduplicated_preserving_order() {
    let chunks = vec![chunk("1", "a.txt"), chunk("2", "b.txt"), chunk("3", "a.txt")];
    assert_eq!(distinct_sources(&chunks), vec!["a.txt".to_string(), "b.txt".to_string()]);
}

#[test]
fn gate_rejects_empty_or_absent_collection() {
    assert!(matches!(query_gate(None), QueryGate::EmptyKnowledgeBase));
    assert!(matches!(query_gate(Some(0)), QueryGate::EmptyKnowledgeBase));
    assert!(matches!(query_gate(Some(5)), QueryGate::Proceed));
    assert_eq!(empty_kb_message(), "Knowledge base is empty. Run 'know ingest <path>' first.");
    assert_eq!(no_results_message(), "No relevant documents found.");
}

#[test]
fn search_verdict_short_circuits_on_zero_results() {
    assert!(matches!(after_search(&vec![]), SearchVerdict::NoRelevantDocuments));
    let results = vec![chunk("Alpha", "a.txt")];
    match after_search(&results) {
        SearchVerdict::Generate { context, sources } => {
            assert_eq!(context, "[Source: a.txt]\nAlpha");
            assert_eq!(sources, vec!["a.txt".to_string()]);
        }
        SearchVerdict::NoRelevantDocuments => panic!("expected generation"),
    }
}

#[test]
fn latest_user_message_is_taken_from_the_end() {
    let messages = vec![
        msg("user", "first"),
        msg("assistant", "reply"),
        msg("user", "second"),
        msg("system", "rules"),
    ];
    assert_eq!(latest_user_text(&messages).unwrap(), "second");
    let messages = vec![msg("system", "rules")];
    assert!(latest_user_text(&messages).is_none());
}

#[test]
fn request_without_user_message_is_a_client_error() {
    let messages = vec![msg("system", "rules"), msg("assistant", "hello")];
    match chat_begin(&messages) {
        ChatStep::Done(outcome) => {
            assert_eq!(status_of(&outcome), 400);
            match outcome {
                ChatOutcome::InvalidRequest { message, error_type } => {
                    assert_eq!(message, "No user message found");
                    assert_eq!(error_type, "invalid_request_error");
                }
                _ => panic!("expected invalid request"),
            }
        }
        _ => panic!("expected a decided request"),
    }
}

#[test]
fn empty_user_message_is_a_client_error() {
    let messages = vec![msg("user", "")];
    match chat_begin(&messages) {
        ChatStep::Done(ChatOutcome::InvalidRequest { error_type, .. }) => {
            assert_eq!(error_type, "invalid_request_error");
        }
        _ => panic!("expected invalid request"),
    }
}

#[test]
fn question_against_empty_collection_gets_an_answer_not_an_error() {
    let messages = vec![msg("user", "Q")];
    let step = chat_begin(&messages);
    let question = match step {
        ChatStep::NeedCollectionInfo { question } => question,
        _ => panic!("expected the pipeline to proceed"),
    };
    match chat_on_info(question, Some(0)) {
        ChatStep::Done(outcome) => {
            assert_eq!(status_of(&outcome), 200);
            match outcome {
                ChatOutcome::Answer { content, sources } => {
                    assert_eq!(content, "Knowledge base is empty. Run 'know ingest <path>' first.");
                    assert!(sources.is_empty());
                }
                _ => panic!("expected an answer"),
            }
        }
        _ => panic!("expected a decided request"),
    }
}

#[test]
fn full_chat_flow_reaches_generation_and_answers() {
    let messages = vec![msg("user", "What is Alpha?")];
    let question = match chat_begin(&messages) {
        ChatStep::NeedCollectionInfo { question } => question,
        _ => panic!("expected collection info step"),
    };
    let question = match chat_on_info(question, Some(3)) {
        ChatStep::NeedEmbedding { question } => question,
        _ => panic!("expected embedding step"),
    };
    let question = match chat_on_embed(question, None) {
        ChatStep::NeedSearch { question } => question,
        _ => panic!("expected search step"),
    };
    let results = vec![chunk("Alpha", "a.txt"), chunk("Beta", "b.txt")];
    let (context, sources) = match chat_on_search(question, Ok(results)) {
        ChatStep::NeedGeneration { context, sources, .. } => (context, sources),
        _ => panic!("expected generation step"),
    };
    assert_eq!(context, "[Source: a.txt]\nAlpha\n---\n[Source: b.txt]\nBeta");
    match chat_on_generate(Ok("Alpha is the first letter.".to_string()), sources) {
        ChatStep::Done(outcome) => {
            assert_eq!(status_of(&outcome), 200);
            match outcome {
                ChatOutcome::Answer { content, sources } => {
                    assert_eq!(content, "Alpha is the first letter.");
                    assert_eq!(sources, vec!["a.txt".to_string(), "b.txt".to_string()]);
                }
                _ => panic!("expected an answer"),
            }
        }
        _ => panic!("expected a decided request"),
    }
}

#[test]
fn zero_search_results_answer_directly() {
    match chat_on_search("Q".to_string(), Ok(vec![])) {
        ChatStep::Done(ChatOutcome::Answer { content, sources }) => {
            assert_eq!(content, "No relevant documents found.");
            assert!(sources.is_empty());
        }
        _ => panic!("expected a direct answer"),
    }
}

#[test]
fn committed_failures_become_server_errors() {
    match chat_on_embed("Q".to_string(), Some(KnowError::NoEmbeddingData)) {
        ChatStep::Done(outcome) => {
            assert_eq!(status_of(&outcome), 500);
            match outcome {
                ChatOutcome::ServerError { message, error_type } => {
                    assert_eq!(message, "Failed to embed query: No embedding data returned");
                    assert_eq!(error_type, "server_error");
                }
                _ => panic!("expected a server error"),
            }
        }
        _ => panic!("expected a decided request"),
    }
    match chat_on_search("Q".to_string(), Err(KnowError::NoEmbeddingData)) {
        ChatStep::Done(ChatOutcome::ServerError { message, .. }) => {
            assert_eq!(message, "Failed to search: No embedding data returned");
        }
        _ => panic!("expected a server error"),
    }
    match chat_on_generate(Err(KnowError::NoResponseGenerated), vec![]) {
        ChatStep::Done(ChatOutcome::ServerError { message, .. }) => {
            assert_eq!(message, "Failed to generate response: No response generated");
        }
        _ => panic!("expected a server error"),
    }
}

#[test]
fn completion_envelope_is_pinned() {
    let id = new_completion_id();
    assert_eq!(id.len(), 45);
    assert!(id.starts_with("chatcmpl-"));
    let reply = build_completion(id.clone(), 1700000000, "answer".to_string());
    assert_eq!(reply.id, id);
    assert_eq!(reply.object, "chat.completion");
    assert_eq!(reply.created, 1700000000);
    assert_eq!(reply.model, "know-rag");
    assert_eq!(reply.choices.len(), 1);
    assert_eq!(reply.choices[0].index, 0);
    assert_eq!(reply.choices[0].message.role, "assistant");
    assert_eq!(reply.choices[0].message.content, "answer");
    assert_eq!(reply.choices[0].finish_reason, "stop");
    assert_eq!(reply.usage.prompt_tokens, 0);
    assert_eq!(reply.usage.completion_tokens, 0);
    assert_eq!(reply.usage.total_tokens, 0);
}

#[test]
fn two_completion_ids_differ() {
    assert_ne!(new_completion_id(), new_completion_id());
}

#[test]
fn health_and_default_top_k() {
    assert_eq!(default_top_k(), 5);
    let reply = health_reply("Ollama", &"know".to_string());
    assert_eq!(reply.status, "ok");
    assert_eq!(reply.backend, "Ollama");
    assert_eq!(reply.collection, "know");
}
