use know::backend::{
    chat_prompt_messages, docker_probe_passes, embed_reply_check, first_choice, no_backend_error,
    ollama_embed_probe_passes, ollama_generate_probe_passes, rag_combined_prompt,
    rag_system_prompt, select_backend, selection_start, selection_step, Backend,
    DockerModelRunner, OllamaBackend, OpenAiBackend, SelectionState,
};
use know::cli::BackendType;
use know::error::KnowError;

#[test]
fn probing_never_raises() {
    // A provider answering HTTP 500.
    assert!(!docker_probe_passes(Some(500), None));
    // A provider refusing the connection entirely.
    assert!(!docker_probe_passes(None, None));
    // A provider answering a well-formed but empty embedding array.
    assert!(!ollama_embed_probe_passes(Some(0), false));
}

#[test]
fn probes_pass_only_on_semantically_valid_replies() {
    assert!(docker_probe_passes(Some(200), Some(768)));
    assert!(!docker_probe_passes(Some(200), Some(0)));
    assert!(ollama_embed_probe_passes(Some(768), false));
    assert!(!ollama_embed_probe_passes(Some(768), true));
    assert!(ollama_generate_probe_passes(Some("Hi".to_string()), false));
    assert!(!ollama_generate_probe_passes(Some(String::new()), false));
    assert!(!ollama_generate_probe_passes(None, false));
}

#[test]
fn selection_takes_first_passing_candidate() {
    assert_eq!(select_backend(None, true, true, true), Some(BackendType::Docker));
    assert_eq!(select_backend(None, false, true, true), Some(BackendType::Ollama));
    assert_eq!(select_backend(None, false, false, true), Some(BackendType::Openai));
    assert_eq!(select_backend(None, false, false, false), None);
}

#[test]
fn pinned_backend_skips_probing() {
    assert_eq!(select_backend(Some(BackendType::Openai), true, true, false), Some(BackendType::Openai));
    assert_eq!(selection_start(Some(BackendType::Ollama)), SelectionState::Chosen { backend: BackendType::Ollama });
}

#[test]
fn selection_machine_walks_the_priority_order() {
    let s0 = selection_start(None);
    assert_eq!(s0, SelectionState::Probing { candidate: BackendType::Docker });
    let s1 = selection_step(s0, false);
    assert_eq!(s1, SelectionState::Probing { candidate: BackendType::Ollama });
    let s2 = selection_step(s1, false);
    assert_eq!(s2, SelectionState::Probing { candidate: BackendType::Openai });
    let s3 = selection_step(s2, false);
    assert_eq!(s3, SelectionState::NoneUsable);
    let chosen = selection_step(selection_start(None), true);
    assert_eq!(chosen, SelectionState::Chosen { backend: BackendType::Docker });
}

#[test]
fn provider_defaults() {
    let d = DockerModelRunner::new(None, None, None);
    assert_eq!(d.gen_model, "ai/llama3.2:3B-Q8_0");
    assert_eq!(d.embed_model, "ai/mxbai-embed-large:335M-F16");
    assert_eq!(d.get_base_url(), "http://localhost:12434/engines/llama.cpp/v1");
    assert_eq!(d.name(), "Docker Model Runner");

    let o = OllamaBackend::new(None, Some("llama3.1".to_string()), None);
    assert_eq!(o.base_url, "http://localhost:11434");
    assert_eq!(o.gen_model, "llama3.1");
    assert_eq!(o.embed_model, "nomic-embed-text");
    assert_eq!(o.name(), "Ollama");

    let a = OpenAiBackend::new(None, None, None, None);
    assert_eq!(a.base_url, "https://api.openai.com/v1");
    assert_eq!(a.gen_model, "gpt-4o");
    assert_eq!(a.embed_model, "text-embedding-3-small");
    assert!(!a.is_available());
    let a = OpenAiBackend::new(None, None, None, Some("sk-test".to_string()));
    assert!(a.is_available());
    assert_eq!(a.name(), "OpenAI");
}

#[test]
fn backend_sum_type_matches_kind() {
    let b = Backend::make(BackendType::Ollama, None, None, None, None);
    assert!(matches!(b, Backend::Ollama(_)));
    assert_eq!(b.name(), "Ollama");
}

#[test]
fn no_backend_error_names_models_and_remediation() {
    let e = no_backend_error(None, Some("llama3.2".to_string()));
    let expected = "No LLM backend available with required models.\n\n\
        Required models:\n\
        - Embedding: ai/nomic-embed-test-v1.5\n\
        - Generation: llama3.2\n\n\
        Please either:\n\
        1. Enable Docker Model Runner TCP and pull models:\n   \
        docker model pull ai/mxbai-embed-large\n   \
        docker model pull ai/llama3.2\n\n\
        2. Start Ollama and pull models:\n   \
        ollama pull ai/nomic-embed-test-v1.5\n   \
        ollama pull llama3.2\n\n\
        3. Set OPENAI_API_KEY environment variable\n\n\
        Or specify different models with --model and --embed-model";
    assert_eq!(e.message(), expected);
}

#[test]
fn operation_error_messages() {
    assert_eq!(KnowError::NoEmbeddingData.message(), "No embedding data returned");
    assert_eq!(KnowError::NoResponseGenerated.message(), "No response generated");
    let e = KnowError::StoreUnavailable { url: "http://localhost:6333".to_string() };
    assert_eq!(
        e.message(),
        "Qdrant is not available at http://localhost:6333. Run 'know up' to start services."
    );
    let e = KnowError::MalformedReply {
        operation: "embedding".to_string(),
        service: "Ollama".to_string(),
    };
    assert_eq!(e.message(), "Failed to parse embedding response from Ollama");
    let e = KnowError::ServiceHttp {
        service: "Docling".to_string(),
        status: 503,
        body: "boom".to_string(),
    };
    assert_eq!(e.message(), "Docling returned error 503: boom");
}

#[test]
fn prompt_templates() {
    let sys = rag_system_prompt("CTX");
    assert_eq!(
        sys,
        "You are a helpful assistant. Answer the user's question using only the context \
         provided below. If the context doesn't contain relevant information, say so.\n\n\
         Context:\nCTX"
    );
    let full = rag_combined_prompt("CTX", "Q?");
    assert_eq!(full, format!("{}\n\nQuestion: Q?", sys));
    let messages = chat_prompt_messages("Q?", "CTX");
    assert_eq!(messages.len(), 2);
    assert_eq!(messages[0].role, "system");
    assert_eq!(messages[0].content, sys);
    assert_eq!(messages[1].role, "user");
    assert_eq!(messages[1].content, "Q?");
}

#[test]
fn committed_reply_handling() {
    assert!(matches!(first_choice(vec![]), Err(KnowError::NoResponseGenerated)));
    let got = first_choice(vec!["answer".to_string(), "other".to_string()]);
    assert_eq!(got.unwrap(), "answer");
    assert!(embed_reply_check(1).is_ok());
    assert!(matches!(embed_reply_check(0), Err(KnowError::NoEmbeddingData)));
}
