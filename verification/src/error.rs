//! Errors surfaced once a backend or store is committed. Probe failures
//! are never represented here: probing is total and reports plain
//! availability instead (see `backend`).

use vstd::prelude::*;
use crate::text::spec_digits;
use crate::text::u64_to_string;

verus! {

/// An operation-level failure. Transport and availability failures during
/// probing are swallowed by the selection logic; these errors arise only
/// after a provider or the store has been committed, and abort the current
/// operation.
#[derive(Debug)]
pub enum KnowError {
    /// The vector store did not answer its liveness probe.
    StoreUnavailable { url: String },
    /// No provider passed its probe; holds the model identifiers the
    /// operator must make available.
    NoBackend { embed_model: String, gen_model: String },
    /// An embedding reply carried no vectors.
    NoEmbeddingData,
    /// A generation reply carried no choices.
    NoResponseGenerated,
    /// A reply did not match the shape the named service promises for the
    /// named operation.
    MalformedReply { operation: String, service: String },
    /// The named service answered an HTTP error status, with its body.
    ServiceHttp { service: String, status: u16, body: String },
}

pub open spec fn spec_no_backend_message(embed_model: Seq<char>, gen_model: Seq<char>) -> Seq<
    char,
> {
    "No LLM backend available with required models.\n\nRequired models:\n- Embedding: "@
        + embed_model + "\n- Generation: "@ + gen_model
        + "\n\nPlease either:\n1. Enable Docker Model Runner TCP and pull models:\n   docker model pull ai/mxbai-embed-large\n   docker model pull ai/llama3.2\n\n2. Start Ollama and pull models:\n   ollama pull "@
        + embed_model + "\n   ollama pull "@ + gen_model
        + "\n\n3. Set OPENAI_API_KEY environment variable\n\nOr specify different models with --model and --embed-model"@
}

/// The message shown to the operator for each error, character for
/// character.
pub open spec fn spec_message(e: KnowError) -> Seq<char> {
    match e {
        KnowError::StoreUnavailable { url } => "Qdrant is not available at "@ + url@
            + ". Run 'know up' to start services."@,
        KnowError::NoBackend { embed_model, gen_model } => spec_no_backend_message(
            embed_model@,
            gen_model@,
        ),
        KnowError::NoEmbeddingData => "No embedding data returned"@,
        KnowError::NoResponseGenerated => "No response generated"@,
        KnowError::MalformedReply { operation, service } => "Failed to parse "@ + operation@
            + " response from "@ + service@,
        KnowError::ServiceHttp { service, status, body } => service@ + " returned error "@
            + spec_digits(status as nat) + ": "@ + body@,
    }
}

impl KnowError {
    /// Render the error for the operator.
    pub fn message(&self) -> (r: String)
        ensures
            r@ == spec_message(*self),
    {
        match self {
            KnowError::StoreUnavailable { url } => {
                let mut s = String::new();
                s.append("Qdrant is not available at ");
                s.append(url.as_str());
                s.append(". Run 'know up' to start services.");
                s
            },
            KnowError::NoBackend { embed_model, gen_model } => {
                let mut s = String::new();
                s.append(
                    "No LLM backend available with required models.\n\nRequired models:\n- Embedding: ",
                );
                s.append(embed_model.as_str());
                s.append("\n- Generation: ");
                s.append(gen_model.as_str());
                s.append(
                    "\n\nPlease either:\n1. Enable Docker Model Runner TCP and pull models:\n   docker model pull ai/mxbai-embed-large\n   docker model pull ai/llama3.2\n\n2. Start Ollama and pull models:\n   ollama pull ",
                );
                s.append(embed_model.as_str());
                s.append("\n   ollama pull ");
                s.append(gen_model.as_str());
                s.append(
                    "\n\n3. Set OPENAI_API_KEY environment variable\n\nOr specify different models with --model and --embed-model",
                );
                s
            },
            KnowError::NoEmbeddingData => {
                let mut s = String::new();
                s.append("No embedding data returned");
                s
            },
            KnowError::NoResponseGenerated => {
                let mut s = String::new();
                s.append("No response generated");
                s
            },
            KnowError::MalformedReply { operation, service } => {
                let mut s = String::new();
                s.append("Failed to parse ");
                s.append(operation.as_str());
                s.append(" response from ");
                s.append(service.as_str());
                s
            },
            KnowError::ServiceHttp { service, status, body } => {
                let mut s = String::new();
                s.append(service.as_str());
                s.append(" returned error ");
                let digits = u64_to_string(*status as u64);
                s.append(digits.as_str());
                s.append(": ");
                s.append(body.as_str());
                s
            },
        }
    }
}

} // verus!
