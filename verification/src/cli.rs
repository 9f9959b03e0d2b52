//! The command surface and its configuration defaults. Argument parsing
//! itself happens outside the library; this module fixes what every
//! option defaults to and carries the parsed values through the
//! pipelines.

use vstd::prelude::*;

verus! {

/// The provider families a backend can come from, in probing priority
/// order: the local runtime first, the local server next, the hosted API
/// last.
#[derive(Clone, Copy, Debug, PartialEq, Eq, Structural)]
pub enum BackendType {
    /// Local low-latency runtime (Docker Model Runner).
    Docker,
    /// Local general server (Ollama).
    Ollama,
    /// Hosted OpenAI-compatible API.
    Openai,
}

/// The operations the tool offers.
pub enum Commands {
    /// Start the vector store and conversion services.
    Up,
    /// Stop them.
    Down,
    /// Ingest files from a path into the knowledge base.
    Ingest { path: String, extensions: String },
    /// Ask a question against the knowledge base.
    Ask { query: Vec<String> },
    /// Serve the chat-completion API.
    Serve { port: u16 },
    /// Delete a collection.
    Clean { collection: String },
    /// Export the knowledge base to a registry.
    Push { name: String },
    /// Import a knowledge base from a registry.
    Pull { name: String },
    /// Show service health.
    Status,
}

/// The resolved configuration: one command plus the global options, each
/// with its default filled in when the operator gave none.
pub struct Cli {
    pub command: Commands,
    pub backend: Option<BackendType>,
    pub base_url: Option<String>,
    pub model: Option<String>,
    pub embed_model: Option<String>,
    pub qdrant_url: String,
    pub docling_url: String,
    pub collection: String,
}

impl Cli {
    /// A configuration for one command with every global option at its
    /// default: no pinned backend, no overridden URLs or models, the
    /// local store and converter endpoints, and the default collection.
    pub fn with_defaults(command: Commands) -> (r: Cli)
        ensures
            r.backend is None,
            r.base_url is None,
            r.model is None,
            r.embed_model is None,
            r.qdrant_url@ == "http://localhost:6333"@,
            r.docling_url@ == "http://localhost:5001"@,
            r.collection@ == "know"@,
    {
        Cli {
            command,
            backend: None,
            base_url: None,
            model: None,
            embed_model: None,
            qdrant_url: "http://localhost:6333".to_owned(),
            docling_url: "http://localhost:5001".to_owned(),
            collection: "know".to_owned(),
        }
    }
}

/// The default extension allow-list for ingestion.
pub fn default_extensions() -> (r: String)
    ensures
        r@ == "md,txt,pdf,docx,html"@,
{
    "md,txt,pdf,docx,html".to_owned()
}

/// The default port the API serves on.
pub fn default_port() -> (p: u16)
    ensures
        p == 8080,
{
    8080
}

/// The collection the cleanup operation targets when none is named.
pub fn default_clean_collection() -> (r: String)
    ensures
        r@ == "know"@,
{
    "know".to_owned()
}

} // verus!
