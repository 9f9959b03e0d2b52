//! The backend capability layer: the three provider families, their
//! configuration defaults, the probe classification that decides whether
//! a provider is usable, the first-wins selection over the probing order,
//! and the prompt and reply shapes shared by the providers.
//!
//! Probing is total: every classifier here is a plain function of the
//! probe's observed outcome and never fails, so the selection chain can
//! always continue to the next candidate. Once a backend is committed,
//! reply handling returns a `KnowError` instead, which aborts the current
//! operation.

use vstd::prelude::*;
use crate::cli::BackendType;
use crate::error::KnowError;

verus! {

/// The given value, or the default when none was given.
pub open spec fn spec_or_default(given: Option<String>, default_value: Seq<char>) -> Seq<char> {
    match given {
        Some(s) => s@,
        None => default_value,
    }
}

fn or_default(given: Option<String>, default_value: &str) -> (r: String)
    ensures
        r@ == spec_or_default(given, default_value@),
{
    match given {
        Some(s) => s,
        None => default_value.to_owned(),
    }
}

/// The local low-latency runtime. It is reached over a fixed local TCP
/// endpoint; the socket path records where its control socket would be.
pub struct DockerModelRunner {
    pub gen_model: String,
    pub embed_model: String,
    pub socket_path: String,
}

impl DockerModelRunner {
    /// Configuration with the runtime's model defaults. The base URL is
    /// fixed for this provider, so an override is accepted and ignored.
    pub fn new(
        _base_url: Option<String>,
        gen_model: Option<String>,
        embed_model: Option<String>,
    ) -> (r: DockerModelRunner)
        ensures
            r.gen_model@ == spec_or_default(gen_model, "ai/llama3.2:3B-Q8_0"@),
            r.embed_model@ == spec_or_default(embed_model, "ai/mxbai-embed-large:335M-F16"@),
            r.socket_path@ == "/var/run/docker.sock"@,
    {
        DockerModelRunner {
            gen_model: or_default(gen_model, "ai/llama3.2:3B-Q8_0"),
            embed_model: or_default(embed_model, "ai/mxbai-embed-large:335M-F16"),
            socket_path: "/var/run/docker.sock".to_owned(),
        }
    }

    /// The runtime's API base URL.
    pub fn get_base_url(&self) -> (r: String)
        ensures
            r@ == "http://localhost:12434/engines/llama.cpp/v1"@,
    {
        "http://localhost:12434/engines/llama.cpp/v1".to_owned()
    }

    /// The provider's display name.
    pub fn name(&self) -> (r: &'static str)
        ensures
            r@ == "Docker Model Runner"@,
    {
        "Docker Model Runner"
    }
}

/// The local general server.
pub struct OllamaBackend {
    pub base_url: String,
    pub gen_model: String,
    pub embed_model: String,
}

impl OllamaBackend {
    /// Configuration with the server's defaults.
    pub fn new(
        base_url: Option<String>,
        gen_model: Option<String>,
        embed_model: Option<String>,
    ) -> (r: OllamaBackend)
        ensures
            r.base_url@ == spec_or_default(base_url, "http://localhost:11434"@),
            r.gen_model@ == spec_or_default(gen_model, "llama3.2"@),
            r.embed_model@ == spec_or_default(embed_model, "nomic-embed-text"@),
    {
        OllamaBackend {
            base_url: or_default(base_url, "http://localhost:11434"),
            gen_model: or_default(gen_model, "llama3.2"),
            embed_model: or_default(embed_model, "nomic-embed-text"),
        }
    }

    /// The provider's display name.
    pub fn name(&self) -> (r: &'static str)
        ensures
            r@ == "Ollama"@,
    {
        "Ollama"
    }
}

/// The hosted OpenAI-compatible API.
pub struct OpenAiBackend {
    pub base_url: String,
    pub api_key: String,
    pub gen_model: String,
    pub embed_model: String,
}

impl OpenAiBackend {
    /// Configuration with the hosted API's defaults. The key comes from
    /// the caller (it is read from the environment at the edge); an
    /// absent key leaves the provider unavailable.
    pub fn new(
        base_url: Option<String>,
        gen_model: Option<String>,
        embed_model: Option<String>,
        api_key: Option<String>,
    ) -> (r: OpenAiBackend)
        ensures
            r.base_url@ == spec_or_default(base_url, "https://api.openai.com/v1"@),
            r.gen_model@ == spec_or_default(gen_model, "gpt-4o"@),
            r.embed_model@ == spec_or_default(embed_model, "text-embedding-3-small"@),
            r.api_key@ == spec_or_default(api_key, Seq::<char>::empty()),
    {
        let key = match api_key {
            Some(k) => k,
            None => String::new(),
        };
        OpenAiBackend {
            base_url: or_default(base_url, "https://api.openai.com/v1"),
            gen_model: or_default(gen_model, "gpt-4o"),
            embed_model: or_default(embed_model, "text-embedding-3-small"),
            api_key: key,
        }
    }

    /// This provider needs no network probe: it is usable exactly when a
    /// key is configured.
    pub fn is_available(&self) -> (r: bool)
        ensures
            r == (self.api_key@.len() != 0),
    {
        !self.api_key.as_str().is_empty()
    }

    /// The provider's display name.
    pub fn name(&self) -> (r: &'static str)
        ensures
            r@ == "OpenAI"@,
    {
        "OpenAI"
    }
}

/// The committed backend: a closed sum over the three provider families.
/// Callers never branch on the variant; the pipelines go through the
/// shared operations.
pub enum Backend {
    Docker(DockerModelRunner),
    Ollama(OllamaBackend),
    OpenAi(OpenAiBackend),
}

impl Backend {
    /// Instantiate the configuration of the given provider family.
    pub fn make(
        kind: BackendType,
        base_url: Option<String>,
        gen_model: Option<String>,
        embed_model: Option<String>,
        api_key: Option<String>,
    ) -> (r: Backend)
        ensures
            kind == BackendType::Docker ==> r is Docker,
            kind == BackendType::Ollama ==> r is Ollama,
            kind == BackendType::Openai ==> r is OpenAi,
    {
        match kind {
            BackendType::Docker => Backend::Docker(
                DockerModelRunner::new(base_url, gen_model, embed_model),
            ),
            BackendType::Ollama => Backend::Ollama(
                OllamaBackend::new(base_url, gen_model, embed_model),
            ),
            BackendType::Openai => Backend::OpenAi(
                OpenAiBackend::new(base_url, gen_model, embed_model, api_key),
            ),
        }
    }

    /// The display name of the committed provider.
    pub fn name(&self) -> (r: &'static str)
        ensures
            self is Docker ==> r@ == "Docker Model Runner"@,
            self is Ollama ==> r@ == "Ollama"@,
            self is OpenAi ==> r@ == "OpenAI"@,
    {
        match self {
            Backend::Docker(b) => b.name(),
            Backend::Ollama(b) => b.name(),
            Backend::OpenAi(b) => b.name(),
        }
    }
}

/// Whether an HTTP status is a success.
pub open spec fn spec_http_success(status: u16) -> bool {
    200 <= status < 300
}

/// Classify the local runtime's probe. The probe is usable only if the
/// models endpoint answered a success status and a real embedding request
/// came back with a non-empty vector; a transport failure at either step
/// arrives as `None`. Total: every outcome classifies, nothing is raised.
pub fn docker_probe_passes(models_status: Option<u16>, embedding_dim: Option<usize>) -> (r: bool)
    ensures
        r == ((models_status matches Some(s) && spec_http_success(s)) && (embedding_dim
            matches Some(d) && d > 0)),
{
    let models_ok = match models_status {
        Some(s) => 200 <= s && s < 300,
        None => false,
    };
    let embed_ok = match embedding_dim {
        Some(d) => d > 0,
        None => false,
    };
    models_ok && embed_ok
}

/// Classify the local server's embedding probe: usable only with a
/// non-empty embedding and no embedded error field. A reply that did not
/// arrive or did not parse is `None` for the length. Total.
pub fn ollama_embed_probe_passes(embedding_len: Option<usize>, has_error: bool) -> (r: bool)
    ensures
        r == ((embedding_len matches Some(d) && d > 0) && !has_error),
{
    let embed_ok = match embedding_len {
        Some(d) => d > 0,
        None => false,
    };
    embed_ok && !has_error
}

/// Classify the local server's generation probe: usable only with
/// non-empty response text and no embedded error field. Total.
pub fn ollama_generate_probe_passes(response: Option<String>, has_error: bool) -> (r: bool)
    ensures
        r == ((response matches Some(t) && t@.len() > 0) && !has_error),
{
    let gen_ok = match &response {
        Some(t) => !t.as_str().is_empty(),
        None => false,
    };
    gen_ok && !has_error
}

/// The candidate probed after this one fails, in the fixed priority
/// order; the hosted API is the last resort.
pub open spec fn next_candidate(b: BackendType) -> Option<BackendType> {
    match b {
        BackendType::Docker => Some(BackendType::Ollama),
        BackendType::Ollama => Some(BackendType::Openai),
        BackendType::Openai => None,
    }
}

/// Where backend selection stands.
#[derive(Clone, Copy, Debug, PartialEq, Eq, Structural)]
pub enum SelectionState {
    /// The named candidate is being probed.
    Probing { candidate: BackendType },
    /// A provider passed its probe (or was pinned) and is committed.
    Chosen { backend: BackendType },
    /// Every candidate failed its probe.
    NoneUsable,
}

/// Begin selection: a pinned provider is committed unconditionally, with
/// no probing; otherwise probing starts at the front of the priority
/// order.
pub fn selection_start(pinned: Option<BackendType>) -> (r: SelectionState)
    ensures
        match pinned {
            Some(b) => r == (SelectionState::Chosen { backend: b }),
            None => r == (SelectionState::Probing { candidate: BackendType::Docker }),
        },
{
    match pinned {
        Some(b) => SelectionState::Chosen { backend: b },
        None => SelectionState::Probing { candidate: BackendType::Docker },
    }
}

/// Advance selection by one probe outcome: the first candidate to pass
/// wins; a failing candidate hands over to the next in order, and the
/// last one's failure ends the chain with no usable provider.
pub fn selection_step(state: SelectionState, probe_passed: bool) -> (r: SelectionState)
    requires
        state is Probing,
    ensures
        match state {
            SelectionState::Probing { candidate } => {
                if probe_passed {
                    r == (SelectionState::Chosen { backend: candidate })
                } else {
                    match next_candidate(candidate) {
                        Some(n) => r == (SelectionState::Probing { candidate: n }),
                        None => r == SelectionState::NoneUsable,
                    }
                }
            },
            _ => false,
        },
{
    match state {
        SelectionState::Probing { candidate } => {
            if probe_passed {
                SelectionState::Chosen { backend: candidate }
            } else {
                match candidate {
                    BackendType::Docker => SelectionState::Probing {
                        candidate: BackendType::Ollama,
                    },
                    BackendType::Ollama => SelectionState::Probing {
                        candidate: BackendType::Openai,
                    },
                    BackendType::Openai => SelectionState::NoneUsable,
                }
            }
        },
        _ => SelectionState::NoneUsable,
    }
}

/// Run the whole selection chain over the three probe outcomes: a pinned
/// provider wins unconditionally; otherwise the first candidate to pass
/// its probe wins, in the fixed order; and with no passing candidate the
/// result is `None`, never an exception.
pub fn select_backend(
    pinned: Option<BackendType>,
    docker_ok: bool,
    ollama_ok: bool,
    openai_ok: bool,
) -> (r: Option<BackendType>)
    ensures
        r == (if pinned is Some {
            pinned
        } else if docker_ok {
            Some(BackendType::Docker)
        } else if ollama_ok {
            Some(BackendType::Ollama)
        } else if openai_ok {
            Some(BackendType::Openai)
        } else {
            None::<BackendType>
        }),
{
    let mut state = selection_start(pinned);
    loop
        invariant
            state is Probing ==> pinned is None,
            match state {
                SelectionState::Probing { candidate } => match candidate {
                    BackendType::Docker => true,
                    BackendType::Ollama => !docker_ok,
                    BackendType::Openai => !docker_ok && !ollama_ok,
                },
                SelectionState::Chosen { backend } => match pinned {
                    Some(p) => backend == p,
                    None => (backend == BackendType::Docker && docker_ok) || (backend
                        == BackendType::Ollama && !docker_ok && ollama_ok) || (backend
                        == BackendType::Openai && !docker_ok && !ollama_ok && openai_ok),
                },
                SelectionState::NoneUsable => pinned is None && !docker_ok && !ollama_ok
                    && !openai_ok,
            },
        decreases (match state {
            SelectionState::Probing { candidate } => match candidate {
                BackendType::Docker => 3int,
                BackendType::Ollama => 2int,
                BackendType::Openai => 1int,
            },
            _ => 0int,
        }),
    {
        match state {
            SelectionState::Probing { candidate } => {
                let passed = match candidate {
                    BackendType::Docker => docker_ok,
                    BackendType::Ollama => ollama_ok,
                    BackendType::Openai => openai_ok,
                };
                state = selection_step(state, passed);
            },
            SelectionState::Chosen { backend } => {
                return Some(backend);
            },
            SelectionState::NoneUsable => {
                return None;
            },
        }
    }
}

/// The error every caller sees when no provider is usable: it names the
/// required model identifiers and the remediation for each provider
/// family, since it is the only feedback when everything is down.
pub fn no_backend_error(embed_model: Option<String>, gen_model: Option<String>) -> (r: KnowError)
    ensures
        r matches KnowError::NoBackend { embed_model: e, gen_model: g } && e@ == spec_or_default(
            embed_model,
            "ai/nomic-embed-test-v1.5"@,
        ) && g@ == spec_or_default(gen_model, "ai/gemma3"@),
{
    KnowError::NoBackend {
        embed_model: or_default(embed_model, "ai/nomic-embed-test-v1.5"),
        gen_model: or_default(gen_model, "ai/gemma3"),
    }
}

/// The fixed instruction under which every generation request runs: the
/// model must answer from the supplied context alone and say so when the
/// context is insufficient.
pub open spec fn spec_rag_instruction() -> Seq<char> {
    "You are a helpful assistant. Answer the user's question using only the context provided below. If the context doesn't contain relevant information, say so.\n\nContext:\n"@
}

/// The system prompt for the chat-shaped providers: the fixed
/// instruction followed by the retrieved context.
pub fn rag_system_prompt(context: &str) -> (r: String)
    ensures
        r@ == spec_rag_instruction() + context@,
{
    let mut s = String::new();
    s.append(
        "You are a helpful assistant. Answer the user's question using only the context provided below. If the context doesn't contain relevant information, say so.\n\nContext:\n",
    );
    s.append(context);
    s
}

/// The single prompt for the plain-completion provider: instruction,
/// context, then the question.
pub fn rag_combined_prompt(context: &str, question: &str) -> (r: String)
    ensures
        r@ == spec_rag_instruction() + context@ + "\n\nQuestion: "@ + question@,
{
    let mut s = rag_system_prompt(context);
    s.append("\n\nQuestion: ");
    s.append(question);
    s
}

/// The two-message prompt for the chat-shaped providers: the system
/// instruction over the retrieved context, then the user's question.
pub fn chat_prompt_messages(question: &str, context: &str) -> (r: Vec<crate::server::ChatMessage>)
    ensures
        r@.len() == 2,
        r@[0].role@ == "system"@,
        r@[0].content@ == spec_rag_instruction() + context@,
        r@[1].role@ == "user"@,
        r@[1].content@ == question@,
{
    let mut out: Vec<crate::server::ChatMessage> = Vec::new();
    out.push(
        crate::server::ChatMessage {
            role: "system".to_owned(),
            content: rag_system_prompt(context),
        },
    );
    out.push(
        crate::server::ChatMessage { role: "user".to_owned(), content: question.to_owned() },
    );
    out
}

/// Take the first generation choice of a committed provider's reply, or
/// report that none was generated.
pub fn first_choice(choices: Vec<String>) -> (r: Result<String, KnowError>)
    ensures
        choices@.len() > 0 ==> (r matches Ok(t) && t@ == choices@[0]@),
        choices@.len() == 0 ==> (r matches Err(e) && e is NoResponseGenerated),
{
    let mut choices = choices;
    if choices.len() > 0 {
        Ok(choices.remove(0))
    } else {
        Err(KnowError::NoResponseGenerated)
    }
}

/// Check a committed provider's embedding reply: a reply with no vectors
/// is an error, not a silent empty embedding.
pub fn embed_reply_check(vector_count: usize) -> (r: Result<(), KnowError>)
    ensures
        (r is Ok) <==> vector_count > 0,
        r matches Err(e) ==> e is NoEmbeddingData,
{
    if vector_count > 0 {
        Ok(())
    } else {
        Err(KnowError::NoEmbeddingData)
    }
}

} // verus!
