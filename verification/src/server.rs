//! The chat-completion API's logic: extracting the question from a
//! request's messages, the per-request pipeline over collection info,
//! embedding, search and generation, the outcome-to-status mapping, and
//! the response envelope. All network handling stays outside; each step
//! here is a plain function from the request's values and the services'
//! observed replies to the next step.

use vstd::prelude::*;
use crate::error::KnowError;
use crate::error::spec_message;
use crate::qdrant::DocumentChunk;
use crate::query::SearchVerdict;
use crate::query::QueryGate;
use crate::query::after_search;
use crate::query::empty_kb_message;
use crate::query::no_results_message;
use crate::query::query_gate;
use crate::query::spec_context;
use crate::query::spec_distinct_sources;

verus! {

/// Default number of search results for a chat request that names none.
pub fn default_top_k() -> (k: usize)
    ensures
        k == 5,
{
    5
}

/// One message of a chat request or reply.
#[derive(Debug, Clone)]
pub struct ChatMessage {
    pub role: String,
    pub content: String,
}

/// The mathematical value of a `ChatMessage`.
pub struct MessageData {
    pub role: Seq<char>,
    pub content: Seq<char>,
}

impl View for ChatMessage {
    type V = MessageData;

    open spec fn view(&self) -> MessageData {
        MessageData { role: self.role@, content: self.content@ }
    }
}

/// The content of the most recent message with role `user`, scanning
/// from the end of the list; `None` when no message has that role.
pub open spec fn spec_latest_user(msgs: Seq<MessageData>) -> Option<Seq<char>>
    decreases msgs.len(),
{
    if msgs.len() == 0 {
        None
    } else if msgs.last().role == "user"@ {
        Some(msgs.last().content)
    } else {
        spec_latest_user(msgs.drop_last())
    }
}

/// Extract the question: the most recent user-role message's content.
pub fn latest_user_text(messages: &Vec<ChatMessage>) -> (r: Option<String>)
    ensures
        match r {
            Some(s) => spec_latest_user(messages@.map_values(|m: ChatMessage| m@)) == Some(s@),
            None => spec_latest_user(messages@.map_values(|m: ChatMessage| m@)) is None,
        },
{
    let ghost views = messages@.map_values(|m: ChatMessage| m@);
    let mut i: usize = messages.len();
    proof {
        assert(views.subrange(0, messages@.len() as int) =~= views);
    }
    while i > 0
        invariant
            0 <= i <= messages@.len(),
            views == messages@.map_values(|m: ChatMessage| m@),
            spec_latest_user(views) == spec_latest_user(views.subrange(0, i as int)),
        decreases i,
    {
        proof {
            assert(views.subrange(0, i as int).last() == views[i - 1]);
            assert(views.subrange(0, i as int).drop_last() =~= views.subrange(0, i - 1));
            assert(views[i - 1] == messages@[i - 1]@);
        }
        if crate::text::str_eq(messages[i - 1].role.as_str(), "user") {
            return Some(messages[i - 1].content.clone());
        }
        i = i - 1;
    }
    proof {
        assert(views.subrange(0, 0) =~= Seq::<MessageData>::empty());
    }
    None
}

/// How a chat request ends, with `status_of` giving its HTTP status.
pub enum ChatOutcome {
    /// The request carried no usable user message: a client error with a
    /// machine-checkable type.
    InvalidRequest { message: String, error_type: String },
    /// A committed service failed mid-pipeline: a server error with a
    /// machine-checkable type, never a raw stack trace.
    ServerError { message: String, error_type: String },
    /// An answer, with the de-duplicated source labels of the chunks it
    /// was grounded on.
    Answer { content: String, sources: Vec<String> },
}

/// The HTTP status each outcome is served with.
pub fn status_of(outcome: &ChatOutcome) -> (s: u16)
    ensures
        outcome is InvalidRequest ==> s == 400,
        outcome is ServerError ==> s == 500,
        outcome is Answer ==> s == 200,
{
    match outcome {
        ChatOutcome::InvalidRequest { .. } => 400,
        ChatOutcome::ServerError { .. } => 500,
        ChatOutcome::Answer { .. } => 200,
    }
}

/// What the handler needs next; the caller performs the named outside
/// call and hands its observed reply to the next step.
pub enum ChatStep {
    /// Ask the store for the collection's point count.
    NeedCollectionInfo { question: String },
    /// Embed the question with the committed backend.
    NeedEmbedding { question: String },
    /// Search the collection with the question's embedding.
    NeedSearch { question: String },
    /// Generate over the assembled context.
    NeedGeneration { question: String, context: String, sources: Vec<String> },
    /// The request is decided.
    Done(ChatOutcome),
}

/// Begin handling a chat request: a request without a user-role message,
/// or whose latest user message is empty, is a client error of type
/// `invalid_request_error`; otherwise the question is that message's
/// content.
pub fn chat_begin(messages: &Vec<ChatMessage>) -> (r: ChatStep)
    ensures
        match spec_latest_user(messages@.map_values(|m: ChatMessage| m@)) {
            None => (r matches ChatStep::Done(o) && (o matches ChatOutcome::InvalidRequest {
                message,
                error_type,
            } && message@ == "No user message found"@ && error_type@
                == "invalid_request_error"@)),
            Some(q) => {
                if q.len() == 0 {
                    (r matches ChatStep::Done(o) && (o matches ChatOutcome::InvalidRequest {
                        message,
                        error_type,
                    } && message@ == "No user message found"@ && error_type@
                        == "invalid_request_error"@))
                } else {
                    (r matches ChatStep::NeedCollectionInfo { question } && question@ == q)
                }
            },
        },
{
    match latest_user_text(messages) {
        Some(question) => {
            if question.as_str().is_empty() {
                ChatStep::Done(
                    ChatOutcome::InvalidRequest {
                        message: "No user message found".to_owned(),
                        error_type: "invalid_request_error".to_owned(),
                    },
                )
            } else {
                ChatStep::NeedCollectionInfo { question }
            }
        },
        None => ChatStep::Done(
            ChatOutcome::InvalidRequest {
                message: "No user message found".to_owned(),
                error_type: "invalid_request_error".to_owned(),
            },
        ),
    }
}

/// Decide on the store's report for the collection: an absent or empty
/// knowledge base is answered directly — HTTP 200 with the explicit
/// user-facing message, no embedding and no generation; otherwise the
/// question goes on to embedding.
pub fn chat_on_info(question: String, points_count: Option<usize>) -> (r: ChatStep)
    ensures
        (match points_count {
            None => true,
            Some(n) => n == 0,
        }) ==> (r matches ChatStep::Done(o) && (o matches ChatOutcome::Answer {
            content,
            sources,
        } && content@ == "Knowledge base is empty. Run 'know ingest <path>' first."@
            && sources@.len() == 0)),
        (points_count matches Some(n) && n > 0) ==> (r matches ChatStep::NeedEmbedding {
            question: q,
        } && q@ == question@),
{
    match query_gate(points_count) {
        QueryGate::EmptyKnowledgeBase => {
            let empty_sources: Vec<String> = Vec::new();
            ChatStep::Done(
                ChatOutcome::Answer { content: empty_kb_message(), sources: empty_sources },
            )
        },
        QueryGate::Proceed => ChatStep::NeedEmbedding { question },
    }
}

fn failure_outcome(prefix: &str, e: &KnowError) -> (r: ChatOutcome)
    ensures
        r matches ChatOutcome::ServerError { message, error_type } && message@ == prefix@
            + spec_message(*e) && error_type@ == "server_error"@,
{
    let mut message = String::new();
    message.append(prefix);
    let detail = e.message();
    message.append(detail.as_str());
    ChatOutcome::ServerError { message, error_type: "server_error".to_owned() }
}

/// Decide on the embedding step's result: a failure of the committed
/// backend is a server error; success moves on to the search, the
/// embedding itself staying with the caller.
pub fn chat_on_embed(question: String, embed_error: Option<KnowError>) -> (r: ChatStep)
    ensures
        match embed_error {
            Some(e) => (r matches ChatStep::Done(o) && (o matches ChatOutcome::ServerError {
                message,
                error_type,
            } && message@ == "Failed to embed query: "@ + spec_message(e) && error_type@
                == "server_error"@)),
            None => (r matches ChatStep::NeedSearch { question: q } && q@ == question@),
        },
{
    match embed_error {
        Some(e) => ChatStep::Done(failure_outcome("Failed to embed query: ", &e)),
        None => ChatStep::NeedSearch { question },
    }
}

/// Decide on the search's result: a store failure is a server error;
/// zero hits are answered directly with the explicit message; otherwise
/// the context is assembled in the store's ranking order, the sources
/// de-duplicated, and generation is next.
pub fn chat_on_search(question: String, search: Result<Vec<DocumentChunk>, KnowError>) -> (r:
    ChatStep)
    ensures
        match search {
            Err(e) => (r matches ChatStep::Done(o) && (o matches ChatOutcome::ServerError {
                message,
                error_type,
            } && message@ == "Failed to search: "@ + spec_message(e) && error_type@
                == "server_error"@)),
            Ok(results) => {
                if results@.len() == 0 {
                    (r matches ChatStep::Done(o) && (o matches ChatOutcome::Answer {
                        content,
                        sources,
                    } && content@ == "No relevant documents found."@ && sources@.len() == 0))
                } else {
                    (r matches ChatStep::NeedGeneration { question: q, context, sources } && q@
                        == question@ && context@ == spec_context(
                        results@.map_values(|c: DocumentChunk| c@),
                    ) && sources@.map_values(|s: String| s@) == spec_distinct_sources(
                        results@.map_values(|c: DocumentChunk| c@),
                    ))
                }
            },
        },
{
    match search {
        Err(e) => ChatStep::Done(failure_outcome("Failed to search: ", &e)),
        Ok(results) => match after_search(&results) {
            SearchVerdict::NoRelevantDocuments => {
                let empty_sources: Vec<String> = Vec::new();
                ChatStep::Done(
                    ChatOutcome::Answer { content: no_results_message(), sources: empty_sources },
                )
            },
            SearchVerdict::Generate { context, sources } => ChatStep::NeedGeneration {
                question,
                context,
                sources,
            },
        },
    }
}

/// Decide on the generation step's result: a failure of the committed
/// backend is a server error; otherwise the answer is served with the
/// retrieved sources.
pub fn chat_on_generate(generated: Result<String, KnowError>, sources: Vec<String>) -> (r:
    ChatStep)
    ensures
        match generated {
            Err(e) => (r matches ChatStep::Done(o) && (o matches ChatOutcome::ServerError {
                message,
                error_type,
            } && message@ == "Failed to generate response: "@ + spec_message(e) && error_type@
                == "server_error"@)),
            Ok(answer) => (r matches ChatStep::Done(o) && (o matches ChatOutcome::Answer {
                content,
                sources: s,
            } && content@ == answer@ && s@ == sources@)),
        },
{
    match generated {
        Err(e) => ChatStep::Done(failure_outcome("Failed to generate response: ", &e)),
        Ok(answer) => ChatStep::Done(ChatOutcome::Answer { content: answer, sources }),
    }
}

/// Token-usage placeholder: accounting is not implemented, the counters
/// are always zero.
pub struct Usage {
    pub prompt_tokens: usize,
    pub completion_tokens: usize,
    pub total_tokens: usize,
}

/// One choice of a completion reply.
pub struct ChatChoice {
    pub index: usize,
    pub message: ChatMessage,
    pub finish_reason: String,
}

/// The chat-completion envelope served for a successful answer.
pub struct ChatCompletionResponse {
    pub id: String,
    pub object: String,
    pub created: u64,
    pub model: String,
    pub choices: Vec<ChatChoice>,
    pub usage: Usage,
}

/// Relies on uuid's `Uuid::new_v4`: a random UUID; nothing is assumed of
/// its value beyond the 36-character hyphenated rendering of
/// `Uuid::to_string`.
#[verifier::external_body]
fn uuid_v4_string() -> (r: String)
    ensures
        r@.len() == 36,
{
    uuid::Uuid::new_v4().to_string()
}

/// A synthetic completion identifier: the fixed prefix and a random
/// suffix.
pub fn new_completion_id() -> (r: String)
    ensures
        r@.len() == 45,
        r@.subrange(0, 9) == "chatcmpl-"@,
{
    proof {
        reveal_strlit("chatcmpl-");
    }
    let mut s = String::new();
    s.append("chatcmpl-");
    let suffix = uuid_v4_string();
    s.append(suffix.as_str());
    proof {
        assert(s@.subrange(0, 9) =~= "chatcmpl-"@);
    }
    s
}

/// Wrap an answer in the completion envelope: one choice at index zero
/// with the assistant role, a synthetic identifier, the caller's
/// creation timestamp, and zeroed usage counters.
pub fn build_completion(id: String, created: u64, answer: String) -> (r: ChatCompletionResponse)
    ensures
        r.id@ == id@,
        r.object@ == "chat.completion"@,
        r.created == created,
        r.model@ == "know-rag"@,
        r.choices@.len() == 1,
        r.choices@[0].index == 0,
        r.choices@[0].message.role@ == "assistant"@,
        r.choices@[0].message.content@ == answer@,
        r.choices@[0].finish_reason@ == "stop"@,
        r.usage.prompt_tokens == 0,
        r.usage.completion_tokens == 0,
        r.usage.total_tokens == 0,
{
    let mut choices: Vec<ChatChoice> = Vec::new();
    choices.push(
        ChatChoice {
            index: 0,
            message: ChatMessage { role: "assistant".to_owned(), content: answer },
            finish_reason: "stop".to_owned(),
        },
    );
    ChatCompletionResponse {
        id,
        object: "chat.completion".to_owned(),
        created,
        model: "know-rag".to_owned(),
        choices,
        usage: Usage { prompt_tokens: 0, completion_tokens: 0, total_tokens: 0 },
    }
}

/// The health endpoint's reply.
pub struct HealthReply {
    pub status: String,
    pub backend: String,
    pub collection: String,
}

/// Report the serving configuration: always `ok` with the committed
/// backend's name and the served collection.
pub fn health_reply(backend_name: &str, collection: &String) -> (r: HealthReply)
    ensures
        r.status@ == "ok"@,
        r.backend@ == backend_name@,
        r.collection@ == collection@,
{
    HealthReply {
        status: "ok".to_owned(),
        backend: backend_name.to_owned(),
        collection: collection.clone(),
    }
}

} // verus!
