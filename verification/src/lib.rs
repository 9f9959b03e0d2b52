//! Verified core of a retrieval-augmented generation (RAG) pipeline:
//! backend probing and selection over interchangeable providers, document
//! chunking with content-derived ids, a model of the vector-store
//! contract, the ingest and query pipelines, and the chat-completion API
//! logic. Network, file and process handling live outside the library;
//! every decision the pipeline takes is a verified function from plain
//! values to plain values.

pub mod backend;
pub mod cli;
pub mod error;
pub mod ingest;
pub mod qdrant;
pub mod query;
pub mod registry;
pub mod server;
pub mod text;
