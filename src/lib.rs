//! Context-augmented retrieval over internal documents.
//!
//! Ingestion cuts a document into token-bounded chunks (`chunker`), rewrites
//! each chunk with the help of its neighbours (`neighborhood`, `ingest`), and
//! leaves embedding and storage to the caller. Answering runs one chat turn at
//! a time (`chain`): it rephrases a follow-up question, keeps the retrieved
//! passages that clear the score threshold (`retrieval`), asks for the answer,
//! and lists the documents behind it (`sources`). The state machines decide;
//! the caller performs the model and store calls they ask for.
pub mod catalog;
pub mod chain;
pub mod chunker;
pub mod config;
pub mod conversation;
pub mod ingest;
pub mod neighborhood;
pub mod prompts;
pub mod retrieval;
pub mod sources;
pub mod text;
