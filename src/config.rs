//! The deployment's settings, checked once at startup.
use vstd::prelude::*;

use crate::chain::ChatConfig;
use crate::ingest::Pacing;

verus! {

/// The largest score, in millionths: a similarity of 1.
pub const SCORE_SCALE: i64 = 1000000;

pub struct Settings {
    /// The generation model.
    pub model: String,
    /// The embedding model.
    pub embedder: String,
    /// The vector store's collection.
    pub collection: String,
    pub chat: ChatConfig,
    /// The most tokens a chunk may hold.
    pub max_tokens: usize,
    /// How many neighbours on each side a chunk is expanded with.
    pub window: usize,
    pub pacing: Pacing,
}

#[derive(Clone, Copy, Debug, PartialEq, Eq, Structural)]
pub enum ConfigError {
    EmptyModel,
    EmptyEmbedder,
    EmptyCollection,
    /// Retrieval must ask for at least one passage.
    NoResults,
    /// The threshold must lie between 0 and 1 (in millionths).
    ThresholdOutOfRange,
    /// A chunk must be allowed at least one token.
    NoTokenBudget,
}

/// The first rule, in this order, that `s` breaks.
pub open spec fn config_problem(s: Settings) -> Option<ConfigError> {
    if s.model@.len() == 0 {
        Some(ConfigError::EmptyModel)
    } else if s.embedder@.len() == 0 {
        Some(ConfigError::EmptyEmbedder)
    } else if s.collection@.len() == 0 {
        Some(ConfigError::EmptyCollection)
    } else if s.chat.k == 0 {
        Some(ConfigError::NoResults)
    } else if s.chat.threshold < 0 || s.chat.threshold > SCORE_SCALE {
        Some(ConfigError::ThresholdOutOfRange)
    } else if s.max_tokens == 0 {
        Some(ConfigError::NoTokenBudget)
    } else {
        None
    }
}

/// Accepts settings that break no rule, and else names the first rule broken.
pub fn validate(s: &Settings) -> (r: Result<(), ConfigError>)
    ensures
        match config_problem(*s) {
            Some(e) => r == Err::<(), ConfigError>(e),
            None => r is Ok,
        },
{
    if s.model.as_str().is_empty() {
        Err(ConfigError::EmptyModel)
    } else if s.embedder.as_str().is_empty() {
        Err(ConfigError::EmptyEmbedder)
    } else if s.collection.as_str().is_empty() {
        Err(ConfigError::EmptyCollection)
    } else if s.chat.k == 0 {
        Err(ConfigError::NoResults)
    } else if s.chat.threshold < 0 || s.chat.threshold > SCORE_SCALE {
        Err(ConfigError::ThresholdOutOfRange)
    } else if s.max_tokens == 0 {
        Err(ConfigError::NoTokenBudget)
    } else {
        Ok(())
    }
}

} // verus!
