//! Fixed values of the gateway.

use vstd::prelude::*;

verus! {

/// The number of components of an embedding.
pub const EMBEDDING_DIM: usize = 384;

/// The collection of the vector database that holds the cached answers.
pub const COLLECTION_NAME: &'static str = "semantic-cache";

/// The payload key under which a cached answer keeps the prompt it was generated for.
pub const PROMPT_KEY: &'static str = "prompt";

/// The payload key under which a cached answer keeps its text.
pub const RESPONSE_KEY: &'static str = "response";

/// What marks an answer that was served from the cache.
pub const CACHED_PREFIX: &'static str = "[CACHED] ";

/// The number of hits that a similarity search asks for.
pub const SEARCH_LIMIT: u64 = 1;

/// The upper bound on the length of a generated answer, in tokens.
pub const MAX_TOKENS: u64 = 1024;

/// What a generation without any choice is answered with.
pub const EMPTY_GENERATION: &'static str = "No response generated.";

/// The tokens that one cache hit is estimated to save.
pub const TOKENS_PER_HIT: u64 = 500;

} // verus!
