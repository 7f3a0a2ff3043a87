//! Settings of the genai-backed chat service.

use vstd::prelude::*;

verus! {

/// Model and optional endpoint of a genai chat client.
#[derive(Debug, Clone)]
pub struct GenaiLLMConfig {
    pub model_name: String,
    pub endpoint_url: Option<String>,
}

} // verus!
