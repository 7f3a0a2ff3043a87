//! Token providers for embedding chunking: the shared error type, the span
//! bookkeeping of byte-oriented tokenizers, and tiktoken encodings.

use vstd::prelude::*;
use crate::text::string_of;

verus! {

/// Error type shared by all token providers.
#[derive(Debug)]
pub struct TokenProviderError {
    pub message: String,
}

impl TokenProviderError {
    /// An error carrying `m` as its message.
    pub fn msg(m: &str) -> (e: Self)
        ensures
            e.message@ == m@,
    {
        TokenProviderError { message: string_of(m) }
    }
}

} // verus!

verus! {

/// The token provider the chunker is parameterised over: every concrete
/// tokenizer is dispatched through this one type.
pub enum EmbeddingTokenProvider {
    /// HuggingFace tokenizer.
    Hf(std::sync::Arc<crate::hf::HfTokenProvider>),
    /// tiktoken BPE.
    Tiktoken(crate::tiktoken::TiktokenProvider),
}

impl EmbeddingTokenProvider {
    /// The token ids of `text`.
    pub fn tokenize(&self, text: &str) -> (r: Result<Vec<u32>, TokenProviderError>)
        ensures
            self matches EmbeddingTokenProvider::Tiktoken(p) ==> match r {
                Ok(v) => crate::tiktoken::encoding_ids(p.encoding, text@) == Some(v@),
                Err(_) => crate::tiktoken::encoding_ids(p.encoding, text@) is None,
            },
            self is Hf ==> (r matches Ok(ids) ==> exists|out: Seq<(u32, int, int)>|
                #[trigger] crate::hf::encodes(text@, out) && ids@ == crate::hf::ids_of(out)),
            self is Hf ==> (r matches Err(e) ==> crate::hf::tokenization_failure(e.message@)),
    {
        match self {
            EmbeddingTokenProvider::Hf(p) => p.tokenize(text),
            EmbeddingTokenProvider::Tiktoken(p) => p.tokenize(text),
        }
    }

    /// The exact token count of `text`.
    pub fn estimate_token_count(&self, text: &str) -> (r: Result<usize, TokenProviderError>)
        ensures
            self matches EmbeddingTokenProvider::Tiktoken(p) ==> match r {
                Ok(n) => crate::tiktoken::encoding_ids(p.encoding, text@) matches Some(ids) && n
                    == ids.len(),
                Err(_) => crate::tiktoken::encoding_ids(p.encoding, text@) is None,
            },
            self is Hf ==> (r matches Ok(n) ==> exists|out: Seq<(u32, int, int)>|
                #[trigger] crate::hf::encodes(text@, out) && n == out.len()),
            self is Hf ==> (r matches Err(e) ==> crate::hf::tokenization_failure(e.message@)),
    {
        match self {
            EmbeddingTokenProvider::Hf(p) => p.estimate_token_count(text),
            EmbeddingTokenProvider::Tiktoken(p) => p.estimate_token_count(text),
        }
    }

    /// The char start of token `token_pos`, when the tokenizer has spans.
    pub fn token_to_char(&self, text: &str, token_pos: usize) -> (r: Result<
        Option<usize>,
        TokenProviderError,
    >)
        ensures
            self is Tiktoken ==> r matches Ok(None),
            self is Hf ==> (r matches Ok(Some(c)) ==> c <= text@.len()),
            self is Hf ==> (r matches Ok(c) ==> exists|out: Seq<(u32, int, int)>|
                #[trigger] crate::hf::encodes(text@, out) && c == crate::hf::char_of_token(out, token_pos as int)),
            self is Hf ==> (r matches Err(e) ==> crate::hf::tokenization_failure(e.message@)),
    {
        match self {
            EmbeddingTokenProvider::Hf(p) => p.token_to_char(text, token_pos),
            EmbeddingTokenProvider::Tiktoken(p) => p.token_to_char(text, token_pos),
        }
    }

    /// The token holding char `char_pos`, when the tokenizer has spans.
    pub fn char_to_token(&self, text: &str, char_pos: usize) -> (r: Result<
        Option<usize>,
        TokenProviderError,
    >)
        ensures
            self is Tiktoken ==> r matches Ok(None),
            self is Hf ==> (r matches Ok(k) ==> exists|out: Seq<(u32, int, int)>|
                #[trigger] crate::hf::encodes(text@, out) && k == crate::hf::token_index_at_char(out, char_pos as int)),
            self is Hf ==> (r matches Err(e) ==> crate::hf::tokenization_failure(e.message@)),
    {
        match self {
            EmbeddingTokenProvider::Hf(p) => p.char_to_token(text, char_pos),
            EmbeddingTokenProvider::Tiktoken(p) => p.char_to_token(text, char_pos),
        }
    }

    /// The char spans of the tokens, when the tokenizer has them.
    pub fn get_token_spans(&self, text: &str) -> (r: Result<
        Option<Vec<(usize, usize)>>,
        TokenProviderError,
    >)
        ensures
            self is Tiktoken ==> r matches Ok(None),
            self is Hf ==> (r matches Ok(s) ==> s matches Some(v) && forall|k: int|
                0 <= k < v@.len() ==> (#[trigger] v@[k]).0 <= v@[k].1 <= text@.len()),
            self is Hf ==> (r matches Ok(s) ==> exists|out: Seq<(u32, int, int)>|
                #[trigger] crate::hf::encodes(text@, out) && (s matches Some(v) && v@ == crate::hf::spans_of(out))),
            self is Hf ==> (r matches Err(e) ==> crate::hf::tokenization_failure(e.message@)),
    {
        match self {
            EmbeddingTokenProvider::Hf(p) => p.get_token_spans(text),
            EmbeddingTokenProvider::Tiktoken(p) => p.get_token_spans(text),
        }
    }
}

} // verus!
