//! tiktoken (OpenAI BPE) token provider: exact token counts, no char spans.

use vstd::prelude::*;
use crate::text::{push_str, str_eq, string_of};
use crate::token_provider::TokenProviderError;

verus! {

/// The token ids `cl100k_base` gives `text` with no special token allowed
/// (special-token text is encoded as ordinary text); `None` when its split
/// regex fails on `text` (fancy-regex's backtrack limit).
pub uninterp spec fn cl100k_ids(text: Seq<char>) -> Option<Seq<u32>>;

/// The token ids `o200k_base` gives `text`, as for [`cl100k_ids`].
pub uninterp spec fn o200k_ids(text: Seq<char>) -> Option<Seq<u32>>;

/// `cl100k_base_singleton().encode(text, {})`: the ids, or the text of the
/// regex error it reports. With no special token allowed it encodes the
/// whole text as `encode_ordinary` does, but returns the regex error where
/// `encode_ordinary` would panic.
#[verifier::external_body]
fn cl100k_encode(text: &str) -> (r: Result<Vec<u32>, String>)
    ensures
        match r {
            Ok(v) => cl100k_ids(text@) == Some(v@),
            Err(_) => cl100k_ids(text@) is None,
        },
{
    match tiktoken_rs::cl100k_base_singleton().encode(text, &std::collections::HashSet::new()) {
        Ok((ids, _)) => Ok(ids),
        Err(e) => Err(e.message),
    }
}

/// `o200k_base_singleton().encode(text, {})`, as above.
#[verifier::external_body]
fn o200k_encode(text: &str) -> (r: Result<Vec<u32>, String>)
    ensures
        match r {
            Ok(v) => o200k_ids(text@) == Some(v@),
            Err(_) => o200k_ids(text@) is None,
        },
{
    match tiktoken_rs::o200k_base_singleton().encode(text, &std::collections::HashSet::new()) {
        Ok((ids, _)) => Ok(ids),
        Err(e) => Err(e.message),
    }
}

/// The tiktoken encodings a provider can use.
#[derive(Debug, Clone, Copy, PartialEq, Eq)]
pub enum TiktokenEncoding {
    Cl100kBase,
    O200kBase,
}

/// The token ids of `text` under `enc`; `None` when the encoder's regex
/// fails on it.
pub open spec fn encoding_ids(enc: TiktokenEncoding, text: Seq<char>) -> Option<Seq<u32>> {
    match enc {
        TiktokenEncoding::Cl100kBase => cl100k_ids(text),
        TiktokenEncoding::O200kBase => o200k_ids(text),
    }
}

/// tiktoken-backed token provider. Token counts are exact; tiktoken exposes
/// no char offsets, so spans and position mappings are `None`.
#[derive(Debug, Clone, Copy)]
pub struct TiktokenProvider {
    pub encoding: TiktokenEncoding,
}

impl TiktokenProvider {
    /// A provider for the encoding named `encoding` (`cl100k_base` or
    /// `o200k_base`); any other name is an error.
    pub fn new(encoding: &str) -> (r: Result<Self, TokenProviderError>)
        ensures
            r is Ok <==> (encoding@ == "cl100k_base"@ || encoding@ == "o200k_base"@),
            r matches Ok(p) ==> (p.encoding == TiktokenEncoding::Cl100kBase <==> encoding@
                == "cl100k_base"@),
            r matches Err(e) ==> e.message@ == "unknown tiktoken encoding '"@ + encoding@
                + "' (supported: cl100k_base, o200k_base)"@,
    {
        if str_eq(encoding, "cl100k_base") {
            Ok(TiktokenProvider { encoding: TiktokenEncoding::Cl100kBase })
        } else if str_eq(encoding, "o200k_base") {
            Ok(TiktokenProvider { encoding: TiktokenEncoding::O200kBase })
        } else {
            let mut m = string_of("unknown tiktoken encoding '");
            push_str(&mut m, encoding);
            push_str(&mut m, "' (supported: cl100k_base, o200k_base)");
            Err(TokenProviderError { message: m })
        }
    }

    /// Encode `text` into token ids.
    fn tokenized(&self, text: &str) -> (r: Result<Vec<u32>, TokenProviderError>)
        ensures
            match r {
                Ok(v) => encoding_ids(self.encoding, text@) == Some(v@),
                Err(e) => encoding_ids(self.encoding, text@) is None && exists|m: Seq<char>|
                    e.message@ == "tiktoken encoding failed: "@ + m,
            },
    {
        let r = match self.encoding {
            TiktokenEncoding::Cl100kBase => cl100k_encode(text),
            TiktokenEncoding::O200kBase => o200k_encode(text),
        };
        match r {
            Ok(v) => Ok(v),
            Err(e) => {
                let mut m = string_of("tiktoken encoding failed: ");
                push_str(&mut m, e.as_str());
                Err(TokenProviderError { message: m })
            },
        }
    }

    /// The token ids of `text`; an error when the encoder's regex fails on
    /// it.
    pub fn tokenize(&self, text: &str) -> (r: Result<Vec<u32>, TokenProviderError>)
        ensures
            match r {
                Ok(v) => encoding_ids(self.encoding, text@) == Some(v@),
                Err(e) => encoding_ids(self.encoding, text@) is None && exists|m: Seq<char>|
                    e.message@ == "tiktoken encoding failed: "@ + m,
            },
    {
        self.tokenized(text)
    }

    /// The exact token count of `text`; an error when the encoder's regex
    /// fails on it.
    pub fn estimate_token_count(&self, text: &str) -> (r: Result<usize, TokenProviderError>)
        ensures
            match r {
                Ok(n) => encoding_ids(self.encoding, text@) matches Some(ids) && n == ids.len(),
                Err(e) => encoding_ids(self.encoding, text@) is None && exists|m: Seq<char>|
                    e.message@ == "tiktoken encoding failed: "@ + m,
            },
    {
        match self.tokenized(text) {
            Ok(v) => Ok(v.len()),
            Err(e) => Err(e),
        }
    }

    /// No char offsets are available: always `Ok(None)`.
    pub fn token_to_char(&self, text: &str, token_pos: usize) -> (r: Result<
        Option<usize>,
        TokenProviderError,
    >)
        ensures
            r matches Ok(None),
    {
        Ok(None)
    }

    /// No char offsets are available: always `Ok(None)`.
    pub fn char_to_token(&self, text: &str, char_pos: usize) -> (r: Result<
        Option<usize>,
        TokenProviderError,
    >)
        ensures
            r matches Ok(None),
    {
        Ok(None)
    }

    /// No per-token spans are available: always `Ok(None)`.
    pub fn get_token_spans(&self, text: &str) -> (r: Result<
        Option<Vec<(usize, usize)>>,
        TokenProviderError,
    >)
        ensures
            r matches Ok(None),
    {
        Ok(None)
    }
}

/// The count of a text is the length of its tokenization, and encoding the
/// same text again gives the same ids: `ids` is what `tokenize` returned
/// and `n` what `estimate_token_count` returned for `text` under `enc`.
pub proof fn law_count_matches_tokenize(enc: TiktokenEncoding, text: Seq<char>, ids: Seq<u32>, again: Seq<u32>, n: nat)
    requires
        encoding_ids(enc, text) == Some(ids),
        encoding_ids(enc, text) == Some(again),
        encoding_ids(enc, text) matches Some(all) && n == all.len(),
    ensures
        n == ids.len(),
        ids == again,
{
}

} // verus!
