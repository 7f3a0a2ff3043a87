//! HuggingFace tokenizer provider: token ids with char spans, converted from
//! the tokenizer's UTF-8 byte offsets through [`CharByteMap`].

use vstd::prelude::*;
use crate::offset::{char_starts, CharByteMap};
use crate::token_provider::TokenProviderError;
use crate::utf8_len::utf8_len;

verus! {

#[verifier::external_type_specification]
#[verifier::external_body]
pub struct ExTokenizer(tokenizers::Tokenizer);

/// One token with its half-open char span into the encoded text.
#[derive(Debug, Clone, Copy)]
pub struct TokenWithSpan {
    pub id: u32,
    pub char_start: usize,
    pub char_end: usize,
}

/// The tokens of one text, with their char spans.
#[derive(Debug)]
pub struct TokenizationOutput {
    pub tokens: Vec<TokenWithSpan>,
}

/// `Tokenizer::from_bytes` accepts `bytes` as a tokenizer description.
pub uninterp spec fn tokenizer_loads(bytes: Seq<u8>) -> bool;

/// `Tokenizer::from_bytes`: a tokenizer read from its JSON description, or
/// the error message. It succeeds exactly on the descriptions it accepts;
/// which those are is left to the name.
#[verifier::external_body]
fn tokenizer_from_bytes(bytes: &[u8]) -> (r: Result<tokenizers::Tokenizer, String>)
    ensures
        r is Ok <==> tokenizer_loads(bytes@),
{
    match tokenizers::Tokenizer::from_bytes(bytes) {
        Ok(t) => Ok(t),
        Err(e) => Err(e.to_string()),
    }
}

/// `Tokenizer::encode` without special tokens: the token ids and their
/// UTF-8 byte offsets into `text`, or the error message. What the
/// tokenizer produces is not stated; the caller checks the offsets.
#[verifier::external_body]
fn encode_text(t: &tokenizers::Tokenizer, text: &str) -> (r: Result<
    (Vec<u32>, Vec<(usize, usize)>),
    String,
>) {
    match t.encode(text, false) {
        Ok(enc) => Ok((enc.get_ids().to_vec(), enc.get_offsets().to_vec())),
        Err(e) => Err(e.to_string()),
    }
}

/// The char index at which byte offset `b` starts a char of `text` (or is
/// the end of `text`).
pub open spec fn char_index_of(text: Seq<char>, b: usize) -> int {
    choose|c: int| 0 <= c < char_starts(text).len() && char_starts(text)[c] == b
}

/// A byte span converts: it is the special-token span `(0, 0)`, or both ends
/// are char boundaries of `text` and start does not exceed end.
pub open spec fn span_converts(text: Seq<char>, off: (usize, usize)) -> bool {
    off == (0usize, 0usize) || (char_starts(text).contains(off.0) && char_starts(text).contains(
        off.1,
    ) && off.0 <= off.1)
}

/// The char span of a converting byte span: `(0, 0)` for special tokens.
pub open spec fn char_span_of(text: Seq<char>, off: (usize, usize)) -> (int, int) {
    if off == (0usize, 0usize) {
        (0, 0)
    } else {
        (char_index_of(text, off.0), char_index_of(text, off.1))
    }
}

/// The view of a token: id, char start, char end.
pub open spec fn token_view(t: TokenWithSpan) -> (u32, int, int) {
    (t.id, t.char_start as int, t.char_end as int)
}

impl View for TokenizationOutput {
    type V = Seq<(u32, int, int)>;

    open spec fn view(&self) -> Seq<(u32, int, int)> {
        self.tokens@.map_values(|t: TokenWithSpan| token_view(t))
    }
}

/// `out` is the tokenization of `text` given by ids and byte offsets.
pub open spec fn tokenization_of(
    text: Seq<char>,
    ids: Seq<u32>,
    offsets: Seq<(usize, usize)>,
    out: Seq<(u32, int, int)>,
) -> bool {
    &&& out.len() == ids.len()
    &&& forall|k: int|
        0 <= k < out.len() ==> #[trigger] out[k] == (
            ids[k],
            char_span_of(text, offsets[k]).0,
            char_span_of(text, offsets[k]).1,
        )
}

/// The message of an ids/offsets count mismatch.
pub open spec fn count_mismatch_message() -> Seq<char> {
    "tokenizer returned different numbers of ids and offsets"@
}

/// The message of an offset that is not a char boundary.
pub open spec fn boundary_message() -> Seq<char> {
    "token offset is not a char boundary"@
}

/// The messages a tokenization fails with: the tokenizer's own error after
/// `tokenization failed: `, or one of the conversion failures.
pub open spec fn tokenization_failure(m: Seq<char>) -> bool {
    ||| exists|e: Seq<char>| m == "tokenization failed: "@ + e
    ||| m == count_mismatch_message()
    ||| m == boundary_message()
}

/// `out` converts some ids and byte offsets of `text`.
pub open spec fn converts_some_encoding(text: Seq<char>, out: Seq<(u32, int, int)>) -> bool {
    exists|ids: Seq<u32>, offsets: Seq<(usize, usize)>|
        #[trigger] tokenization_of(text, ids, offsets, out)
}

/// `out` is a tokenization the loaded tokenizer may give `text`: it
/// converts some encoding of `text`, and its spans lie within `text`.
pub open spec fn encodes(text: Seq<char>, out: Seq<(u32, int, int)>) -> bool {
    converts_some_encoding(text, out) && spans_within(out, text.len() as int)
}

/// The ids of a tokenization.
pub open spec fn ids_of(out: Seq<(u32, int, int)>) -> Seq<u32> {
    out.map_values(|t: (u32, int, int)| t.0)
}

/// The char spans of a tokenization.
pub open spec fn spans_of(out: Seq<(u32, int, int)>) -> Seq<(usize, usize)> {
    out.map_values(|t: (u32, int, int)| (t.1 as usize, t.2 as usize))
}

/// The char start of token `pos` of a tokenization, if there is one.
pub open spec fn char_of_token(out: Seq<(u32, int, int)>, pos: int) -> Option<usize> {
    if 0 <= pos < out.len() {
        Some(out[pos].1 as usize)
    } else {
        None
    }
}

/// The token holding char `pos` as [`token_at_char`] picks it, as an index.
pub open spec fn token_index_at_char(out: Seq<(u32, int, int)>, pos: int) -> Option<usize> {
    match token_at_char(out, pos) {
        Some(k) => Some(k as usize),
        None => None,
    }
}

/// Every span of `out` lies within the `n` chars of a text.
pub open spec fn spans_within(out: Seq<(u32, int, int)>, n: int) -> bool {
    forall|k: int| 0 <= k < out.len() ==> 0 <= #[trigger] out[k].1 <= out[k].2 <= n
}

proof fn lemma_index_of_start(m: CharByteMap, text: Seq<char>, c: int)
    requires
        m.is_map_of(text),
        utf8_len(text) <= usize::MAX,
        0 <= c < m@.len(),
    ensures
        char_index_of(text, m@[c]) == c,
{
    let b = m@[c];
    assert(char_starts(text)[c] == b);
    let d = char_index_of(text, b);
    crate::offset::law_byte_to_char_of_char_start(m, text, d, c);
}

/// Convert an encoding's ids and byte offsets into tokens with char spans.
/// Fails when the two lists differ in length or an offset does not convert.
pub fn tokens_from_encoding(text: &str, ids: &Vec<u32>, offsets: &Vec<(usize, usize)>) -> (r:
    Result<TokenizationOutput, TokenProviderError>)
    ensures
        r is Ok <==> (ids@.len() == offsets@.len() && forall|k: int|
            0 <= k < offsets@.len() ==> span_converts(text@, #[trigger] offsets@[k])),
        r matches Ok(out) ==> tokenization_of(text@, ids@, offsets@, out@) && spans_within(
            out@,
            text@.len() as int,
        ),
        r matches Err(e) ==> e.message@ == (if ids@.len() != offsets@.len() {
            count_mismatch_message()
        } else {
            boundary_message()
        }),
{
    if ids.len() != offsets.len() {
        return Err(TokenProviderError::msg("tokenizer returned different numbers of ids and offsets"));
    }
    let bytes_len: usize = text.as_bytes().len();
    assert(utf8_len(text@) == bytes_len);
    let map = CharByteMap::new(text);
    let ghost starts = char_starts(text@);
    let mut tokens: Vec<TokenWithSpan> = Vec::new();
    let mut k: usize = 0;
    while k < ids.len()
        invariant
            ids@.len() == offsets@.len(),
            map.is_map_of(text@),
            starts == char_starts(text@),
            utf8_len(text@) <= usize::MAX,
            k <= ids@.len(),
            tokens@.len() == k,
            forall|j: int| 0 <= j < k ==> span_converts(text@, #[trigger] offsets@[j]),
            forall|j: int|
                0 <= j < k ==> #[trigger] token_view(tokens@[j]) == (
                    ids@[j],
                    char_span_of(text@, offsets@[j]).0,
                    char_span_of(text@, offsets@[j]).1,
                ),
            forall|j: int|
                0 <= j < k ==> 0 <= (#[trigger] tokens@[j]).char_start <= tokens@[j].char_end
                    <= text@.len(),
        decreases ids.len() - k,
    {
        let (bs, be) = offsets[k];
        let (cs, ce) = if bs == 0 && be == 0 {
            (0usize, 0usize)
        } else {
            match map.byte_range_to_char_range(bs, be) {
                Ok(r) => r,
                Err(_) => {
                    proof {
                        assert(!span_converts(text@, offsets@[k as int]));
                    }
                    return Err(TokenProviderError::msg("token offset is not a char boundary"));
                },
            }
        };
        proof {
            if !(bs == 0 && be == 0) {
                lemma_index_of_start(map, text@, cs as int);
                lemma_index_of_start(map, text@, ce as int);
            }
        }
        tokens.push(TokenWithSpan { id: ids[k], char_start: cs, char_end: ce });
        k = k + 1;
    }
    let out = TokenizationOutput { tokens };
    proof {
        assert forall|j: int| 0 <= j < out@.len() implies #[trigger] out@[j] == (
            ids@[j],
            char_span_of(text@, offsets@[j]).0,
            char_span_of(text@, offsets@[j]).1,
        ) by {
            assert(out@[j] == token_view(out.tokens@[j]));
        }
        assert forall|j: int| 0 <= j < out@.len() implies 0 <= #[trigger] out@[j].1 <= out@[j].2
            <= text@.len() by {
            assert(out@[j] == token_view(out.tokens@[j]));
        }
    }
    Ok(out)
}

/// The token whose span holds char `pos`: the first such; past every span,
/// the last token; `None` when there is no token.
pub open spec fn token_at_char(out: Seq<(u32, int, int)>, pos: int) -> Option<int> {
    if exists|k: int| 0 <= k < out.len() && out[k].1 <= pos < #[trigger] out[k].2 {
        Some(choose|k: int| first_holding(out, pos, k))
    } else if out.len() > 0 {
        Some(out.len() - 1)
    } else {
        None
    }
}

/// `k` is the first token whose span holds char `pos`.
pub open spec fn first_holding(out: Seq<(u32, int, int)>, pos: int, k: int) -> bool {
    &&& 0 <= k < out.len()
    &&& out[k].1 <= pos < out[k].2
    &&& forall|j: int| 0 <= j < k ==> !(out[j].1 <= pos < #[trigger] out[j].2)
}

impl TokenizationOutput {
    /// The token ids.
    pub fn ids(&self) -> (r: Vec<u32>)
        ensures
            r@.len() == self@.len(),
            forall|k: int| 0 <= k < r@.len() ==> r@[k] == #[trigger] self@[k].0,
    {
        let mut r: Vec<u32> = Vec::new();
        let mut k: usize = 0;
        while k < self.tokens.len()
            invariant
                k <= self.tokens@.len(),
                r@.len() == k,
                forall|j: int| 0 <= j < k ==> r@[j] == #[trigger] self.tokens@[j].id,
            decreases self.tokens.len() - k,
        {
            r.push(self.tokens[k].id);
            k = k + 1;
        }
        proof {
            assert forall|j: int| 0 <= j < r@.len() implies r@[j] == #[trigger] self@[j].0 by {
                assert(self@[j] == token_view(self.tokens@[j]));
            }
        }
        r
    }

    /// The char spans of the tokens.
    pub fn spans(&self) -> (r: Vec<(usize, usize)>)
        ensures
            r@.len() == self@.len(),
            forall|k: int|
                0 <= k < r@.len() ==> r@[k].0 == (#[trigger] self@[k]).1 && r@[k].1 == self@[k].2,
    {
        let mut r: Vec<(usize, usize)> = Vec::new();
        let mut k: usize = 0;
        while k < self.tokens.len()
            invariant
                k <= self.tokens@.len(),
                r@.len() == k,
                forall|j: int|
                    0 <= j < k ==> r@[j] == (
                        (#[trigger] self.tokens@[j]).char_start,
                        self.tokens@[j].char_end,
                    ),
            decreases self.tokens.len() - k,
        {
            r.push((self.tokens[k].char_start, self.tokens[k].char_end));
            k = k + 1;
        }
        proof {
            assert forall|j: int| 0 <= j < r@.len() implies r@[j].0 == (#[trigger] self@[j]).1
                && r@[j].1 == self@[j].2 by {
                assert(self@[j] == token_view(self.tokens@[j]));
                assert(r@[j] == (self.tokens@[j].char_start, self.tokens@[j].char_end));
            }
        }
        r
    }

    /// The char start of token `pos`, if there is such a token.
    pub fn token_to_char(&self, pos: usize) -> (r: Option<usize>)
        ensures
            match r {
                Some(c) => pos < self@.len() && c == self@[pos as int].1,
                None => pos >= self@.len(),
            },
    {
        if pos < self.tokens.len() {
            assert(self@[pos as int] == token_view(self.tokens@[pos as int]));
            Some(self.tokens[pos].char_start)
        } else {
            None
        }
    }

    /// The token whose span holds char `pos` (the first such); past every
    /// span the last token; `None` when there is no token.
    pub fn char_to_token(&self, pos: usize) -> (r: Option<usize>)
        ensures
            match r {
                Some(k) => token_at_char(self@, pos as int) == Some(k as int),
                None => token_at_char(self@, pos as int) is None,
            },
    {
        let ghost v = self@;
        let mut k: usize = 0;
        while k < self.tokens.len()
            invariant
                v == self@,
                k <= self.tokens@.len(),
                forall|j: int| 0 <= j < k ==> !(v[j].1 <= pos < #[trigger] v[j].2),
            decreases self.tokens.len() - k,
        {
            let t = self.tokens[k];
            assert(v[k as int] == token_view(self.tokens@[k as int]));
            if pos >= t.char_start && pos < t.char_end {
                proof {
                    assert(first_holding(v, pos as int, k as int));
                    let c = choose|c: int| first_holding(v, pos as int, c);
                    if c < k {
                        assert(!(v[c].1 <= pos < v[c].2));
                    } else if k < c {
                        assert(!(v[k as int].1 <= pos < v[k as int].2));
                    }
                }
                return Some(k);
            }
            k = k + 1;
        }
        proof {
            if exists|j: int| 0 <= j < v.len() && v[j].1 <= pos < #[trigger] v[j].2 {
                let j = choose|j: int| 0 <= j < v.len() && v[j].1 <= pos < #[trigger] v[j].2;
                assert(!(v[j].1 <= pos < v[j].2));
            }
        }
        if self.tokens.len() > 0 {
            Some(self.tokens.len() - 1)
        } else {
            None
        }
    }
}

/// HuggingFace tokenizer-backed token provider.
pub struct HfTokenProvider {
    tokenizer: tokenizers::Tokenizer,
}

impl HfTokenProvider {
    /// Load a tokenizer from the bytes of its `tokenizer.json`.
    pub fn from_bytes(bytes: &[u8]) -> (r: Result<Self, TokenProviderError>)
        ensures
            r is Ok <==> tokenizer_loads(bytes@),
            r matches Err(e) ==> exists|m: Seq<char>| e.message@ == "failed to load tokenizer: "@ + m,
    {
        match tokenizer_from_bytes(bytes) {
            Ok(tokenizer) => Ok(HfTokenProvider { tokenizer }),
            Err(e) => {
                let mut m = crate::text::string_of("failed to load tokenizer: ");
                crate::text::push_str(&mut m, e.as_str());
                Err(TokenProviderError { message: m })
            },
        }
    }

    /// Encode `text` into tokens with char spans. The tokens are some
    /// tokenization of `text` by the loaded tokenizer: their spans lie
    /// within `text`.
    pub fn tokenized(&self, text: &str) -> (r: Result<TokenizationOutput, TokenProviderError>)
        ensures
            r matches Ok(out) ==> spans_within(out@, text@.len() as int) && converts_some_encoding(
                text@,
                out@,
            ),
            r matches Err(e) ==> tokenization_failure(e.message@),
    {
        match encode_text(&self.tokenizer, text) {
            Ok((ids, offsets)) => {
                let r = tokens_from_encoding(text, &ids, &offsets);
                proof {
                    if r is Ok {
                        assert(tokenization_of(text@, ids@, offsets@, r->Ok_0@));
                    }
                }
                r
            },
            Err(e) => {
                let mut m = crate::text::string_of("tokenization failed: ");
                crate::text::push_str(&mut m, e.as_str());
                Err(TokenProviderError { message: m })
            },
        }
    }

    /// The token ids of `text`.
    pub fn tokenize(&self, text: &str) -> (r: Result<Vec<u32>, TokenProviderError>)
        ensures
            r matches Ok(ids) ==> exists|out: Seq<(u32, int, int)>| #[trigger] encodes(text@, out) && ids@ == ids_of(out),
            r matches Err(e) ==> tokenization_failure(e.message@),
    {
        match self.tokenized(text) {
            Ok(out) => {
                let ids = out.ids();
                proof {
                    assert(ids@ =~= ids_of(out@));
                    assert(encodes(text@, out@));
                }
                Ok(ids)
            },
            Err(e) => Err(e),
        }
    }

    /// The exact token count of `text`.
    pub fn estimate_token_count(&self, text: &str) -> (r: Result<usize, TokenProviderError>)
        ensures
            r matches Ok(n) ==> exists|out: Seq<(u32, int, int)>| #[trigger] encodes(text@, out) && n == out.len(),
            r matches Err(e) ==> tokenization_failure(e.message@),
    {
        match self.tokenized(text) {
            Ok(out) => {
                proof {
                    assert(encodes(text@, out@));
                }
                Ok(out.tokens.len())
            },
            Err(e) => Err(e),
        }
    }

    /// The char start of token `token_pos` of `text`, if it exists.
    pub fn token_to_char(&self, text: &str, token_pos: usize) -> (r: Result<
        Option<usize>,
        TokenProviderError,
    >)
        ensures
            r matches Ok(c) ==> exists|out: Seq<(u32, int, int)>| #[trigger] encodes(text@, out) && c == char_of_token(out, token_pos as int),
            r matches Ok(Some(c)) ==> c <= text@.len(),
            r matches Err(e) ==> tokenization_failure(e.message@),
    {
        match self.tokenized(text) {
            Ok(out) => {
                let r = out.token_to_char(token_pos);
                proof {
                    if r is Some {
                        assert(0 <= out@[token_pos as int].1 <= out@[token_pos as int].2);
                    }
                    assert(encodes(text@, out@));
                    assert(r == char_of_token(out@, token_pos as int));
                }
                Ok(r)
            },
            Err(e) => Err(e),
        }
    }

    /// The token of `text` whose span holds char `char_pos`, clamped to the
    /// last token past the end.
    pub fn char_to_token(&self, text: &str, char_pos: usize) -> (r: Result<
        Option<usize>,
        TokenProviderError,
    >)
        ensures
            r matches Ok(k) ==> exists|out: Seq<(u32, int, int)>| #[trigger] encodes(text@, out) && k == token_index_at_char(out, char_pos as int),
            r matches Err(e) ==> tokenization_failure(e.message@),
    {
        match self.tokenized(text) {
            Ok(out) => {
                let k = out.char_to_token(char_pos);
                proof {
                    assert(encodes(text@, out@));
                    assert(k == token_index_at_char(out@, char_pos as int));
                }
                Ok(k)
            },
            Err(e) => Err(e),
        }
    }

    /// The char spans of the tokens of `text`.
    pub fn get_token_spans(&self, text: &str) -> (r: Result<
        Option<Vec<(usize, usize)>>,
        TokenProviderError,
    >)
        ensures
            r matches Ok(s) ==> s matches Some(v) && forall|k: int|
                0 <= k < v@.len() ==> (#[trigger] v@[k]).0 <= v@[k].1 <= text@.len(),
            r matches Ok(s) ==> exists|out: Seq<(u32, int, int)>| #[trigger] encodes(text@, out) && (s matches Some(v) && v@ == spans_of(out)),
            r matches Err(e) ==> tokenization_failure(e.message@),
    {
        match self.tokenized(text) {
            Ok(out) => {
                let v = out.spans();
                proof {
                    assert forall|k: int| 0 <= k < v@.len() implies (#[trigger] v@[k]).0
                        <= v@[k].1 <= text@.len() by {
                        assert(0 <= out@[k].1 <= out@[k].2 <= text@.len());
                    }
                    assert(encodes(text@, out@));
                    assert(v@ =~= spans_of(out@));
                }
                Ok(Some(v))
            },
            Err(e) => Err(e),
        }
    }
}

} // verus!
