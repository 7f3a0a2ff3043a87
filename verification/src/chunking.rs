//! Text chunking for the embedding runner.
//!
//! A short text becomes one whole-text chunk. A longer one is split by a
//! hierarchical chunker (run by the caller with a ~4 chars/token
//! estimate); [`finalize_chunks`] then clamps its ranges to the text and
//! rebuilds every chunk's content from the source chars, so `content` always
//! equals the char slice `[char_start, char_end)` of the input.

use vstd::prelude::*;
use crate::text::{all_whitespace, all_whitespace_exec, chars_of, string_from_range};
use crate::token_provider::TokenProviderError;

verus! {

/// A single chunk of the source text. `char_start`/`char_end` are half-open
/// char (not byte) indices into the original input text.
#[derive(Debug, Clone, PartialEq)]
pub struct ChunkResult {
    pub content: String,
    pub char_start: usize,
    pub char_end: usize,
}

/// Token-length estimation strategy usable by the chunker.
#[derive(Debug, Clone, Copy, PartialEq, Eq)]
pub enum TokenEstimationStrategy {
    /// ~4 chars/token, no tokenizer required.
    CharacterEstimation,
}

/// Resolved chunking parameters.
#[derive(Debug, Clone, Copy)]
pub struct ResolvedChunkingConfig {
    pub max_chunk_tokens: u32,
    pub min_chunk_tokens: u32,
    pub token_estimation: TokenEstimationStrategy,
}

impl Default for ResolvedChunkingConfig {
    /// 512 max tokens, no minimum, character estimation.
    fn default() -> (c: Self)
        ensures
            c.max_chunk_tokens == 512,
            c.min_chunk_tokens == 0,
            c.token_estimation == TokenEstimationStrategy::CharacterEstimation,
    {
        ResolvedChunkingConfig {
            max_chunk_tokens: 512,
            min_chunk_tokens: 0,
            token_estimation: TokenEstimationStrategy::CharacterEstimation,
        }
    }
}

/// Token provider used when the chunker runs purely on character
/// estimation, which never calls it: every method fails so that an
/// accidental call is loud.
#[derive(Debug, Default, Clone, Copy)]
pub struct NoopTokenProvider;

/// The message of the error every [`NoopTokenProvider`] method returns.
pub open spec fn noop_message() -> Seq<char> {
    "NoopTokenProvider must not be called (CharacterEstimation fallback only)"@
}

/// The error every [`NoopTokenProvider`] method returns.
pub fn noop_provider_err<T>() -> (r: Result<T, TokenProviderError>)
    ensures
        r matches Err(e) && e.message@ == noop_message(),
{
    Err(
        TokenProviderError::msg(
            "NoopTokenProvider must not be called (CharacterEstimation fallback only)",
        ),
    )
}

impl NoopTokenProvider {
    pub fn tokenize(&self, _text: &str) -> (r: Result<Vec<u32>, TokenProviderError>)
        ensures
            r matches Err(e) && e.message@ == noop_message(),
    {
        noop_provider_err()
    }

    pub fn estimate_token_count(&self, _text: &str) -> (r: Result<usize, TokenProviderError>)
        ensures
            r matches Err(e) && e.message@ == noop_message(),
    {
        noop_provider_err()
    }

    pub fn token_to_char(&self, _text: &str, _token_pos: usize) -> (r: Result<
        Option<usize>,
        TokenProviderError,
    >)
        ensures
            r matches Err(e) && e.message@ == noop_message(),
    {
        noop_provider_err()
    }

    pub fn char_to_token(&self, _text: &str, _char_pos: usize) -> (r: Result<
        Option<usize>,
        TokenProviderError,
    >)
        ensures
            r matches Err(e) && e.message@ == noop_message(),
    {
        noop_provider_err()
    }

    pub fn get_token_spans(&self, _text: &str) -> (r: Result<
        Option<Vec<(usize, usize)>>,
        TokenProviderError,
    >)
        ensures
            r matches Err(e) && e.message@ == noop_message(),
    {
        noop_provider_err()
    }
}

/// ceil(chars / 4).
pub open spec fn estimate_tokens_spec(char_count: int) -> int {
    (char_count + 3) / 4
}

/// Rough char-count to token-count estimate (~4 chars/token).
pub fn estimate_tokens(char_count: usize) -> (t: usize)
    ensures
        t == estimate_tokens_spec(char_count as int),
{
    char_count / 4 + if char_count % 4 == 0 { 0 } else { 1 }
}

/// Why chunking failed.
#[derive(Debug, PartialEq, Eq)]
pub enum ChunkingError {
    /// The input is empty or whitespace only.
    EmptyInput,
    /// The hierarchical chunker could not be set up.
    ChunkerInit(String),
    /// The hierarchical chunker failed.
    ChunkingFailed(String),
    /// Every range the chunker produced was empty after clamping.
    NoChunks,
}

/// A failure reported by the hierarchical chunker.
#[derive(Debug, PartialEq, Eq)]
pub enum ChunkerError {
    /// The chunker could not be set up.
    Init(String),
    /// The chunker failed while splitting.
    Failed(String),
}

/// What to do with a text: keep it whole, or run the hierarchical chunker.
#[derive(Debug)]
pub enum ChunkPlan {
    Whole(ChunkResult),
    NeedsChunker,
}

/// Decide how `text` is chunked: whitespace-only input is rejected, a text
/// whose estimate fits `max_chunk_tokens` is one chunk spanning it whole,
/// anything else goes to the hierarchical chunker.
pub fn plan_chunks(text: &str, config: &ResolvedChunkingConfig) -> (r: Result<
    ChunkPlan,
    ChunkingError,
>)
    ensures
        all_whitespace(text@) <==> r == Err::<ChunkPlan, ChunkingError>(ChunkingError::EmptyInput),
        !all_whitespace(text@) && estimate_tokens_spec(text@.len() as int)
            <= config.max_chunk_tokens ==> (r matches Ok(ChunkPlan::Whole(c)) && c.content@
            == text@ && c.char_start == 0 && c.char_end == text@.len()),
        !all_whitespace(text@) && estimate_tokens_spec(text@.len() as int)
            > config.max_chunk_tokens ==> (r matches Ok(ChunkPlan::NeedsChunker)),
{
    let chars = chars_of(text);
    if all_whitespace_exec(&chars) {
        return Err(ChunkingError::EmptyInput);
    }
    let total = chars.len();
    if estimate_tokens(total) <= config.max_chunk_tokens as usize {
        let content = string_from_range(&chars, 0, total);
        assert(chars@.subrange(0, total as int) =~= text@);
        return Ok(ChunkPlan::Whole(ChunkResult { content, char_start: 0, char_end: total }));
    }
    Ok(ChunkPlan::NeedsChunker)
}

/// A raw chunker range clamped into `[0, n]`, with `end >= start`.
pub open spec fn clamp_range(n: int, r: (usize, usize)) -> (int, int) {
    let s = if r.0 <= n { r.0 as int } else { n };
    let e0 = if r.1 <= n { r.1 as int } else { n };
    let e = if e0 >= s { e0 } else { s };
    (s, e)
}

/// The non-empty clamped ranges of `raw`, in order.
pub open spec fn kept_ranges(n: int, raw: Seq<(usize, usize)>) -> Seq<(int, int)>
    decreases raw.len(),
{
    if raw.len() == 0 {
        Seq::empty()
    } else {
        let rest = kept_ranges(n, raw.drop_last());
        let c = clamp_range(n, raw.last());
        if c.0 < c.1 {
            rest.push(c)
        } else {
            rest
        }
    }
}

/// `chunks` are exactly the kept ranges of `raw` over `text`, each with its
/// content rebuilt from the source chars.
pub open spec fn chunks_match(text: Seq<char>, raw: Seq<(usize, usize)>, chunks: Seq<ChunkResult>) -> bool {
    let k = kept_ranges(text.len() as int, raw);
    &&& chunks.len() == k.len()
    &&& forall|i: int|
        0 <= i < chunks.len() ==> {
            &&& #[trigger] chunks[i].char_start == k[i].0
            &&& chunks[i].char_end == k[i].1
            &&& chunks[i].content@ == text.subrange(k[i].0, k[i].1)
        }
}

/// Turn the chunker's raw char ranges into chunks of `text`: ranges are
/// clamped to the text, empty ones dropped, and contents rebuilt from the
/// source chars. Fails when nothing is left.
pub fn finalize_chunks(text: &str, raw: &Vec<(usize, usize)>) -> (r: Result<
    Vec<ChunkResult>,
    ChunkingError,
>)
    ensures
        r matches Ok(v) ==> chunks_match(text@, raw@, v@) && v@.len() > 0,
        r is Err <==> kept_ranges(text@.len() as int, raw@).len() == 0,
        r is Err ==> r == Err::<Vec<ChunkResult>, ChunkingError>(ChunkingError::NoChunks),
{
    let chars = chars_of(text);
    let total = chars.len();
    let mut out: Vec<ChunkResult> = Vec::new();
    let mut i: usize = 0;
    while i < raw.len()
        invariant
            chars@ == text@,
            total == text@.len(),
            i <= raw@.len(),
            chunks_match(text@, raw@.take(i as int), out@),
        decreases raw.len() - i,
    {
        let ghost prev = out@;
        let (s, e) = raw[i];
        let char_start = if s <= total { s } else { total };
        let e0 = if e <= total { e } else { total };
        let char_end = if e0 >= char_start { e0 } else { char_start };
        let ghost c = clamp_range(total as int, raw@[i as int]);
        let ghost k0 = kept_ranges(total as int, raw@.take(i as int));
        proof {
            assert(raw@.take(i + 1).drop_last() =~= raw@.take(i as int));
            assert(raw@.take(i + 1).last() == raw@[i as int]);
            assert(c == (char_start as int, char_end as int));
            assert(kept_ranges(total as int, raw@.take(i + 1)) == if c.0 < c.1 {
                k0.push(c)
            } else {
                k0
            });
        }
        if char_start < char_end {
            let content = string_from_range(&chars, char_start, char_end);
            out.push(ChunkResult { content, char_start, char_end });
            proof {
                let k = kept_ranges(total as int, raw@.take(i + 1));
                assert forall|j: int| 0 <= j < out@.len() implies {
                    &&& #[trigger] out@[j].char_start == k[j].0
                    &&& out@[j].char_end == k[j].1
                    &&& out@[j].content@ == text@.subrange(k[j].0, k[j].1)
                } by {
                    if j < prev.len() {
                        assert(out@[j] == prev[j]);
                        assert(k[j] == k0[j]);
                        assert(prev[j].char_start == k0[j].0);
                    } else {
                        assert(k[j] == c);
                    }
                }
                assert(chunks_match(text@, raw@.take(i + 1), out@));
            }
        } else {
            proof {
                assert(kept_ranges(total as int, raw@.take(i + 1)) == k0);
                assert(chunks_match(text@, raw@.take(i + 1), out@));
            }
        }
        i = i + 1;
    }
    proof {
        assert(raw@.take(i as int) =~= raw@);
    }
    if out.len() == 0 {
        return Err(ChunkingError::NoChunks);
    }
    Ok(out)
}

/// Every chunk is a non-empty char range of `text` whose content is exactly
/// that slice.
pub open spec fn valid_chunks(text: Seq<char>, chunks: Seq<ChunkResult>) -> bool {
    forall|i: int|
        0 <= i < chunks.len() ==> {
            &&& #[trigger] chunks[i].char_start < chunks[i].char_end
            &&& chunks[i].char_end <= text.len()
            &&& chunks[i].content@ == text.subrange(
                chunks[i].char_start as int,
                chunks[i].char_end as int,
            )
        }
}

/// Kept ranges are non-empty and lie within the text.
proof fn lemma_kept_ranges_bounds(n: int, raw: Seq<(usize, usize)>)
    requires
        0 <= n,
    ensures
        forall|i: int|
            0 <= i < kept_ranges(n, raw).len() ==> 0 <= #[trigger] kept_ranges(n, raw)[i].0
                < kept_ranges(n, raw)[i].1 <= n,
    decreases raw.len(),
{
    if raw.len() > 0 {
        lemma_kept_ranges_bounds(n, raw.drop_last());
        let rest = kept_ranges(n, raw.drop_last());
        let c = clamp_range(n, raw.last());
        if c.0 < c.1 {
            assert forall|i: int| 0 <= i < rest.push(c).len() implies 0 <= #[trigger] rest.push(c)[i].0
                < rest.push(c)[i].1 <= n by {
                if i < rest.len() {
                    assert(rest.push(c)[i] == rest[i]);
                }
            }
        }
    }
}

/// Finalized chunks are valid chunks of the text.
pub proof fn lemma_finalized_valid(text: Seq<char>, raw: Seq<(usize, usize)>, chunks: Seq<ChunkResult>)
    requires
        chunks_match(text, raw, chunks),
    ensures
        valid_chunks(text, chunks),
{
    lemma_kept_ranges_bounds(text.len() as int, raw);
    let k = kept_ranges(text.len() as int, raw);
    assert forall|i: int| 0 <= i < chunks.len() implies {
        &&& #[trigger] chunks[i].char_start < chunks[i].char_end
        &&& chunks[i].char_end <= text.len()
        &&& chunks[i].content@ == text.subrange(
            chunks[i].char_start as int,
            chunks[i].char_end as int,
        )
    } by {
        assert(0 <= k[i].0 < k[i].1 <= text.len());
    }
}

/// `cs` are chunks that `chunk_text` may give `text`: valid and non-empty;
/// the whole text as one chunk when its estimate fits `max_chunk_tokens`;
/// else exactly the kept ranges of some ranges the chunker may return.
pub open spec fn text_chunks<F>(
    text: &str,
    config: ResolvedChunkingConfig,
    chunker: F,
    cs: Seq<ChunkResult>,
) -> bool where F: Fn(&str, u32, u32) -> Result<Vec<(usize, usize)>, ChunkerError> {
    &&& !all_whitespace(text@)
    &&& cs.len() > 0
    &&& valid_chunks(text@, cs)
    &&& estimate_tokens_spec(text@.len() as int) <= config.max_chunk_tokens ==> (cs.len() == 1
        && cs[0].char_start == 0 && cs[0].char_end == text@.len())
    &&& estimate_tokens_spec(text@.len() as int) > config.max_chunk_tokens ==> exists|
        raw: Vec<(usize, usize)>,
    |
        #[trigger] chunker.ensures(
            (text, config.max_chunk_tokens, config.min_chunk_tokens),
            Ok::<Vec<(usize, usize)>, ChunkerError>(raw),
        ) && chunks_match(text@, raw@, cs)
}

/// `e` is an error `chunk_text` may give `text`: `EmptyInput` for blank
/// text; otherwise, above the limit, the chunker's own failure, or
/// `NoChunks` when every range it returned is empty after clamping.
pub open spec fn chunk_failure<F>(
    text: &str,
    config: ResolvedChunkingConfig,
    chunker: F,
    e: ChunkingError,
) -> bool where F: Fn(&str, u32, u32) -> Result<Vec<(usize, usize)>, ChunkerError> {
    let args = (text, config.max_chunk_tokens, config.min_chunk_tokens);
    if all_whitespace(text@) {
        e == ChunkingError::EmptyInput
    } else {
        &&& estimate_tokens_spec(text@.len() as int) > config.max_chunk_tokens
        &&& match e {
            ChunkingError::ChunkerInit(m) => chunker.ensures(
                args,
                Err::<Vec<(usize, usize)>, ChunkerError>(ChunkerError::Init(m)),
            ),
            ChunkingError::ChunkingFailed(m) => chunker.ensures(
                args,
                Err::<Vec<(usize, usize)>, ChunkerError>(ChunkerError::Failed(m)),
            ),
            ChunkingError::NoChunks => exists|raw: Vec<(usize, usize)>|
                #[trigger] chunker.ensures(args, Ok::<Vec<(usize, usize)>, ChunkerError>(raw))
                    && kept_ranges(text@.len() as int, raw@).len() == 0,
            ChunkingError::EmptyInput => false,
        }
    }
}

/// Split `text` into chunks per `config`. A whitespace-only text is
/// rejected; a text whose estimate fits `max_chunk_tokens` is one chunk
/// spanning it whole; otherwise `chunker(text, max, min)` proposes char
/// ranges, which are clamped and turned into chunks whose contents are
/// rebuilt from the source chars. Whatever the chunker returns, every chunk
/// is a non-empty slice of `text` with exactly that content.
pub fn chunk_text<F>(text: &str, config: &ResolvedChunkingConfig, chunker: &F) -> (r: Result<
    Vec<ChunkResult>,
    ChunkingError,
>) where F: Fn(&str, u32, u32) -> Result<Vec<(usize, usize)>, ChunkerError>
    requires
        forall|t: &str, max: u32, min: u32| #[trigger] chunker.requires((t, max, min)),
    ensures
        all_whitespace(text@) <==> r == Err::<Vec<ChunkResult>, ChunkingError>(ChunkingError::EmptyInput),
        r matches Ok(v) ==> v@.len() > 0 && valid_chunks(text@, v@),
        !all_whitespace(text@) && estimate_tokens_spec(text@.len() as int)
            <= config.max_chunk_tokens ==> (r matches Ok(v) && v@.len() == 1 && v@[0].char_start
            == 0 && v@[0].char_end == text@.len()),
        !all_whitespace(text@) && estimate_tokens_spec(text@.len() as int)
            > config.max_chunk_tokens ==> (r matches Ok(v) ==> exists|raw: Vec<(usize, usize)>|
            #[trigger] chunker.ensures((text, config.max_chunk_tokens, config.min_chunk_tokens), Ok::<Vec<(usize, usize)>, ChunkerError>(raw))
            && chunks_match(text@, raw@, v@)),
        r matches Ok(v) ==> text_chunks(text, *config, *chunker, v@),
        r matches Err(e) ==> chunk_failure(text, *config, *chunker, e),
{
    match plan_chunks(text, config) {
        Err(e) => Err(e),
        Ok(ChunkPlan::Whole(c)) => {
            let mut v: Vec<ChunkResult> = Vec::new();
            proof {
                assert(!all_whitespace(text@));
            }
            v.push(c);
            proof {
                if text@.len() == 0 {
                    assert(all_whitespace(text@));
                }
                assert(v@[0].content@ == text@.subrange(0, text@.len() as int));
            }
            Ok(v)
        },
        Ok(ChunkPlan::NeedsChunker) => {
            let res = chunker(text, config.max_chunk_tokens, config.min_chunk_tokens);
            let raw = match res {
                Ok(raw) => raw,
                Err(ChunkerError::Init(m)) => return Err(ChunkingError::ChunkerInit(m)),
                Err(ChunkerError::Failed(m)) => return Err(ChunkingError::ChunkingFailed(m)),
            };
            let r = finalize_chunks(text, &raw);
            proof {
                if let Ok(v) = &r {
                    lemma_finalized_valid(text@, raw@, v@);
                }
            }
            r
        },
    }
}

} // verus!
