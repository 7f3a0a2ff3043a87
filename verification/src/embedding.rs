//! Provider-neutral embedding types and the small rules shared by the
//! embedding backends: truncation mapping, usage aggregation, error
//! classification and chunking-config resolution.

use vstd::prelude::*;
use crate::text::{
    ascii_lower, ascii_upper, chars_of, contains_chars, seq_contains, str_eq, string_of,
    push_str, to_ascii_lowercase, to_ascii_uppercase,
};

verus! {

/// Provider-neutral embedding request options. `truncate` stays the
/// provider-neutral string ("NONE" / "START" / "END"); each backend maps it.
#[derive(Debug, Default)]
pub struct ResolvedEmbeddingOptions {
    pub dimensions: Option<u32>,
    pub truncate: Option<String>,
    pub embedding_type: Option<String>,
}

/// One embedding returned by a backend, tagged with the input index it
/// belongs to when the backend reports one, or `None` when the backend
/// guarantees input order. `T` is the vector component type.
#[derive(Debug)]
pub struct ProviderEmbedding<T> {
    pub vector: Vec<T>,
    pub index: Option<usize>,
}

/// Token accounting reported by a backend.
#[derive(Debug, Default)]
pub struct ProviderUsage {
    pub model: String,
    pub prompt_tokens: Option<u32>,
    pub total_tokens: Option<u32>,
}

/// A backend's answer for one batch: embeddings plus optional usage.
#[derive(Debug)]
pub struct EmbeddingBackendResponse<T> {
    pub embeddings: Vec<ProviderEmbedding<T>>,
    pub usage: Option<ProviderUsage>,
}

/// A backend failure, classified so that retry-split can act on it.
#[derive(Debug)]
pub enum EmbeddingError {
    /// The batch exceeded the model's context length; retry-split may help.
    TooLong(String),
    /// Any other error; propagated without retry.
    Other(String),
}

impl EmbeddingError {
    pub fn is_too_long(&self) -> (r: bool)
        ensures
            r == (self is TooLong),
    {
        match self {
            EmbeddingError::TooLong(_) => true,
            EmbeddingError::Other(_) => false,
        }
    }
}

/// Ollama's boolean `truncate` for a provider-neutral truncate string:
/// "NONE" gives false, "START"/"END" give true, anything else the provider
/// default (`None`). Case-insensitive (ASCII).
pub open spec fn ollama_truncate_spec(truncate: Option<Seq<char>>) -> Option<bool> {
    match truncate {
        None => None,
        Some(s) => {
            let u = ascii_upper(s);
            if u == "NONE"@ {
                Some(false)
            } else if u == "END"@ || u == "START"@ {
                Some(true)
            } else {
                None
            }
        },
    }
}

/// The view of an optional string.
pub open spec fn opt_view(o: Option<String>) -> Option<Seq<char>> {
    match o {
        Some(s) => Some(s@),
        None => None,
    }
}

/// Map the provider-neutral truncate string to Ollama's boolean `truncate`.
pub fn truncate_to_ollama_bool(truncate: &Option<String>) -> (r: Option<bool>)
    ensures
        r == ollama_truncate_spec(opt_view(*truncate)),
{
    match truncate {
        None => None,
        Some(s) => {
            let u = to_ascii_uppercase(s.as_str());
            if str_eq(u.as_str(), "NONE") {
                Some(false)
            } else if str_eq(u.as_str(), "END") {
                Some(true)
            } else if str_eq(u.as_str(), "START") {
                Some(true)
            } else {
                None
            }
        },
    }
}

/// GenAI's truncate value: the upper-cased string when it is one of
/// "NONE" / "START" / "END", otherwise `None`.
pub open spec fn genai_truncate_spec(truncate: Option<Seq<char>>) -> Option<Seq<char>> {
    match truncate {
        None => None,
        Some(s) => {
            let u = ascii_upper(s);
            if u == "NONE"@ || u == "START"@ || u == "END"@ {
                Some(u)
            } else {
                None
            }
        },
    }
}

/// Validate the provider-neutral truncate string for GenAI, which receives it
/// as-is; unknown values are dropped so a bad string is not forwarded.
pub fn truncate_for_genai(truncate: &Option<String>) -> (r: Option<String>)
    ensures
        opt_view(r) == genai_truncate_spec(opt_view(*truncate)),
{
    match truncate {
        None => None,
        Some(s) => {
            let u = to_ascii_uppercase(s.as_str());
            if str_eq(u.as_str(), "NONE") || str_eq(u.as_str(), "START") || str_eq(
                u.as_str(),
                "END",
            ) {
                Some(u)
            } else {
                None
            }
        },
    }
}

/// Adds an optional token count into an optional running sum.
pub open spec fn add_tokens(acc: Option<int>, x: Option<u32>) -> Option<int> {
    match x {
        None => acc,
        Some(p) => Some(
            match acc {
                Some(a) => a + p,
                None => p as int,
            },
        ),
    }
}

/// Sum of the prompt token counts that are present (`None` if none is).
pub open spec fn sum_prompt(us: Seq<Option<ProviderUsage>>) -> Option<int>
    decreases us.len(),
{
    if us.len() == 0 {
        None
    } else {
        let rest = sum_prompt(us.drop_last());
        match us.last() {
            Some(u) => add_tokens(rest, u.prompt_tokens),
            None => rest,
        }
    }
}

/// Sum of the total token counts that are present (`None` if none is).
pub open spec fn sum_total(us: Seq<Option<ProviderUsage>>) -> Option<int>
    decreases us.len(),
{
    if us.len() == 0 {
        None
    } else {
        let rest = sum_total(us.drop_last());
        match us.last() {
            Some(u) => add_tokens(rest, u.total_tokens),
            None => rest,
        }
    }
}

/// Model name of the first usage that carries a non-empty one.
pub open spec fn first_model(us: Seq<Option<ProviderUsage>>) -> Option<Seq<char>>
    decreases us.len(),
{
    if us.len() == 0 {
        None
    } else {
        match first_model(us.drop_last()) {
            Some(m) => Some(m),
            None => match us.last() {
                Some(u) => if u.model@.len() > 0 {
                    Some(u.model@)
                } else {
                    None
                },
                None => None,
            },
        }
    }
}

/// Some entry carries usage.
pub open spec fn any_usage(us: Seq<Option<ProviderUsage>>) -> bool {
    exists|i: int| 0 <= i < us.len() && us[i] is Some
}

/// An optional running sum stays within `u32`.
pub open spec fn fits_u32(o: Option<int>) -> bool {
    match o {
        Some(v) => v <= u32::MAX,
        None => true,
    }
}

/// The sum of two optional token counts: `None` where neither is present.
pub open spec fn add_opt(a: Option<int>, b: Option<int>) -> Option<int> {
    match (a, b) {
        (Some(x), Some(y)) => Some(x + y),
        (Some(x), None) => Some(x),
        (None, Some(y)) => Some(y),
        (None, None) => None,
    }
}

/// The count one response adds, picked by `f`.
pub open spec fn count_of(u: Option<ProviderUsage>, f: spec_fn(ProviderUsage) -> Option<u32>) -> Option<int> {
    match u {
        Some(u) => match f(u) {
            Some(p) => Some(p as int),
            None => None,
        },
        None => None,
    }
}

/// The sum of the counts `f` picks from the responses.
pub open spec fn usage_sum(us: Seq<Option<ProviderUsage>>, f: spec_fn(ProviderUsage) -> Option<u32>) -> Option<int>
    decreases us.len(),
{
    if us.len() == 0 {
        None
    } else {
        add_opt(usage_sum(us.drop_last(), f), count_of(us.last(), f))
    }
}

proof fn lemma_prompt_is_usage_sum(us: Seq<Option<ProviderUsage>>)
    ensures
        sum_prompt(us) == usage_sum(us, |u: ProviderUsage| u.prompt_tokens),
        sum_total(us) == usage_sum(us, |u: ProviderUsage| u.total_tokens),
    decreases us.len(),
{
    if us.len() > 0 {
        lemma_prompt_is_usage_sum(us.drop_last());
    }
}

proof fn lemma_usage_sum_concat(a: Seq<Option<ProviderUsage>>, b: Seq<Option<ProviderUsage>>, f: spec_fn(ProviderUsage) -> Option<u32>)
    ensures
        usage_sum(a + b, f) == add_opt(usage_sum(a, f), usage_sum(b, f)),
    decreases b.len(),
{
    if b.len() == 0 {
        assert(a + b =~= a);
    } else {
        lemma_usage_sum_concat(a, b.drop_last(), f);
        assert((a + b).drop_last() =~= a + b.drop_last());
        assert((a + b).last() == b.last());
    }
}

proof fn lemma_usage_sum_remove(s: Seq<Option<ProviderUsage>>, j: int, f: spec_fn(ProviderUsage) -> Option<u32>)
    requires
        0 <= j < s.len(),
    ensures
        usage_sum(s, f) == add_opt(usage_sum(s.remove(j), f), count_of(s[j], f)),
{
    let pre = s.take(j);
    let post = s.skip(j + 1);
    assert(s =~= (pre + seq![s[j]]) + post);
    assert(s.remove(j) =~= pre + post);
    lemma_usage_sum_concat(pre + seq![s[j]], post, f);
    lemma_usage_sum_concat(pre, post, f);
    assert((pre + seq![s[j]]).drop_last() =~= pre);
}

proof fn lemma_usage_sum_permutation(us: Seq<Option<ProviderUsage>>, vs: Seq<Option<ProviderUsage>>, f: spec_fn(ProviderUsage) -> Option<u32>)
    requires
        us.to_multiset() == vs.to_multiset(),
    ensures
        usage_sum(us, f) == usage_sum(vs, f),
    decreases us.len(),
{
    broadcast use vstd::seq_lib::group_to_multiset_ensures;

    if us.len() == 0 {
        assert(us.to_multiset().len() == 0);
        assert(vs.to_multiset().len() == vs.len());
    } else {
        let x = us.last();
        assert(us[us.len() - 1] == x);
        assert(us.contains(x));
        assert(us.to_multiset().count(x) > 0);
        assert(vs.contains(x));
        let j = choose|j: int| 0 <= j < vs.len() && vs[j] == x;
        let k = us.len() - 1;
        assert(us.remove(k) =~= us.drop_last());
        assert(us.drop_last().to_multiset() == vs.remove(j).to_multiset());
        lemma_usage_sum_permutation(us.drop_last(), vs.remove(j), f);
        lemma_usage_sum_remove(vs, j, f);
    }
}

/// The token sums do not depend on the order of the responses: any
/// reordering (same multiset of responses) gives the same sums.
pub proof fn law_usage_sums_order_independent(us: Seq<Option<ProviderUsage>>, vs: Seq<Option<ProviderUsage>>)
    requires
        us.to_multiset() == vs.to_multiset(),
    ensures
        sum_prompt(us) == sum_prompt(vs),
        sum_total(us) == sum_total(vs),
{
    lemma_prompt_is_usage_sum(us);
    lemma_prompt_is_usage_sum(vs);
    lemma_usage_sum_permutation(us, vs, |u: ProviderUsage| u.prompt_tokens);
    lemma_usage_sum_permutation(us, vs, |u: ProviderUsage| u.total_tokens);
}

/// A prefix of the responses never sums to more tokens than all of them.
pub proof fn lemma_sums_monotone(us: Seq<Option<ProviderUsage>>, i: int)
    requires
        0 <= i <= us.len(),
    ensures
        (sum_prompt(us.take(i)) matches Some(a) ==> sum_prompt(us) matches Some(b) && a <= b),
        (sum_total(us.take(i)) matches Some(a) ==> sum_total(us) matches Some(b) && a <= b),
    decreases us.len() - i,
{
    if i < us.len() {
        lemma_sums_monotone(us, i + 1);
        assert(us.take(i + 1).drop_last() =~= us.take(i));
    } else {
        assert(us.take(i) =~= us);
    }
}

/// Aggregate usage across backend responses (retry batches): token counts
/// sum when present, the model name comes from the first response that
/// carries one, and the result is `None` when no response carried usage.
pub fn aggregate_usage(responses: &[Option<ProviderUsage>]) -> (r: Option<ProviderUsage>)
    requires
        fits_u32(sum_prompt(responses@)),
        fits_u32(sum_total(responses@)),
    ensures
        r is Some <==> any_usage(responses@),
        r matches Some(u) ==> {
            &&& u.model@ == (match first_model(responses@) {
                Some(m) => m,
                None => Seq::<char>::empty(),
            })
            &&& (match u.prompt_tokens {
                Some(p) => sum_prompt(responses@) == Some(p as int),
                None => sum_prompt(responses@) is None,
            })
            &&& (match u.total_tokens {
                Some(t) => sum_total(responses@) == Some(t as int),
                None => sum_total(responses@) is None,
            })
        },
{
    let mut model: Option<String> = None;
    let mut prompt: Option<u32> = None;
    let mut total: Option<u32> = None;
    let mut any = false;
    let mut i: usize = 0;
    while i < responses.len()
        invariant
            i <= responses@.len(),
            fits_u32(sum_prompt(responses@)),
            fits_u32(sum_total(responses@)),
            any == any_usage(responses@.take(i as int)),
            opt_view(model) == first_model(responses@.take(i as int)),
            (match prompt {
                Some(p) => sum_prompt(responses@.take(i as int)) == Some(p as int),
                None => sum_prompt(responses@.take(i as int)) is None,
            }),
            (match total {
                Some(t) => sum_total(responses@.take(i as int)) == Some(t as int),
                None => sum_total(responses@.take(i as int)) is None,
            }),
        decreases responses.len() - i,
    {
        let ghost prev = responses@.take(i as int);
        let ghost next = responses@.take(i + 1);
        proof {
            assert(next.drop_last() =~= prev);
            assert(next.last() == responses@[i as int]);
            lemma_sums_monotone(responses@, i + 1);
            assert forall|k: int| 0 <= k < next.len() && next[k] is Some implies (0 <= k < prev.len()
                && prev[k] is Some) || k == i by {}
        }
        match &responses[i] {
            Some(u) => {
                any = true;
                if model.is_none() && !u.model.as_str().is_empty() {
                    model = Some(u.model.clone());
                }
                match u.prompt_tokens {
                    Some(p) => {
                        let base = match prompt {
                            Some(a) => a,
                            None => 0,
                        };
                        prompt = Some(base + p);
                    },
                    None => {},
                }
                match u.total_tokens {
                    Some(t) => {
                        let base = match total {
                            Some(a) => a,
                            None => 0,
                        };
                        total = Some(base + t);
                    },
                    None => {},
                }
            },
            None => {},
        }
        i = i + 1;
    }
    proof {
        assert(responses@.take(i as int) =~= responses@);
    }
    if !any {
        return None;
    }
    let model = match model {
        Some(m) => m,
        None => String::new(),
    };
    Some(ProviderUsage { model, prompt_tokens: prompt, total_tokens: total })
}

/// The lower-cased message of a GenAI error reports a context-length problem.
pub open spec fn genai_reports_too_long(message: Seq<char>) -> bool {
    let m = ascii_lower(message);
    seq_contains(m, "maximum context"@) || seq_contains(m, "context length"@) || seq_contains(
        m,
        "too long"@,
    ) || seq_contains(m, "too many tokens"@)
}

/// The lower-cased message of an Ollama error reports a context-length
/// problem.
pub open spec fn ollama_reports_too_long(message: Seq<char>) -> bool {
    let m = ascii_lower(message);
    seq_contains(m, "context"@) || seq_contains(m, "too long"@) || seq_contains(m, "exceed"@)
        || seq_contains(m, "maximum"@)
}

/// A GenAI error is classified too-long exactly when its lower-cased
/// message contains one of "maximum context", "context length", "too long"
/// or "too many tokens"; either way it carries "genai: " and the message.
pub proof fn law_genai_too_long_phrases(message: Seq<char>, e: EmbeddingError)
    requires
        classified(genai_reports_too_long(message), "genai"@, message, e),
    ensures
        (e is TooLong) <==> (seq_contains(ascii_lower(message), "maximum context"@) || seq_contains(
            ascii_lower(message),
            "context length"@,
        ) || seq_contains(ascii_lower(message), "too long"@) || seq_contains(
            ascii_lower(message),
            "too many tokens"@,
        )),
        match e {
            EmbeddingError::TooLong(t) => t@ == "genai"@ + ": "@ + message,
            EmbeddingError::Other(t) => t@ == "genai"@ + ": "@ + message,
        },
{
}

/// An Ollama error is classified too-long exactly when its lower-cased
/// message contains one of "context", "too long", "exceed" or "maximum";
/// either way it carries "ollama: " and the message.
pub proof fn law_ollama_too_long_phrases(message: Seq<char>, e: EmbeddingError)
    requires
        classified(ollama_reports_too_long(message), "ollama"@, message, e),
    ensures
        (e is TooLong) <==> (seq_contains(ascii_lower(message), "context"@) || seq_contains(
            ascii_lower(message),
            "too long"@,
        ) || seq_contains(ascii_lower(message), "exceed"@) || seq_contains(ascii_lower(message), "maximum"@)),
        match e {
            EmbeddingError::TooLong(t) => t@ == "ollama"@ + ": "@ + message,
            EmbeddingError::Other(t) => t@ == "ollama"@ + ": "@ + message,
        },
{
}

/// The classified error for a provider message: too-long when `too_long`,
/// other otherwise, carrying `prefix ++ ": " ++ message`.
pub open spec fn classified(
    too_long: bool,
    prefix: Seq<char>,
    message: Seq<char>,
    e: EmbeddingError,
) -> bool {
    let text = prefix + ": "@ + message;
    if too_long {
        e matches EmbeddingError::TooLong(m) && m@ == text
    } else {
        e matches EmbeddingError::Other(m) && m@ == text
    }
}

/// `lowered` contains one of `needles`.
fn contains_any(lowered: &Vec<char>, needles: &Vec<&str>) -> (r: bool)
    ensures
        r == exists|i: int| 0 <= i < needles@.len() && seq_contains(lowered@, needles@[i]@),
{
    let mut i: usize = 0;
    while i < needles.len()
        invariant
            i <= needles@.len(),
            forall|k: int| 0 <= k < i ==> !seq_contains(lowered@, #[trigger] needles@[k]@),
        decreases needles.len() - i,
    {
        let n = chars_of(needles[i]);
        if contains_chars(lowered, &n) {
            return true;
        }
        i = i + 1;
    }
    false
}

/// `prefix: message`.
fn prefixed(prefix: &str, message: &str) -> (r: String)
    ensures
        r@ == prefix@ + ": "@ + message@,
{
    let mut s = string_of(prefix);
    push_str(&mut s, ": ");
    push_str(&mut s, message);
    s
}

/// Embedding service backed by GenAI. The provider client itself lives
/// with the caller; this holds the configured model name.
#[derive(Debug)]
pub struct GenaiEmbeddingService {
    pub model: String,
}

impl GenaiEmbeddingService {
    /// Classify a GenAI error message as too-long (retryable) or other,
    /// matching context-length wording conservatively.
    pub fn classify(message: &str) -> (e: EmbeddingError)
        ensures
            classified(genai_reports_too_long(message@), "genai"@, message@, e),
    {
        let lowered = to_ascii_lowercase(message);
        let low = chars_of(lowered.as_str());
        let needles: Vec<&str> = vec!["maximum context", "context length", "too long", "too many tokens"];
        let too_long = contains_any(&low, &needles);
        proof {
            assert(needles@[0]@ == "maximum context"@);
            assert(needles@[1]@ == "context length"@);
            assert(needles@[2]@ == "too long"@);
            assert(needles@[3]@ == "too many tokens"@);
        }
        let text = prefixed("genai", message);
        if too_long {
            EmbeddingError::TooLong(text)
        } else {
            EmbeddingError::Other(text)
        }
    }
}

/// Classify an Ollama error message as too-long (retryable) or other.
pub fn classify_ollama_error(message: &str) -> (e: EmbeddingError)
    ensures
        classified(ollama_reports_too_long(message@), "ollama"@, message@, e),
{
    let lowered = to_ascii_lowercase(message);
    let low = chars_of(lowered.as_str());
    let needles: Vec<&str> = vec!["context", "too long", "exceed", "maximum"];
    let too_long = contains_any(&low, &needles);
    proof {
        assert(needles@[0]@ == "context"@);
        assert(needles@[1]@ == "too long"@);
        assert(needles@[2]@ == "exceed"@);
        assert(needles@[3]@ == "maximum"@);
    }
    let text = prefixed("ollama", message);
    if too_long {
        EmbeddingError::TooLong(text)
    } else {
        EmbeddingError::Other(text)
    }
}

/// No embedding model was given by the job or the settings.
#[derive(Debug, PartialEq, Eq)]
pub struct MissingModel;

/// The model an embedding job uses: the job's own, else the default from
/// the settings.
pub fn resolve_embedding_model(job_model: Option<String>, default_model: Option<String>) -> (r: Result<
    String,
    MissingModel,
>)
    ensures
        match job_model {
            Some(m) => r matches Ok(s) && s@ == m@,
            None => match default_model {
                Some(d) => r matches Ok(s) && s@ == d@,
                None => r is Err,
            },
        },
{
    match job_model {
        Some(m) => Ok(m),
        None => match default_model {
            Some(d) => Ok(d),
            None => Err(MissingModel),
        },
    }
}

/// Default tiktoken encoding when none is given.
pub const DEFAULT_ENCODING: &'static str = "cl100k_base";

/// Token estimation requested by a chunking config, before any tokenizer is
/// loaded.
#[derive(Debug, PartialEq, Eq)]
pub enum StrategyKind {
    Character,
    /// HuggingFace tokenizer; at least one source is present.
    Hf { repo: Option<String>, file: Option<String> },
    /// tiktoken BPE with a known encoding name.
    Tiktoken { encoding: String },
}

/// Chunking parameters derived from a config, tokenizer not yet loaded.
#[derive(Debug, PartialEq, Eq)]
pub struct ChunkingSpec {
    pub max_chunk_tokens: u32,
    pub min_chunk_tokens: u32,
    pub strategy: StrategyKind,
}

impl ChunkingSpec {
    /// 512 max tokens, no minimum, character estimation.
    pub fn default_spec() -> (s: Self)
        ensures
            s.max_chunk_tokens == 512,
            s.min_chunk_tokens == 0,
            s.strategy is Character,
    {
        ChunkingSpec { max_chunk_tokens: 512, min_chunk_tokens: 0, strategy: StrategyKind::Character }
    }
}

/// The chunking section of the runner settings or of a job's arguments.
/// `token_estimation`: 0 unspecified, 1 character, 2 tiktoken, 3 HF.
#[derive(Debug, Default)]
pub struct ChunkingConfig {
    pub max_chunk_tokens: Option<u32>,
    pub min_chunk_tokens: Option<u32>,
    pub token_estimation: Option<i32>,
    pub tiktoken_encoding: Option<String>,
    pub tokenizer_hf_repo: Option<String>,
    pub tokenizer_file_path: Option<String>,
}

/// Why a chunking config was rejected.
#[derive(Debug, PartialEq, Eq)]
pub enum ChunkingSpecError {
    UnknownEncoding(String),
    HfSourceMissing,
    UnknownStrategy(i32),
    ZeroMaxTokens,
}

/// The encoding a tiktoken config resolves to: unset or empty gives the
/// default; only `cl100k_base` and `o200k_base` are known.
pub open spec fn resolve_encoding_spec(name: Option<Seq<char>>) -> Option<Seq<char>> {
    match name {
        None => Some("cl100k_base"@),
        Some(n) => if n.len() == 0 {
            Some("cl100k_base"@)
        } else if n == "cl100k_base"@ || n == "o200k_base"@ {
            Some(n)
        } else {
            None
        },
    }
}

/// Resolve and validate a tiktoken encoding name.
pub fn resolve_encoding(name: Option<&str>) -> (r: Result<String, ChunkingSpecError>)
    ensures
        r matches Ok(s) ==> resolve_encoding_spec(opt_str_view(name)) == Some(s@),
        r is Err ==> resolve_encoding_spec(opt_str_view(name)) is None,
        r matches Err(e) ==> e matches ChunkingSpecError::UnknownEncoding(n) && name matches Some(
            m,
        ) && n@ == m@,
{
    match name {
        None => Ok(string_of(DEFAULT_ENCODING)),
        Some(n) => {
            if n.is_empty() {
                Ok(string_of(DEFAULT_ENCODING))
            } else if str_eq(n, "cl100k_base") || str_eq(n, "o200k_base") {
                Ok(string_of(n))
            } else {
                Err(ChunkingSpecError::UnknownEncoding(string_of(n)))
            }
        },
    }
}

/// The view of an optional string slice.
pub open spec fn opt_str_view(o: Option<&str>) -> Option<Seq<char>> {
    match o {
        Some(s) => Some(s@),
        None => None,
    }
}

/// A present, non-empty source string.
pub open spec fn nonempty_source(o: Option<String>) -> Option<Seq<char>> {
    match o {
        Some(s) => if s@.len() > 0 { Some(s@) } else { None },
        None => None,
    }
}

/// `Some(s)` with a non-empty `s`, else `None`.
fn filter_nonempty(o: &Option<String>) -> (r: Option<String>)
    ensures
        opt_view(r) == nonempty_source(*o),
{
    match o {
        Some(s) => if s.as_str().is_empty() {
            None
        } else {
            Some(s.clone())
        },
        None => None,
    }
}

/// The strategy a config selects, or why it is rejected.
pub open spec fn strategy_ok(c: ChunkingConfig, k: StrategyKind) -> bool {
    let sel = match c.token_estimation {
        Some(v) => v,
        None => 0,
    };
    if sel == 0 || sel == 1 {
        k is Character
    } else if sel == 2 {
        k matches StrategyKind::Tiktoken { encoding } && resolve_encoding_spec(
            opt_view(c.tiktoken_encoding),
        ) == Some(encoding@)
    } else {
        sel == 3 && (k matches StrategyKind::Hf { repo, file } && opt_view(repo) == nonempty_source(
            c.tokenizer_hf_repo,
        ) && opt_view(file) == nonempty_source(c.tokenizer_file_path))
    }
}

/// The effective max/min token bounds of a config.
pub open spec fn effective_max(c: ChunkingConfig) -> u32 {
    match c.max_chunk_tokens {
        Some(m) => m,
        None => 512,
    }
}

pub open spec fn effective_min(c: ChunkingConfig) -> u32 {
    let min = match c.min_chunk_tokens {
        Some(m) => m,
        None => 0u32,
    };
    let cap = if effective_max(c) == 0 { 0 } else { (effective_max(c) - 1) as u32 };
    if min <= cap { min } else { cap }
}

/// The bounds a config resolves to: the maximum is the configured one, or
/// 512; the minimum is the configured one (0 when unset) when it is below
/// the maximum, else one below the maximum.
pub proof fn law_chunk_bounds_follow_config(c: ChunkingConfig)
    ensures
        effective_max(c) == (match c.max_chunk_tokens {
            Some(m) => m,
            None => 512u32,
        }),
        effective_max(c) > 0 ==> (c.min_chunk_tokens matches Some(m) ==> effective_min(c) == (if m < effective_max(c) {
            m as int
        } else {
            effective_max(c) - 1
        })),
        c.min_chunk_tokens is None ==> effective_min(c) == 0,
        effective_max(c) > 0 ==> effective_min(c) < effective_max(c),
{
}

/// The strategy a config selects: character estimation for 0 (or unset)
/// and 1; tiktoken for 2, with the configured encoding when it is
/// `cl100k_base` or `o200k_base` and `cl100k_base` when none is configured;
/// a HuggingFace tokenizer for 3, with the configured sources that are not
/// empty.
pub proof fn law_strategy_follows_selection(c: ChunkingConfig, k: StrategyKind)
    requires
        strategy_ok(c, k),
    ensures
        (c.token_estimation is None || c.token_estimation == Some(0i32) || c.token_estimation == Some(1i32))
            ==> k is Character,
        c.token_estimation == Some(2i32) ==> (k matches StrategyKind::Tiktoken { encoding } && (encoding@
            == "cl100k_base"@ || encoding@ == "o200k_base"@) && (match c.tiktoken_encoding {
            Some(n) => n@.len() > 0 ==> encoding@ == n@,
            None => encoding@ == "cl100k_base"@,
        })),
        c.token_estimation == Some(3i32) ==> (k matches StrategyKind::Hf { repo, file } && (match repo {
            Some(r) => c.tokenizer_hf_repo matches Some(x) && x@ == r@ && r@.len() > 0,
            None => !(c.tokenizer_hf_repo matches Some(x) && x@.len() > 0),
        }) && (match file {
            Some(f) => c.tokenizer_file_path matches Some(x) && x@ == f@ && f@.len() > 0,
            None => !(c.tokenizer_file_path matches Some(x) && x@.len() > 0),
        })),
{
}

/// Map a chunking config to a [`ChunkingSpec`] without loading any
/// tokenizer. `None` gives the defaults. The token-estimation selection is
/// validated first (unknown value, HF without a source, unknown tiktoken
/// encoding), then `max_chunk_tokens` must be positive; the minimum is
/// clamped below the maximum.
pub fn resolve_chunking_spec(proto: Option<&ChunkingConfig>) -> (r: Result<
    ChunkingSpec,
    ChunkingSpecError,
>)
    ensures
        proto is None ==> (r matches Ok(s) && s.max_chunk_tokens == 512 && s.min_chunk_tokens == 0
            && s.strategy is Character),
        proto matches Some(c) ==> {
            let sel = match c.token_estimation {
                Some(v) => v,
                None => 0,
            };
            &&& (sel < 0 || sel > 3) ==> r == Err::<ChunkingSpec, ChunkingSpecError>(
                ChunkingSpecError::UnknownStrategy(sel),
            )
            &&& sel == 3 ==> (nonempty_source(c.tokenizer_hf_repo) is None && nonempty_source(
                c.tokenizer_file_path,
            ) is None <==> r == Err::<ChunkingSpec, ChunkingSpecError>(
                ChunkingSpecError::HfSourceMissing,
            ))
            &&& sel == 2 ==> (resolve_encoding_spec(opt_view(c.tiktoken_encoding)) is None
                <==> r matches Err(ChunkingSpecError::UnknownEncoding(_)))
            &&& r matches Ok(s) ==> (c.min_chunk_tokens matches Some(m) ==> s.min_chunk_tokens == (if m
                < s.max_chunk_tokens {
                m as int
            } else {
                s.max_chunk_tokens - 1
            }))
            &&& r matches Ok(s) ==> (c.max_chunk_tokens matches Some(m) ==> s.max_chunk_tokens == m)
            &&& r matches Ok(s) ==> {
                &&& strategy_ok(*c, s.strategy)
                &&& s.max_chunk_tokens == effective_max(*c)
                &&& s.max_chunk_tokens > 0
                &&& s.min_chunk_tokens == effective_min(*c)
            }
            &&& r is Ok <==> (0 <= sel <= 3 && !(sel == 3 && nonempty_source(c.tokenizer_hf_repo)
                is None && nonempty_source(c.tokenizer_file_path) is None) && !(sel == 2
                && resolve_encoding_spec(opt_view(c.tiktoken_encoding)) is None) && effective_max(
                *c,
            ) > 0)
            &&& (0 <= sel <= 3 && !(sel == 3 && nonempty_source(c.tokenizer_hf_repo) is None
                && nonempty_source(c.tokenizer_file_path) is None) && !(sel == 2
                && resolve_encoding_spec(opt_view(c.tiktoken_encoding)) is None)
                && effective_max(*c) == 0) ==> r == Err::<ChunkingSpec, ChunkingSpecError>(
                ChunkingSpecError::ZeroMaxTokens,
            )
        },
{
    let c = match proto {
        None => return Ok(ChunkingSpec::default_spec()),
        Some(c) => c,
    };
    let sel: i32 = match c.token_estimation {
        Some(v) => v,
        None => 0,
    };
    let strategy = if sel == 0 || sel == 1 {
        StrategyKind::Character
    } else if sel == 2 {
        let enc_name: Option<&str> = match &c.tiktoken_encoding {
            Some(s) => Some(s.as_str()),
            None => None,
        };
        let encoding = match resolve_encoding(enc_name) {
            Ok(e) => e,
            Err(e) => return Err(e),
        };
        StrategyKind::Tiktoken { encoding }
    } else if sel == 3 {
        let repo = filter_nonempty(&c.tokenizer_hf_repo);
        let file = filter_nonempty(&c.tokenizer_file_path);
        if repo.is_none() && file.is_none() {
            return Err(ChunkingSpecError::HfSourceMissing);
        }
        StrategyKind::Hf { repo, file }
    } else {
        return Err(ChunkingSpecError::UnknownStrategy(sel));
    };
    let max_chunk_tokens: u32 = match c.max_chunk_tokens {
        Some(m) => m,
        None => 512,
    };
    let min_chunk_tokens: u32 = match c.min_chunk_tokens {
        Some(m) => m,
        None => 0,
    };
    if max_chunk_tokens == 0 {
        return Err(ChunkingSpecError::ZeroMaxTokens);
    }
    let cap = max_chunk_tokens.saturating_sub(1);
    let min = if min_chunk_tokens <= cap { min_chunk_tokens } else { cap };
    Ok(ChunkingSpec { max_chunk_tokens, min_chunk_tokens: min, strategy })
}

} // verus!
