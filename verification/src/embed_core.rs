//! Backend-agnostic embedding orchestration: response-to-chunk mapping,
//! retry shrinking, offset absolutization of re-chunked refs, and result
//! assembly.

use vstd::prelude::*;
use crate::chunking::{
    chunk_text, chunk_failure, estimate_tokens_spec, text_chunks, valid_chunks, ChunkResult,
    ChunkerError, ChunkingError,
    ResolvedChunkingConfig,
};
use crate::text::all_whitespace;
use crate::embedding::{ProviderEmbedding, ProviderUsage};

verus! {

/// A flattened text chunk tagged with its origin. `char_start`/`char_end`
/// are always absolute char offsets into the original input text.
#[derive(Debug)]
pub struct ChunkRef {
    pub input_index: usize,
    pub char_start: usize,
    pub char_end: usize,
    pub content: String,
}

impl ChunkRef {
    /// A field-by-field copy.
    pub fn duplicate(&self) -> (r: ChunkRef)
        ensures
            r.input_index == self.input_index,
            r.char_start == self.char_start,
            r.char_end == self.char_end,
            r.content@ == self.content@,
    {
        ChunkRef {
            input_index: self.input_index,
            char_start: self.char_start,
            char_end: self.char_end,
            content: self.content.clone(),
        }
    }
}

/// Why a backend response could not be mapped onto the chunks it answers.
#[derive(Debug, PartialEq, Eq)]
pub enum MapError {
    /// Order-preserving response with the wrong number of embeddings.
    CountMismatch { got: usize, expected: usize },
    /// Some embeddings carry an index and some do not.
    MixedIndex,
    /// An index is not below the number of chunks.
    IndexOutOfRange { index: usize, chunks: usize },
    /// Two embeddings carry the same index.
    DuplicateIndex(usize),
    /// No embedding carries this chunk index.
    MissingIndex(usize),
}

/// The indices reported with a response.
pub open spec fn indices_of<T>(es: Seq<ProviderEmbedding<T>>) -> Seq<Option<usize>> {
    es.map_values(|e: ProviderEmbedding<T>| e.index)
}

/// Some embedding reports an index.
pub open spec fn has_index(idx: Seq<Option<usize>>) -> bool {
    exists|j: int| 0 <= j < idx.len() && idx[j] is Some
}

/// The first error met when scanning the indices in order against `n`
/// chunks: a missing index, an index out of range, or a repeated one.
pub open spec fn scan_error(idx: Seq<Option<usize>>, n: int) -> Option<MapError>
    decreases idx.len(),
{
    if idx.len() == 0 {
        None
    } else {
        match scan_error(idx.drop_last(), n) {
            Some(e) => Some(e),
            None => match idx.last() {
                None => Some(MapError::MixedIndex),
                Some(i) => if i >= n {
                    Some(MapError::IndexOutOfRange { index: i, chunks: n as usize })
                } else if idx.drop_last().contains(Some(i)) {
                    Some(MapError::DuplicateIndex(i))
                } else {
                    None
                },
            },
        }
    }
}

/// Some embedding reports chunk index `i`.
pub open spec fn reports(idx: Seq<Option<usize>>, i: int) -> bool {
    exists|j: int| 0 <= j < idx.len() && idx[j] == Some(i as usize)
}

/// The smallest chunk index in `[from, n)` that no embedding reports.
pub open spec fn first_missing(idx: Seq<Option<usize>>, n: int, from: int) -> Option<usize>
    decreases n - from,
{
    if from >= n {
        None
    } else if !reports(idx, from) {
        Some(from as usize)
    } else {
        first_missing(idx, n, from + 1)
    }
}

/// The result of mapping embeddings `es` onto `n` chunks.
pub open spec fn mapped_ok<T>(es: Seq<ProviderEmbedding<T>>, n: int, out: Seq<Vec<T>>) -> bool {
    let idx = indices_of(es);
    &&& out.len() == n
    &&& if has_index(idx) {
        forall|j: int| 0 <= j < es.len() ==> (#[trigger] idx[j] matches Some(i) && out[i as int] == es[j].vector)
    } else {
        forall|j: int| 0 <= j < es.len() ==> #[trigger] out[j] == es[j].vector
    }
}

/// The error mapping embeddings `es` onto `n` chunks gives, if any.
pub open spec fn map_error<T>(es: Seq<ProviderEmbedding<T>>, n: int) -> Option<MapError> {
    let idx = indices_of(es);
    if !has_index(idx) {
        if es.len() != n {
            Some(MapError::CountMismatch { got: es.len() as usize, expected: n as usize })
        } else {
            None
        }
    } else {
        match scan_error(idx, n) {
            Some(e) => Some(e),
            None => match first_missing(idx, n, 0) {
                Some(i) => Some(MapError::MissingIndex(i)),
                None => None,
            },
        }
    }
}

proof fn lemma_scan_error_prefix(idx: Seq<Option<usize>>, n: int, j: int)
    requires
        0 <= j <= idx.len(),
        scan_error(idx, n) is None,
    ensures
        scan_error(idx.take(j), n) is None,
    decreases idx.len() - j,
{
    if j < idx.len() {
        lemma_scan_error_prefix(idx, n, j + 1);
        assert(idx.take(j + 1).drop_last() =~= idx.take(j));
    } else {
        assert(idx.take(j) =~= idx);
    }
}

/// Without a scan error, every index is present, in range and unique.
proof fn lemma_scan_ok(idx: Seq<Option<usize>>, n: int)
    requires
        scan_error(idx, n) is None,
    ensures
        forall|j: int| 0 <= j < idx.len() ==> (#[trigger] idx[j] matches Some(i) && i < n),
        forall|j: int, k: int| 0 <= j < k < idx.len() ==> #[trigger] idx[j] != #[trigger] idx[k],
    decreases idx.len(),
{
    if idx.len() > 0 {
        let p = idx.drop_last();
        lemma_scan_ok(p, n);
        assert forall|j: int| 0 <= j < idx.len() implies (#[trigger] idx[j] matches Some(i) && i < n) by {
            if j < idx.len() - 1 {
                assert(idx[j] == p[j]);
            }
        }
        assert forall|j: int, k: int| 0 <= j < k < idx.len() implies #[trigger] idx[j] != #[trigger] idx[k] by {
            if k < idx.len() - 1 {
                assert(idx[j] == p[j] && idx[k] == p[k]);
            } else {
                assert(idx[j] == p[j]);
                if idx[j] == idx[k] {
                    assert(p.contains(idx[k]));
                }
            }
        }
    }
}

proof fn lemma_first_missing_none(idx: Seq<Option<usize>>, n: int, from: int)
    requires
        0 <= from,
        first_missing(idx, n, from) is None,
    ensures
        forall|i: int| from <= i < n ==> #[trigger] reports(idx, i),
    decreases n - from,
{
    if from < n {
        lemma_first_missing_none(idx, n, from + 1);
    }
}

proof fn lemma_first_missing_all(idx: Seq<Option<usize>>, n: int, from: int)
    requires
        0 <= from,
        forall|i: int| from <= i < n ==> #[trigger] reports(idx, i),
    ensures
        first_missing(idx, n, from) is None,
    decreases n - from,
{
    if from < n {
        lemma_first_missing_all(idx, n, from + 1);
    }
}

/// A scan error found in a prefix is the scan error of the whole sequence.
proof fn lemma_scan_first_error(idx: Seq<Option<usize>>, n: int, j: int)
    requires
        0 <= j <= idx.len(),
        scan_error(idx.take(j), n) is Some,
    ensures
        scan_error(idx, n) == scan_error(idx.take(j), n),
    decreases idx.len() - j,
{
    if j < idx.len() {
        assert(idx.take(j + 1).drop_last() =~= idx.take(j));
        lemma_scan_first_error(idx, n, j + 1);
    } else {
        assert(idx.take(j) =~= idx);
    }
}

proof fn lemma_first_missing_some(idx: Seq<Option<usize>>, n: int, from: int, i: int)
    requires
        0 <= from <= i < n,
        !reports(idx, i),
        forall|k: int| from <= k < i ==> #[trigger] reports(idx, k),
    ensures
        first_missing(idx, n, from) == Some(i as usize),
    decreases i - from,
{
    if from < i {
        lemma_first_missing_some(idx, n, from + 1, i);
    }
}

/// Indices all present, in range and unique make a clean scan.
proof fn lemma_scan_clean(idx: Seq<Option<usize>>, n: int)
    requires
        forall|j: int| 0 <= j < idx.len() ==> (#[trigger] idx[j] matches Some(i) && i < n),
        forall|j: int, k: int| 0 <= j < k < idx.len() ==> #[trigger] idx[j] != #[trigger] idx[k],
    ensures
        scan_error(idx, n) is None,
    decreases idx.len(),
{
    if idx.len() > 0 {
        let p = idx.drop_last();
        assert forall|j: int| 0 <= j < p.len() implies (#[trigger] p[j] matches Some(i) && i < n) by {
            assert(p[j] == idx[j]);
        }
        assert forall|j: int, k: int| 0 <= j < k < p.len() implies #[trigger] p[j] != #[trigger] p[k] by {
            assert(p[j] == idx[j] && p[k] == idx[k]);
        }
        lemma_scan_clean(p, n);
        let last = idx.last();
        assert(last == idx[idx.len() - 1]);
        if p.contains(last) {
            let j = choose|j: int| 0 <= j < p.len() && p[j] == last;
            assert(idx[j] == p[j]);
        }
    }
}

/// With indices, every embedding names a chunk below `n`, no two name the
/// same, and every chunk below `n` is named.
pub open spec fn indices_cover(idx: Seq<Option<usize>>, n: int) -> bool {
    &&& forall|j: int| 0 <= j < idx.len() ==> (#[trigger] idx[j] matches Some(i) && i < n)
    &&& forall|j: int, k: int| 0 <= j < k < idx.len() ==> #[trigger] idx[j] != #[trigger] idx[k]
    &&& forall|i: int| 0 <= i < n ==> #[trigger] reports(idx, i)
}

/// Mapping `es` onto `n` chunks succeeds exactly when: without indices,
/// there are `n` embeddings; with indices, each embedding names a distinct
/// chunk below `n` and every chunk is named.
pub proof fn lemma_map_succeeds_exactly_when<T>(es: Seq<ProviderEmbedding<T>>, n: int)
    requires
        0 <= n,
    ensures
        map_error(es, n) is None <==> (if has_index(indices_of(es)) {
            indices_cover(indices_of(es), n)
        } else {
            es.len() == n
        }),
{
    let idx = indices_of(es);
    if has_index(idx) {
        if map_error(es, n) is None {
            lemma_scan_ok(idx, n);
            lemma_first_missing_none(idx, n, 0);
        }
        if indices_cover(idx, n) {
            lemma_scan_clean(idx, n);
            lemma_first_missing_all(idx, n, 0);
        }
    }
}

/// Map a backend response's embeddings onto the `refs_len` chunks they were
/// computed from, producing vectors aligned to chunk order. Without indices
/// the embeddings are taken in order and the counts must match; with indices
/// each embedding goes to the chunk it names and every chunk must be covered
/// exactly once.
pub fn map_response_to_refs<T>(refs_len: usize, embeddings: Vec<ProviderEmbedding<T>>) -> (r: Result<
    Vec<Vec<T>>,
    MapError,
>)
    ensures
        match map_error(embeddings@, refs_len as int) {
            Some(e) => r == Err::<Vec<Vec<T>>, MapError>(e),
            None => r matches Ok(out) && mapped_ok(embeddings@, refs_len as int, out@),
        },
{
    let ghost es0 = embeddings@;
    let ghost idx = indices_of(es0);
    let mut es = embeddings;
    let n_e = es.len();
    let mut any_index = false;
    let mut j: usize = 0;
    while j < n_e
        invariant
            es@ == es0,
            n_e == es0.len(),
            idx == indices_of(es0),
            j <= n_e,
            any_index == exists|k: int| 0 <= k < j && (#[trigger] idx[k]) is Some,
        decreases n_e - j,
    {
        if es[j].index.is_some() {
            any_index = true;
        }
        proof {
            assert(idx[j as int] == es0[j as int].index);
        }
        j = j + 1;
    }
    assert(any_index == has_index(idx));
    if !any_index {
        if n_e != refs_len {
            return Err(MapError::CountMismatch { got: n_e, expected: refs_len });
        }
        let mut rev: Vec<Vec<T>> = Vec::new();
        while es.len() > 0
            invariant
                es@ == es0.take(es@.len() as int),
                es@.len() <= es0.len(),
                rev@.len() == es0.len() - es@.len(),
                forall|k: int| 0 <= k < rev@.len() ==> #[trigger] rev@[k] == es0[es0.len() - 1 - k].vector,
            decreases es@.len(),
        {
            let e = es.pop().unwrap();
            proof {
                assert(es@ =~= es0.take(es@.len() as int));
            }
            rev.push(e.vector);
        }
        let mut out: Vec<Vec<T>> = Vec::new();
        while rev.len() > 0
            invariant
                rev@.len() + out@.len() == es0.len(),
                forall|k: int| 0 <= k < rev@.len() ==> #[trigger] rev@[k] == es0[es0.len() - 1 - k].vector,
                forall|k: int| 0 <= k < out@.len() ==> #[trigger] out@[k] == es0[k].vector,
            decreases rev@.len(),
        {
            let v = rev.pop().unwrap();
            out.push(v);
        }
        return Ok(out);
    }
    // Validation pass, in response order.
    let mut seen: Vec<bool> = Vec::new();
    let mut s: usize = 0;
    while s < refs_len
        invariant
            s <= refs_len,
            seen@.len() == s,
            forall|k: int| 0 <= k < s ==> !seen@[k],
        decreases refs_len - s,
    {
        seen.push(false);
        s = s + 1;
    }
    let mut j: usize = 0;
    while j < n_e
        invariant
            es@ == es0,
            n_e == es0.len(),
            idx == indices_of(es0),
            j <= n_e,
            seen@.len() == refs_len,
            has_index(idx),
            es0 == embeddings@,
            scan_error(idx.take(j as int), refs_len as int) is None,
            forall|i: int| 0 <= i < refs_len ==> (#[trigger] seen@[i] <==> reports(idx.take(j as int), i)),
        decreases n_e - j,
    {
        proof {
            assert(idx.take(j + 1).drop_last() =~= idx.take(j as int));
            assert(idx.take(j + 1).last() == idx[j as int]);
        }
        match es[j].index {
            None => {
                assert(scan_error(idx.take(j + 1), refs_len as int) == Some(MapError::MixedIndex));
                proof {
                    lemma_scan_first_error(idx, refs_len as int, j + 1);
                }
                return Err(MapError::MixedIndex);
            },
            Some(i) => {
                if i >= refs_len {
                    assert(scan_error(idx.take(j + 1), refs_len as int) == Some(
                        MapError::IndexOutOfRange { index: i, chunks: refs_len },
                    ));
                    proof {
                        lemma_scan_first_error(idx, refs_len as int, j + 1);
                    }
                    return Err(MapError::IndexOutOfRange { index: i, chunks: refs_len });
                }
                if seen[i] {
                    assert(scan_error(idx.take(j + 1), refs_len as int) == Some(
                        MapError::DuplicateIndex(i),
                    ));
                    proof {
                        lemma_scan_first_error(idx, refs_len as int, j + 1);
                    }
                    return Err(MapError::DuplicateIndex(i));
                }
                seen[i] = true;
                proof {
                    assert forall|k: int| 0 <= k < refs_len implies (#[trigger] seen@[k] <==> reports(idx.take(j + 1), k)) by {
                        if reports(idx.take(j as int), k) {
                            let w = choose|w: int| 0 <= w < j && #[trigger] idx.take(j as int)[w] == Some(k as usize);
                            assert(idx.take(j + 1)[w] == Some(k as usize));
                        }
                        if reports(idx.take(j + 1), k) {
                            let w = choose|w: int| 0 <= w < j + 1 && #[trigger] idx.take(j + 1)[w] == Some(k as usize);
                            if w < j {
                                assert(idx.take(j as int)[w] == Some(k as usize));
                            }
                        }
                    }
                }
            },
        }
        j = j + 1;
    }
    proof {
        assert(idx.take(n_e as int) =~= idx);
    }
    let mut m: usize = 0;
    while m < refs_len
        invariant
            m <= refs_len,
            seen@.len() == refs_len,
            has_index(idx),
            idx == indices_of(es0),
            es0 == embeddings@,
            scan_error(idx, refs_len as int) is None,
            forall|i: int| 0 <= i < refs_len ==> (#[trigger] seen@[i] <==> reports(idx, i)),
            forall|k: int| 0 <= k < m ==> #[trigger] reports(idx, k),
        decreases refs_len - m,
    {
        if !seen[m] {
            proof {
                lemma_first_missing_some(idx, refs_len as int, 0, m as int);
            }
            return Err(MapError::MissingIndex(m));
        }
        m = m + 1;
    }
    proof {
        lemma_scan_ok(idx, refs_len as int);
        lemma_first_missing_all(idx, refs_len as int, 0);
    }
    // Placement pass: every chunk index occurs exactly once.
    let mut slots: Vec<Option<Vec<T>>> = Vec::new();
    let mut s: usize = 0;
    while s < refs_len
        invariant
            s <= refs_len,
            slots@.len() == s,
            forall|k: int| 0 <= k < s ==> slots@[k] is None,
        decreases refs_len - s,
    {
        slots.push(None);
        s = s + 1;
    }
    while es.len() > 0
        invariant
            es@ == es0.take(es@.len() as int),
            es@.len() <= es0.len(),
            idx == indices_of(es0),
            slots@.len() == refs_len,
            forall|j: int| 0 <= j < idx.len() ==> (#[trigger] idx[j] matches Some(i) && i < refs_len),
            forall|j: int, k: int| 0 <= j < k < idx.len() ==> #[trigger] idx[j] != #[trigger] idx[k],
            forall|j: int| es@.len() <= j < es0.len() ==> (#[trigger] idx[j] matches Some(i) && slots@[i as int] == Some(es0[j].vector)),
            forall|i: int| 0 <= i < refs_len && (forall|j: int| es@.len() <= j < es0.len() ==> idx[j] != Some(i as usize)) ==> #[trigger] slots@[i] is None,
            forall|i: int| 0 <= i < refs_len ==> #[trigger] reports(idx, i),
        decreases es@.len(),
    {
        let ghost before = es@.len();
        let e = es.pop().unwrap();
        proof {
            assert(es@ =~= es0.take(es@.len() as int));
            assert(idx[es@.len() as int] == e.index);
        }
        let p = e.index.unwrap();
        proof {
            let jj = es@.len() as int;
            assert(slots@[p as int] is None) by {
                assert forall|j: int| before <= j < es0.len() implies idx[j] != Some(p) by {
                    assert(idx[jj] != idx[j]);
                }
            }
        }
        slots[p] = Some(e.vector);
        proof {
            let jj = es@.len() as int;
            assert forall|j: int| es@.len() <= j < es0.len() implies (#[trigger] idx[j] matches Some(i) && slots@[i as int] == Some(es0[j].vector)) by {
                if j > jj {
                    assert(idx[j] != idx[jj]);
                }
            }
        }
    }
    proof {
        assert forall|i: int| 0 <= i < refs_len implies #[trigger] slots@[i] is Some by {
            assert(reports(idx, i));
            let j = choose|j: int| 0 <= j < idx.len() && #[trigger] idx[j] == Some(i as usize);
            assert(idx[j] matches Some(q) && slots@[q as int] == Some(es0[j].vector));
        }
    }
    let mut out: Vec<Vec<T>> = Vec::new();
    let mut k: usize = 0;
    while k < refs_len
        invariant
            k <= refs_len,
            slots@.len() == refs_len,
            out@.len() == k,
            es0.len() == idx.len(),
            forall|j: int| 0 <= j < idx.len() ==> (#[trigger] idx[j] matches Some(i) && i < refs_len),
            forall|j: int| 0 <= j < es0.len() ==> (#[trigger] idx[j] matches Some(i) && (i >= k ==> slots@[i as int] == Some(es0[j].vector)) && (i < k ==> out@[i as int] == es0[j].vector)),
            forall|i: int| k <= i < refs_len ==> #[trigger] slots@[i] is Some,
        decreases refs_len - k,
    {
        let v = slots[k].take().unwrap();
        out.push(v);
        k = k + 1;
    }
    Ok(out)
}

/// Lower bound below which max_chunk_tokens is not shrunk further.
pub const MIN_RETRY_MAX_TOKENS: u32 = 16;
/// Shrink factor applied to max_chunk_tokens on each retry (num/den).
pub const RETRY_SHRINK_NUM: u32 = 1;
pub const RETRY_SHRINK_DEN: u32 = 2;
/// Upper bound on whole-batch re-chunk attempts.
pub const MAX_WHOLE_RETRIES: usize = 3;

/// The max_chunk_tokens a retry would use: half the current maximum, but
/// not below the configured minimum.
pub open spec fn shrink_target(c: ResolvedChunkingConfig) -> int {
    let h = (c.max_chunk_tokens * 1) / 2;
    if h >= c.min_chunk_tokens { h } else { c.min_chunk_tokens as int }
}

/// The config of the next retry, or `None` when the target is below the
/// floor or would not shrink.
pub open spec fn shrunk_spec(c: ResolvedChunkingConfig) -> Option<ResolvedChunkingConfig> {
    let t = shrink_target(c);
    if t < 16 || t >= c.max_chunk_tokens {
        None
    } else {
        Some(ResolvedChunkingConfig { max_chunk_tokens: t as u32, ..c })
    }
}

/// Shrink max_chunk_tokens for the next retry, or `None` at the floor.
pub fn shrunk_config(config: &ResolvedChunkingConfig) -> (r: Option<ResolvedChunkingConfig>)
    ensures
        r == shrunk_spec(*config),
{
    let next = (config.max_chunk_tokens * RETRY_SHRINK_NUM) / RETRY_SHRINK_DEN;
    let next = if next >= config.min_chunk_tokens { next } else { config.min_chunk_tokens };
    if next < MIN_RETRY_MAX_TOKENS || next >= config.max_chunk_tokens {
        return None;
    }
    Some(ResolvedChunkingConfig { max_chunk_tokens: next, ..*config })
}

/// `r` is a non-empty char range of the input it names, with exactly that
/// content.
pub open spec fn ref_ok(inputs: Seq<Seq<char>>, r: ChunkRef) -> bool {
    &&& r.input_index < inputs.len()
    &&& r.char_start < r.char_end <= inputs[r.input_index as int].len()
    &&& r.content@ == inputs[r.input_index as int].subrange(r.char_start as int, r.char_end as int)
}

/// Every ref in `refs` is a valid chunk of its input.
pub open spec fn refs_ok(inputs: Seq<Seq<char>>, refs: Seq<ChunkRef>) -> bool {
    forall|i: int| 0 <= i < refs.len() ==> ref_ok(inputs, #[trigger] refs[i])
}

/// `v` are the chunks `cs` of a parent's content as refs: the parent's
/// input, offsets shifted by the parent's start, the same contents.
pub open spec fn shifted_refs(parent: ChunkRef, cs: Seq<ChunkResult>, v: Seq<ChunkRef>) -> bool {
    &&& v.len() == cs.len()
    &&& forall|k: int|
        0 <= k < v.len() ==> {
            &&& (#[trigger] v[k]).input_index == parent.input_index
            &&& v[k].char_start == parent.char_start + cs[k].char_start
            &&& v[k].char_end == parent.char_start + cs[k].char_end
            &&& v[k].content@ == cs[k].content@
        }
}

/// `v` re-chunks `parent` with `config`: the chunks `chunk_text` may give
/// the parent's content, shifted to the parent's offsets.
pub open spec fn rechunked<F>(parent: ChunkRef, config: ResolvedChunkingConfig, chunker: F, v: Seq<ChunkRef>) -> bool where
    F: Fn(&str, u32, u32) -> Result<Vec<(usize, usize)>, ChunkerError>,
 {
    exists|t: &str, cs: Seq<ChunkResult>|
        t@ == parent.content@ && #[trigger] text_chunks(t, config, chunker, cs) && shifted_refs(parent, cs, v)
}

/// Re-chunking `parent` with `config` fails with `e`: `chunk_text` fails so
/// on the parent's content.
pub open spec fn rechunk_failure<F>(parent: ChunkRef, config: ResolvedChunkingConfig, chunker: F, e: ChunkingError) -> bool where
    F: Fn(&str, u32, u32) -> Result<Vec<(usize, usize)>, ChunkerError>,
 {
    exists|t: &str| t@ == parent.content@ && #[trigger] chunk_failure(t, config, chunker, e)
}

/// Re-chunk one parent ref with `config`, making child offsets absolute
/// (`parent.char_start + child offset`) so that they still point into the
/// original input. Children keep the parent's input index.
pub fn rechunk_ref<F>(parent: &ChunkRef, config: &ResolvedChunkingConfig, chunker: &F) -> (r: Result<
    Vec<ChunkRef>,
    ChunkingError,
>) where F: Fn(&str, u32, u32) -> Result<Vec<(usize, usize)>, ChunkerError>
    requires
        forall|t: &str, max: u32, min: u32| #[trigger] chunker.requires((t, max, min)),
        parent.char_start + parent.content@.len() <= usize::MAX,
    ensures
        all_whitespace(parent.content@) <==> r == Err::<Vec<ChunkRef>, ChunkingError>(ChunkingError::EmptyInput),
        !all_whitespace(parent.content@) && estimate_tokens_spec(parent.content@.len() as int)
            <= config.max_chunk_tokens ==> r is Ok,
        r matches Ok(v) ==> {
            &&& v@.len() > 0
            &&& forall|i: int| 0 <= i < v@.len() ==> (#[trigger] v@[i]).input_index == parent.input_index
            &&& forall|i: int| 0 <= i < v@.len() ==> parent.char_start <= (#[trigger] v@[i]).char_start
                < v@[i].char_end <= parent.char_start + parent.content@.len()
            &&& forall|i: int| 0 <= i < v@.len() ==> (#[trigger] v@[i]).content@.len() == v@[i].char_end
                - v@[i].char_start
            &&& forall|inputs: Seq<Seq<char>>| #[trigger] ref_ok(inputs, *parent) ==> refs_ok(inputs, v@)
        },
        r matches Ok(v) ==> rechunked(*parent, *config, *chunker, v@),
        r matches Err(e) ==> rechunk_failure(*parent, *config, *chunker, e),
{
    let t = parent.content.as_str();
    let children = match chunk_text(t, config, chunker) {
        Ok(c) => c,
        Err(e) => {
            proof {
                assert(chunk_failure(t, *config, *chunker, e));
            }
            return Err(e);
        },
    };
    let mut out: Vec<ChunkRef> = Vec::new();
    let mut i: usize = 0;
    while i < children.len()
        invariant
            i <= children@.len(),
            out@.len() == i,
            valid_chunks(parent.content@, children@),
            parent.char_start + parent.content@.len() <= usize::MAX,
            forall|k: int| 0 <= k < i ==> {
                &&& (#[trigger] out@[k]).input_index == parent.input_index
                &&& out@[k].char_start == parent.char_start + children@[k].char_start
                &&& out@[k].char_end == parent.char_start + children@[k].char_end
                &&& out@[k].content@ == children@[k].content@
            },
        decreases children.len() - i,
    {
        let c = &children[i];
        assert(children@[i as int].char_start < children@[i as int].char_end <= parent.content@.len());
        out.push(
            ChunkRef {
                input_index: parent.input_index,
                char_start: parent.char_start + c.char_start,
                char_end: parent.char_start + c.char_end,
                content: c.content.clone(),
            },
        );
        i = i + 1;
    }
    proof {
        assert forall|k: int| 0 <= k < out@.len() implies {
            &&& parent.char_start <= (#[trigger] out@[k]).char_start
            &&& out@[k].char_start < out@[k].char_end <= parent.char_start + parent.content@.len()
            &&& out@[k].content@ == parent.content@.subrange(
                out@[k].char_start - parent.char_start,
                out@[k].char_end - parent.char_start,
            )
        } by {
            assert(children@[k].char_start < children@[k].char_end);
        }
        assert forall|inputs: Seq<Seq<char>>| #[trigger] ref_ok(inputs, *parent) implies refs_ok(inputs, out@) by {
            assert forall|k: int| 0 <= k < out@.len() implies ref_ok(inputs, #[trigger] out@[k]) by {
                let inp = inputs[parent.input_index as int];
                assert(out@[k].char_start < out@[k].char_end);
                assert(out@[k].content@ =~= inp.subrange(out@[k].char_start as int, out@[k].char_end as int));
            }
        }
    }
    proof {
        assert(text_chunks(t, *config, *chunker, children@));
        assert(shifted_refs(*parent, children@, out@));
    }
    Ok(out)
}

/// The content of one embedding input.
#[derive(Debug)]
pub enum InputContent {
    Text(String),
    Image,
    Media,
}

/// One embedding input.
#[derive(Debug)]
pub struct EmbeddingContent {
    pub content: Option<InputContent>,
}

/// Why the inputs could not be turned into chunk refs.
#[derive(Debug, PartialEq, Eq)]
pub enum BuildRefsError {
    /// There are no inputs.
    EmptyInputs,
    /// Input `i` is an image or other media, which is not supported yet.
    NonText(usize),
    /// Input `i` has no content.
    NoContent(usize),
    /// Chunking a text input failed.
    Chunking(ChunkingError),
    /// No chunk was produced.
    NoChunks,
}

/// The text of an input (empty for non-text inputs).
pub open spec fn input_text(c: EmbeddingContent) -> Seq<char> {
    match c.content {
        Some(InputContent::Text(s)) => s@,
        _ => Seq::empty(),
    }
}

/// The texts of all inputs, by position.
pub open spec fn input_texts(inputs: Seq<EmbeddingContent>) -> Seq<Seq<char>> {
    inputs.map_values(|c: EmbeddingContent| input_text(c))
}

/// Input `i` is a text input.
pub open spec fn is_text_input(c: EmbeddingContent) -> bool {
    c.content matches Some(InputContent::Text(_))
}

/// `refs` are the chunks `cs` of input `i` as refs: that input, the same
/// offsets and contents.
pub open spec fn input_refs(i: int, cs: Seq<ChunkResult>, refs: Seq<ChunkRef>) -> bool {
    &&& refs.len() == cs.len()
    &&& forall|k: int|
        0 <= k < refs.len() ==> {
            &&& (#[trigger] refs[k]).input_index == i
            &&& refs[k].char_start == cs[k].char_start
            &&& refs[k].char_end == cs[k].char_end
            &&& refs[k].content@ == cs[k].content@
        }
}

/// `refs` are refs of chunks that `chunk_text` may give input `i`'s text.
pub open spec fn chunked_input<F>(
    c: EmbeddingContent,
    i: int,
    config: ResolvedChunkingConfig,
    chunker: F,
    refs: Seq<ChunkRef>,
) -> bool where F: Fn(&str, u32, u32) -> Result<Vec<(usize, usize)>, ChunkerError> {
    exists|t: &str, cs: Seq<ChunkResult>|
        t@ == input_text(c) && #[trigger] text_chunks(t, config, chunker, cs) && input_refs(i, cs, refs)
}

/// Input `c` is text that is not blank and whose estimate fits
/// `max_chunk_tokens`, so it is kept whole without the chunker.
pub open spec fn fits_whole(c: EmbeddingContent, config: ResolvedChunkingConfig) -> bool {
    &&& is_text_input(c)
    &&& !all_whitespace(input_text(c))
    &&& estimate_tokens_spec(input_text(c).len() as int) <= config.max_chunk_tokens
}

/// Flatten `inputs` into chunk refs, in input order then chunk order. Text
/// inputs are chunked with `chunker`; the first input that is not text
/// stops the build with an error naming its position.
pub fn build_chunk_refs<F>(inputs: &Vec<EmbeddingContent>, config: &ResolvedChunkingConfig, chunker: &F) -> (r: Result<
    Vec<ChunkRef>,
    BuildRefsError,
>) where F: Fn(&str, u32, u32) -> Result<Vec<(usize, usize)>, ChunkerError>
    requires
        forall|t: &str, max: u32, min: u32| #[trigger] chunker.requires((t, max, min)),
    ensures
        inputs@.len() == 0 <==> r == Err::<Vec<ChunkRef>, BuildRefsError>(BuildRefsError::EmptyInputs),
        r matches Ok(v) ==> {
            &&& v@.len() > 0
            &&& refs_ok(input_texts(inputs@), v@)
            &&& forall|i: int| 0 <= i < inputs@.len() ==> is_text_input(#[trigger] inputs@[i])
                && !all_whitespace(input_text(inputs@[i]))
            &&& forall|i: int, j: int| 0 <= i < j < v@.len() ==> (#[trigger] v@[i]).input_index
                <= (#[trigger] v@[j]).input_index
        },
        r matches Err(BuildRefsError::NonText(i)) ==> i < inputs@.len() && (inputs@[i as int].content
            matches Some(c) && !(c is Text)) && forall|j: int| 0 <= j < i ==> is_text_input(#[trigger] inputs@[j]),
        r matches Err(BuildRefsError::NoContent(i)) ==> i < inputs@.len() && inputs@[i as int].content
            is None && forall|j: int| 0 <= j < i ==> is_text_input(#[trigger] inputs@[j]),
        r matches Err(BuildRefsError::Chunking(ChunkingError::EmptyInput)) ==> exists|i: int|
            0 <= i < inputs@.len() && is_text_input(#[trigger] inputs@[i]) && all_whitespace(input_text(inputs@[i])),
        !(r matches Err(BuildRefsError::NoChunks)),
        r matches Ok(v) ==> exists|parts: Seq<Seq<ChunkRef>>| {
            &&& parts.len() == inputs@.len()
            &&& forall|i: int| 0 <= i < parts.len() ==> chunked_input(inputs@[i], i, *config, *chunker, #[trigger] parts[i])
            &&& v@ == parts.flatten()
        },
        r matches Err(BuildRefsError::Chunking(e)) ==> exists|i: int| {
            &&& 0 <= i < inputs@.len()
            &&& forall|j: int| 0 <= j < i ==> is_text_input(#[trigger] inputs@[j])
            &&& #[trigger] is_text_input(inputs@[i])
            &&& exists|t: &str| t@ == input_text(inputs@[i]) && #[trigger] chunk_failure(t, *config, *chunker, e)
        },
        inputs@.len() > 0 && (forall|i: int| 0 <= i < inputs@.len() ==> fits_whole(#[trigger] inputs@[i], *config))
            ==> r is Ok,
        forall|i: int|
            0 <= i < inputs@.len() && !is_text_input(#[trigger] inputs@[i]) && (forall|j: int|
                0 <= j < i ==> fits_whole(#[trigger] inputs@[j], *config)) ==> r == (if inputs@[i].content is None {
                Err::<Vec<ChunkRef>, BuildRefsError>(BuildRefsError::NoContent(i as usize))
            } else {
                Err::<Vec<ChunkRef>, BuildRefsError>(BuildRefsError::NonText(i as usize))
            }),
{
    if inputs.len() == 0 {
        return Err(BuildRefsError::EmptyInputs);
    }
    let ghost texts = input_texts(inputs@);
    let mut refs: Vec<ChunkRef> = Vec::new();
    let ghost mut parts: Seq<Seq<ChunkRef>> = Seq::empty();
    let mut idx: usize = 0;
    while idx < inputs.len()
        invariant
            idx <= inputs@.len(),
            parts.len() == idx,
            forall|i: int| 0 <= i < idx ==> chunked_input(inputs@[i], i, *config, *chunker, #[trigger] parts[i]),
            refs@ == parts.flatten_alt(),
            texts == input_texts(inputs@),
            texts.len() == inputs@.len(),
            forall|t: &str, max: u32, min: u32| #[trigger] chunker.requires((t, max, min)),
            refs_ok(texts, refs@),
            forall|i: int| 0 <= i < idx ==> is_text_input(#[trigger] inputs@[i]) && !all_whitespace(input_text(inputs@[i])),
            forall|k: int| 0 <= k < refs@.len() ==> (#[trigger] refs@[k]).input_index < idx,
            forall|i: int, j: int| 0 <= i < j < refs@.len() ==> (#[trigger] refs@[i]).input_index
                <= (#[trigger] refs@[j]).input_index,
            idx > 0 ==> refs@.len() > 0,
        decreases inputs.len() - idx,
    {
        match &inputs[idx].content {
            Some(InputContent::Text(text)) => {
                let t = text.as_str();
                let chunks = match chunk_text(t, config, chunker) {
                    Ok(c) => c,
                    Err(e) => {
                        proof {
                            assert(is_text_input(inputs@[idx as int]));
                            if e == ChunkingError::EmptyInput {
                                assert(all_whitespace(input_text(inputs@[idx as int])));
                            }
                            assert(chunk_failure(t, *config, *chunker, e));
                            assert(!fits_whole(inputs@[idx as int], *config));
                        }
                        return Err(BuildRefsError::Chunking(e));
                    },
                };
                proof {
                    assert(texts[idx as int] == text@);
                    assert(!all_whitespace(text@));
                }
                let ghost before = refs@;
                let mut k: usize = 0;
                while k < chunks.len()
                    invariant
                        k <= chunks@.len(),
                        valid_chunks(text@, chunks@),
                        texts[idx as int] == text@,
                        idx < texts.len(),
                        refs@.len() == before.len() + k,
                        forall|q: int| 0 <= q < before.len() ==> refs@[q] == before[q],
                        refs_ok(texts, refs@),
                        forall|q: int| 0 <= q < refs@.len() ==> (#[trigger] refs@[q]).input_index <= idx,
                        forall|q: int| 0 <= q < before.len() ==> (#[trigger] before[q]).input_index < idx,
                        forall|q: int| before.len() <= q < refs@.len() ==> (#[trigger] refs@[q]).input_index == idx,
                        forall|i: int, j: int| 0 <= i < j < refs@.len() ==> (#[trigger] refs@[i]).input_index
                            <= (#[trigger] refs@[j]).input_index,
                        input_refs(idx as int, chunks@.take(k as int), refs@.skip(before.len() as int)),
                    decreases chunks.len() - k,
                {
                    let c = &chunks[k];
                    let ghost prev = refs@;
                    proof {
                        assert(chunks@[k as int].char_start < chunks@[k as int].char_end);
                    }
                    refs.push(
                        ChunkRef {
                            input_index: idx,
                            char_start: c.char_start,
                            char_end: c.char_end,
                            content: c.content.clone(),
                        },
                    );
                    proof {
                        assert(refs@.skip(before.len() as int) =~= prev.skip(before.len() as int).push(refs@[refs@.len() - 1]));
                        assert(chunks@.take(k + 1) =~= chunks@.take(k as int).push(chunks@[k as int]));
                        assert(ref_ok(texts, refs@[refs@.len() - 1]));
                        assert forall|q: int| 0 <= q < refs@.len() implies ref_ok(texts, #[trigger] refs@[q]) by {
                            if q < refs@.len() - 1 {
                                assert(refs@[q] == prev[q]);
                            }
                        }
                    }
                    k = k + 1;
                }
                proof {
                    let added = refs@.skip(before.len() as int);
                    assert(chunks@.take(k as int) =~= chunks@);
                    assert(text_chunks(t, *config, *chunker, chunks@));
                    assert(input_text(inputs@[idx as int]) == t@);
                    assert(chunked_input(inputs@[idx as int], idx as int, *config, *chunker, added));
                    let prev_parts = parts;
                    parts = parts.push(added);
                    assert(parts.drop_last() =~= prev_parts);
                    assert(refs@ =~= before + added);
                    assert(refs@ =~= parts.flatten_alt());
                }
            },
            Some(InputContent::Image) | Some(InputContent::Media) => {
                proof {
                    assert(!is_text_input(inputs@[idx as int]));
                    assert(!fits_whole(inputs@[idx as int], *config));
                }
                return Err(BuildRefsError::NonText(idx));
            },
            None => {
                proof {
                    assert(!is_text_input(inputs@[idx as int]));
                    assert(!fits_whole(inputs@[idx as int], *config));
                }
                return Err(BuildRefsError::NoContent(idx));
            },
        }
        idx = idx + 1;
    }
    proof {
        parts.lemma_flatten_and_flatten_alt_are_equivalent();
    }
    if refs.len() == 0 {
        return Err(BuildRefsError::NoChunks);
    }
    Ok(refs)
}

/// One embedding of the final result.
#[derive(Debug)]
pub struct Embedding<T> {
    pub vector: Vec<T>,
    pub input_index: u32,
    pub begin_position: u32,
    pub end_position: u32,
    pub content: String,
    pub dimensions: u32,
}

/// Token usage of the final result.
#[derive(Debug)]
pub struct EmbeddingUsage {
    pub model: String,
    pub prompt_tokens: Option<u32>,
    pub total_tokens: Option<u32>,
}

/// The final embedding result.
#[derive(Debug)]
pub struct LlmEmbeddingResult<T> {
    pub embeddings: Vec<Embedding<T>>,
    pub usage: Option<EmbeddingUsage>,
}

/// Output entry `e` is the embedding of ref `r` with vector `v`.
pub open spec fn embedding_of<T>(r: ChunkRef, v: Vec<T>, e: Embedding<T>) -> bool {
    &&& e.vector == v
    &&& e.input_index == r.input_index as u32
    &&& e.begin_position == r.char_start as u32
    &&& e.end_position == r.char_end as u32
    &&& e.content@ == r.content@
    &&& e.dimensions == v@.len() as u32
}

/// Assemble the final result from refs and their aligned vectors, in refs
/// order (pairs beyond the shorter of the two are dropped), with usage
/// carried over field by field.
pub fn build_result<T>(refs: &Vec<ChunkRef>, vectors: Vec<Vec<T>>, usage: Option<ProviderUsage>) -> (r: LlmEmbeddingResult<T>)
    ensures
        r.embeddings@.len() == if refs@.len() <= vectors@.len() { refs@.len() } else { vectors@.len() },
        forall|i: int| 0 <= i < r.embeddings@.len() ==> embedding_of(refs@[i], vectors@[i], #[trigger] r.embeddings@[i]),
        r.usage is Some <==> usage is Some,
        r.usage matches Some(u) ==> usage matches Some(p) && u.model@ == p.model@ && u.prompt_tokens == p.prompt_tokens && u.total_tokens == p.total_tokens,
{
    let ghost vs0 = vectors@;
    let n = if refs.len() <= vectors.len() { refs.len() } else { vectors.len() };
    let mut vs = vectors;
    let mut rev: Vec<Vec<T>> = Vec::new();
    while vs.len() > 0
        invariant
            vs@ == vs0.take(vs@.len() as int),
            vs@.len() <= vs0.len(),
            rev@.len() == vs0.len() - vs@.len(),
            forall|k: int| 0 <= k < rev@.len() ==> #[trigger] rev@[k] == vs0[vs0.len() - 1 - k],
        decreases vs@.len(),
    {
        let v = vs.pop().unwrap();
        proof {
            assert(vs@ =~= vs0.take(vs@.len() as int));
        }
        rev.push(v);
    }
    let mut embeddings: Vec<Embedding<T>> = Vec::new();
    let mut i: usize = 0;
    while i < n
        invariant
            n <= refs@.len(),
            n <= vs0.len(),
            i <= n,
            rev@.len() == vs0.len() - i,
            forall|k: int| 0 <= k < rev@.len() ==> #[trigger] rev@[k] == vs0[vs0.len() - 1 - k],
            embeddings@.len() == i,
            forall|k: int| 0 <= k < i ==> embedding_of(refs@[k], vs0[k], #[trigger] embeddings@[k]),
        decreases n - i,
    {
        let ghost before = rev@;
        let vector = rev.pop().unwrap();
        proof {
            assert(vector == vs0[i as int]);
            assert forall|k: int| 0 <= k < rev@.len() implies #[trigger] rev@[k] == vs0[vs0.len() - 1 - k] by {
                assert(rev@[k] == before[k]);
            }
        }
        let r = &refs[i];
        let dimensions = #[verifier::truncate] (vector.len() as u32);
        embeddings.push(
            Embedding {
                vector,
                input_index: #[verifier::truncate] (r.input_index as u32),
                begin_position: #[verifier::truncate] (r.char_start as u32),
                end_position: #[verifier::truncate] (r.char_end as u32),
                content: r.content.clone(),
                dimensions,
            },
        );
        i = i + 1;
    }
    let usage = match usage {
        Some(u) => Some(
            EmbeddingUsage { model: u.model, prompt_tokens: u.prompt_tokens, total_tokens: u.total_tokens },
        ),
        None => None,
    };
    LlmEmbeddingResult { embeddings, usage }
}

} // verus!
