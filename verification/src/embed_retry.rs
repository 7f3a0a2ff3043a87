//! The embedding retry-split procedure as a state machine.
//!
//! The caller owns the backend and performs each embedding request; the
//! machine decides what to send next. A whole batch is sent first; on a
//! context-length error the batch is re-chunked with a halved token budget,
//! at most [`MAX_WHOLE_RETRIES`] times; after that (or once the budget hits
//! its floor) every ref is sent alone, and a single ref that is still too
//! long is replaced by its own sub-chunks until the floor is reached. Any
//! other backend error ends the procedure at once.

use vstd::prelude::*;
use crate::chunking::{estimate_tokens_spec, text_chunks, ChunkResult, ChunkerError, ChunkingError, ResolvedChunkingConfig};
use crate::chunking::chunk_failure;
use crate::embed_core::{
    map_error, map_response_to_refs, mapped_ok, rechunk_failure, rechunked, shifted_refs, ref_ok, refs_ok, rechunk_ref, shrunk_config,
    shrunk_spec, ChunkRef, MapError, MAX_WHOLE_RETRIES,
};
use crate::embedding::{
    aggregate_usage, any_usage, first_model, fits_u32, lemma_sums_monotone, sum_prompt, sum_total,
    EmbeddingBackendResponse, EmbeddingError, ProviderEmbedding, ProviderUsage,
};
use crate::text::{all_whitespace, str_eq};

verus! {

/// The outcome of a finished procedure.
#[derive(Debug)]
pub struct EmbedOutput<T> {
    /// The refs that were embedded (re-chunked refs carry absolute offsets).
    pub refs: Vec<ChunkRef>,
    /// One vector per ref, aligned with `refs`.
    pub vectors: Vec<Vec<T>>,
    /// Usage aggregated over every successful request.
    pub usage: Option<ProviderUsage>,
}

/// Why the procedure failed.
#[derive(Debug)]
pub enum EmbedFailure {
    /// The backend failed with an error that retrying cannot fix.
    Backend(String),
    /// A response did not match the chunks it answered.
    Mapping(MapError),
    /// Re-chunking failed.
    Chunking(ChunkingError),
    /// A single chunk was still too long at the minimum chunk size.
    TooLongAtFloor { input_index: usize, char_start: usize, char_end: usize, message: String },
    /// The summed token counts do not fit in `u32`.
    UsageOverflow,
}

/// What the caller does next.
#[derive(Debug)]
pub enum RetryStep<T> {
    /// Send these texts to the backend as one batch and report the outcome.
    Embed(Vec<String>),
    /// The procedure is over.
    Done(Result<EmbedOutput<T>, EmbedFailure>),
}

/// State of the retry-split procedure.
pub struct EmbedRetry<T> {
    single: bool,
    finished: bool,
    attempt: usize,
    current_refs: Vec<ChunkRef>,
    current_config: ResolvedChunkingConfig,
    queue: Vec<(ChunkRef, ResolvedChunkingConfig)>,
    in_flight: Option<(ChunkRef, ResolvedChunkingConfig)>,
    out_refs: Vec<ChunkRef>,
    out_vecs: Vec<Vec<T>>,
    usages: Vec<Option<ProviderUsage>>,
}

/// `r` is small enough that absolute offsets of its sub-chunks fit.
pub open spec fn ref_bounded(r: ChunkRef) -> bool {
    r.char_start + r.content@.len() <= usize::MAX
}

/// The texts sent for `refs`: their contents, in order.
pub open spec fn texts_match(texts: Seq<String>, refs: Seq<ChunkRef>) -> bool {
    &&& texts.len() == refs.len()
    &&& forall|i: int| 0 <= i < texts.len() ==> (#[trigger] texts[i])@ == refs[i].content@
}

/// `u` is the aggregate of `us` as [`aggregate_usage`] computes it.
pub open spec fn aggregated(us: Seq<Option<ProviderUsage>>, u: Option<ProviderUsage>) -> bool {
    &&& (u is Some <==> any_usage(us))
    &&& u matches Some(x) ==> {
        &&& x.model@ == (match first_model(us) {
            Some(m) => m,
            None => Seq::<char>::empty(),
        })
        &&& (match x.prompt_tokens {
            Some(p) => sum_prompt(us) == Some(p as int),
            None => sum_prompt(us) is None,
        })
        &&& (match x.total_tokens {
            Some(t) => sum_total(us) == Some(t as int),
            None => sum_total(us) is None,
        })
    }
}

/// Every ref of a queue is valid.
pub open spec fn queue_ok(inputs: Seq<Seq<char>>, q: Seq<(ChunkRef, ResolvedChunkingConfig)>) -> bool {
    forall|i: int| 0 <= i < q.len() ==> ref_ok(inputs, (#[trigger] q[i]).0)
}

/// Every ref of a queue is bounded.
pub open spec fn queue_bounded(q: Seq<(ChunkRef, ResolvedChunkingConfig)>) -> bool {
    forall|i: int| 0 <= i < q.len() ==> ref_bounded((#[trigger] q[i]).0)
}

/// `v` re-chunks `parent`: at least one chunk, each of the parent's input,
/// within the parent's char range, with content as long as its range.
pub open spec fn children_of(parent: ChunkRef, v: Seq<ChunkRef>) -> bool {
    &&& v.len() > 0
    &&& forall|i: int|
        0 <= i < v.len() ==> {
            &&& (#[trigger] v[i]).input_index == parent.input_index
            &&& parent.char_start <= v[i].char_start < v[i].char_end <= parent.char_start
                + parent.content@.len()
            &&& v[i].content@.len() == v[i].char_end - v[i].char_start
        }
}

/// `v` is `refs` with every ref re-chunked under `config`, the children
/// of each ref in place of it, in order.
pub open spec fn rechunked_all<F>(refs: Seq<ChunkRef>, config: ResolvedChunkingConfig, chunker: F, v: Seq<ChunkRef>) -> bool where
    F: Fn(&str, u32, u32) -> Result<Vec<(usize, usize)>, ChunkerError>,
 {
    exists|parts: Seq<Seq<ChunkRef>>| {
        &&& parts.len() == refs.len()
        &&& forall|k: int| 0 <= k < parts.len() ==> rechunked(refs[k], config, chunker, #[trigger] parts[k])
        &&& v == parts.flatten()
    }
}

/// Re-chunking some ref of `refs` under `config` fails with `e`.
pub open spec fn rechunk_failed_at<F>(refs: Seq<ChunkRef>, config: ResolvedChunkingConfig, chunker: F, e: ChunkingError) -> bool where
    F: Fn(&str, u32, u32) -> Result<Vec<(usize, usize)>, ChunkerError>,
 {
    exists|k: int| 0 <= k < refs.len() && #[trigger] rechunk_failure(refs[k], config, chunker, e)
}

/// A whole batch `refs` was answered with `es`, mapped without error: the
/// procedure finishes with the refs and the vectors the answer gives them,
/// unless the summed usage overflows.
pub open spec fn finished_with<T>(
    step: RetryStep<T>,
    refs: Seq<ChunkRef>,
    es: Seq<ProviderEmbedding<T>>,
    usages: Seq<Option<ProviderUsage>>,
) -> bool {
    &&& step matches RetryStep::Done(res)
    &&& usage_fits(usages) ==> (res matches Ok(out) && out.refs@ == refs && mapped_ok(es, refs.len() as int, out.vectors@))
    &&& !usage_fits(usages) ==> (res matches Err(EmbedFailure::UsageOverflow))
}

/// A too-long whole batch `refs` (attempt `a`) is re-chunked under the
/// shrunk `config`: on success the re-chunked batch is sent as attempt
/// `a + 1`; otherwise the procedure ends with the re-chunking error. Refs
/// that are not blank and already fit the budget always re-chunk.
pub open spec fn shrink_step<T, F>(
    post: EmbedRetry<T>,
    step: RetryStep<T>,
    refs: Seq<ChunkRef>,
    config: ResolvedChunkingConfig,
    chunker: F,
    a: int,
) -> bool where F: Fn(&str, u32, u32) -> Result<Vec<(usize, usize)>, ChunkerError> {
    &&& step is Embed ==> {
        &&& post.whole_attempt() == Some(a + 1)
        &&& post.batch_config() == config
        &&& rechunked_all(refs, config, chunker, post.batch())
    }
    &&& step matches RetryStep::Done(res) ==> (res matches Err(EmbedFailure::Chunking(e)) && rechunk_failed_at(
        refs,
        config,
        chunker,
        e,
    ))
    &&& (forall|k: int| 0 <= k < refs.len() ==> !all_whitespace((#[trigger] refs[k]).content@)
        && estimate_tokens_spec(refs[k].content@.len() as int) <= config.max_chunk_tokens) ==> step is Embed
}

/// The procedure ends because `r` is still too long at the smallest
/// budget; the error names its input, its char range and the backend's
/// message `m`.
pub open spec fn floor_error<T>(step: RetryStep<T>, r: ChunkRef, m: Seq<char>) -> bool {
    step matches RetryStep::Done(
        Err(EmbedFailure::TooLongAtFloor { input_index, char_start, char_end, message }),
    ) && input_index == r.input_index && char_start == r.char_start && char_end == r.char_end && message@ == m
}

/// A single ref `r`, too long for the backend, is re-chunked under the
/// shrunk `config`: if that fails, the procedure ends with the error; if it
/// gives `r` back unchanged, `r` is too long at the floor; otherwise its
/// children take its place, in order, at the head of the refs still to send.
/// A ref that is not blank and fits the budget always re-chunks.
pub open spec fn split_step<T, F>(
    post: EmbedRetry<T>,
    step: RetryStep<T>,
    r: ChunkRef,
    config: ResolvedChunkingConfig,
    chunker: F,
    m: Seq<char>,
    embedded: Seq<ChunkRef>,
    vectors: Seq<Vec<T>>,
    pending: Seq<(ChunkRef, ResolvedChunkingConfig)>,
    usages: Seq<Option<ProviderUsage>>,
) -> bool where F: Fn(&str, u32, u32) -> Result<Vec<(usize, usize)>, ChunkerError> {
    &&& {
        ||| step matches RetryStep::Done(Err(EmbedFailure::Chunking(e))) && rechunk_failure(r, config, chunker, e)
        ||| exists|ch: Seq<ChunkRef>| #[trigger]
            rechunked(r, config, chunker, ch) && if ch.len() == 1 && ch[0].content@ == r.content@ {
                floor_error(step, r, m)
            } else {
                continues(post, step, embedded, vectors, queued(ch, config) + pending, usages)
            }
    }
    &&& (!all_whitespace(r.content@) && estimate_tokens_spec(r.content@.len() as int) <= config.max_chunk_tokens)
        ==> !(step matches RetryStep::Done(Err(EmbedFailure::Chunking(_))))
}

/// `c` lies inside `parent`: same input, a non-empty char range within the
/// parent's, and the parent's text over that range.
pub open spec fn within(parent: ChunkRef, c: ChunkRef) -> bool {
    &&& c.input_index == parent.input_index
    &&& parent.char_start <= c.char_start < c.char_end <= parent.char_start + parent.content@.len()
    &&& c.content@ == parent.content@.subrange(c.char_start - parent.char_start, c.char_end - parent.char_start)
}

/// `c` lies inside one of `refs`.
pub open spec fn inside_some(refs: Seq<ChunkRef>, c: ChunkRef) -> bool {
    exists|k: int| 0 <= k < refs.len() && #[trigger] within(refs[k], c)
}

/// Every ref of `v` lies inside one of `origin`.
pub open spec fn all_inside(origin: Seq<ChunkRef>, v: Seq<ChunkRef>) -> bool {
    forall|i: int| 0 <= i < v.len() ==> inside_some(origin, #[trigger] v[i])
}

/// What lies inside a ref that lies inside one of `origin` lies inside
/// that one too.
pub proof fn lemma_inside_trans(origin: Seq<ChunkRef>, p: ChunkRef, c: ChunkRef)
    requires
        inside_some(origin, p),
        within(p, c),
    ensures
        inside_some(origin, c),
{
    let k = choose|k: int| 0 <= k < origin.len() && #[trigger] within(origin[k], p);
    let o = origin[k];
    assert(c.content@ =~= o.content@.subrange(c.char_start - o.char_start, c.char_end - o.char_start));
    assert(within(origin[k], c));
}

/// Refs inside refs inside `origin` are inside `origin`.
proof fn lemma_all_inside_trans(origin: Seq<ChunkRef>, mid: Seq<ChunkRef>, v: Seq<ChunkRef>)
    requires
        all_inside(origin, mid),
        all_inside(mid, v),
    ensures
        all_inside(origin, v),
{
    assert forall|i: int| 0 <= i < v.len() implies inside_some(origin, #[trigger] v[i]) by {
        let k = choose|k: int| 0 <= k < mid.len() && #[trigger] within(mid[k], v[i]);
        lemma_inside_trans(origin, mid[k], v[i]);
    }
}

/// Re-chunking a ref gives back only refs that lie inside it.
pub proof fn lemma_rechunked_within<F>(parent: ChunkRef, config: ResolvedChunkingConfig, chunker: F, v: Seq<ChunkRef>)
    where F: Fn(&str, u32, u32) -> Result<Vec<(usize, usize)>, ChunkerError>
    requires
        rechunked(parent, config, chunker, v),
    ensures
        forall|i: int| 0 <= i < v.len() ==> within(parent, #[trigger] v[i]),
{
    let (t, cs) = choose|t: &str, cs: Seq<ChunkResult>|
        t@ == parent.content@ && #[trigger] text_chunks(t, config, chunker, cs) && shifted_refs(parent, cs, v);
    assert forall|i: int| 0 <= i < v.len() implies within(parent, #[trigger] v[i]) by {
        assert(cs[i].char_start < cs[i].char_end);
    }
}

/// Element `j` of a flattened sequence is an element of one of its parts.
proof fn lemma_flatten_member<A>(parts: Seq<Seq<A>>, j: int)
    requires
        0 <= j < parts.flatten().len(),
    ensures
        exists|k: int, i: int| 0 <= k < parts.len() && 0 <= i < parts[k].len() && parts.flatten()[j] == #[trigger] parts[k][i],
    decreases parts.len(),
{
    if parts.len() > 0 {
        let f = parts.first();
        let rest = parts.drop_first();
        assert(parts.flatten() == f + rest.flatten());
        if j < f.len() {
            assert(parts.flatten()[j] == parts[0][j]);
        } else {
            lemma_flatten_member(rest, j - f.len());
            let (k, i) = choose|k: int, i: int|
                0 <= k < rest.len() && 0 <= i < rest[k].len() && rest.flatten()[j - f.len()] == #[trigger] rest[k][i];
            assert(parts.flatten()[j] == parts[k + 1][i]);
        }
    }
}

/// Ref `j` of a re-chunked batch lies inside one of the batch's refs.
proof fn lemma_rechunked_member<F>(refs: Seq<ChunkRef>, config: ResolvedChunkingConfig, chunker: F, v: Seq<ChunkRef>, j: int)
    where F: Fn(&str, u32, u32) -> Result<Vec<(usize, usize)>, ChunkerError>
    requires
        rechunked_all(refs, config, chunker, v),
        0 <= j < v.len(),
    ensures
        inside_some(refs, v[j]),
{
    let parts = choose|parts: Seq<Seq<ChunkRef>>| {
        &&& parts.len() == refs.len()
        &&& forall|k: int| 0 <= k < parts.len() ==> rechunked(refs[k], config, chunker, #[trigger] parts[k])
        &&& v == parts.flatten()
    };
    lemma_flatten_member(parts, j);
    let (k, i) = choose|k: int, i: int|
        0 <= k < parts.len() && 0 <= i < parts[k].len() && parts.flatten()[j] == #[trigger] parts[k][i];
    lemma_rechunked_within(refs[k], config, chunker, parts[k]);
    assert(within(refs[k], v[j]));
}

/// Re-chunking a batch gives back only refs that lie inside one of the
/// batch's refs.
pub proof fn lemma_rechunked_all_within<F>(refs: Seq<ChunkRef>, config: ResolvedChunkingConfig, chunker: F, v: Seq<ChunkRef>)
    where F: Fn(&str, u32, u32) -> Result<Vec<(usize, usize)>, ChunkerError>
    requires
        rechunked_all(refs, config, chunker, v),
    ensures
        forall|j: int| 0 <= j < v.len() ==> inside_some(refs, #[trigger] v[j]),
{
    assert forall|j: int| 0 <= j < v.len() implies inside_some(refs, #[trigger] v[j]) by {
        lemma_rechunked_member(refs, config, chunker, v, j);
    }
}

/// Every ref of a list is bounded.
pub open spec fn all_bounded(refs: Seq<ChunkRef>) -> bool {
    forall|i: int| 0 <= i < refs.len() ==> ref_bounded(#[trigger] refs[i])
}

/// Whether the summed token counts of `us` fit in `u32`.
fn usage_sums_fit(us: &Vec<Option<ProviderUsage>>) -> (b: bool)
    ensures
        b == (fits_u32(sum_prompt(us@)) && fits_u32(sum_total(us@))),
{
    let mut p: u64 = 0;
    let mut t: u64 = 0;
    let mut i: usize = 0;
    while i < us.len()
        invariant
            i <= us@.len(),
            p == (match sum_prompt(us@.take(i as int)) { Some(v) => v, None => 0 }),
            t == (match sum_total(us@.take(i as int)) { Some(v) => v, None => 0 }),
            p <= u32::MAX,
            t <= u32::MAX,
        decreases us.len() - i,
    {
        proof {
            assert(us@.take(i + 1).drop_last() =~= us@.take(i as int));
            assert(us@.take(i + 1).last() == us@[i as int]);
            lemma_sums_monotone(us@, i + 1);
        }
        match &us[i] {
            Some(u) => {
                match u.prompt_tokens {
                    Some(x) => {
                        p = p + x as u64;
                    },
                    None => {},
                }
                match u.total_tokens {
                    Some(x) => {
                        t = t + x as u64;
                    },
                    None => {},
                }
            },
            None => {},
        }
        if p > 0xFFFF_FFFF || t > 0xFFFF_FFFF {
            proof {
                lemma_sums_monotone(us@, i + 1);
            }
            return false;
        }
        i = i + 1;
    }
    proof {
        assert(us@.take(i as int) =~= us@);
    }
    true
}

/// The summed token counts of `us` fit in `u32`.
pub open spec fn usage_fits(us: Seq<Option<ProviderUsage>>) -> bool {
    fits_u32(sum_prompt(us)) && fits_u32(sum_total(us))
}

/// `refs` queued to be sent one by one under `config`.
pub open spec fn queued(refs: Seq<ChunkRef>, config: ResolvedChunkingConfig) -> Seq<(ChunkRef, ResolvedChunkingConfig)> {
    refs.map_values(|r: ChunkRef| (r, config))
}

/// How single-item mode goes on from the refs embedded so far (`embedded`,
/// with `vectors`) and the refs still to send (`pending`, in order): the
/// first pending ref is sent alone; with none left the procedure finishes
/// with what was embedded, unless the summed usage overflows.
pub open spec fn continues<T>(
    post: EmbedRetry<T>,
    step: RetryStep<T>,
    embedded: Seq<ChunkRef>,
    vectors: Seq<Vec<T>>,
    pending: Seq<(ChunkRef, ResolvedChunkingConfig)>,
    usages: Seq<Option<ProviderUsage>>,
) -> bool {
    if pending.len() > 0 {
        &&& step is Embed
        &&& !post.is_finished()
        &&& post.whole_attempt() is None
        &&& post.batch() == seq![pending[0].0]
        &&& post.batch_config() == pending[0].1
        &&& post.pending() == pending.drop_first()
        &&& post.embedded() == embedded
        &&& post.embedded_vectors() == vectors
    } else {
        &&& post.is_finished()
        &&& step matches RetryStep::Done(res)
        &&& usage_fits(usages) ==> (res matches Ok(out) && out.refs@ == embedded && out.vectors@ == vectors)
        &&& !usage_fits(usages) ==> (res matches Err(EmbedFailure::UsageOverflow))
    }
}

impl<T> EmbedRetry<T> {
    /// Internal consistency of the state.
    pub closed spec fn wf(&self) -> bool {
        &&& self.out_refs@.len() == self.out_vecs@.len()
        &&& self.attempt <= MAX_WHOLE_RETRIES
        &&& !self.finished ==> (if self.single {
            self.in_flight is Some && self.current_refs@.len() == 0
        } else {
            self.in_flight is None && self.queue@.len() == 0 && self.out_refs@.len() == 0
        })
        &&& all_bounded(self.current_refs@)
        &&& queue_bounded(self.queue@)
        &&& (self.in_flight matches Some(f) ==> ref_bounded(f.0))
    }

    /// The procedure has returned `Done`.
    pub closed spec fn is_finished(&self) -> bool {
        self.finished
    }

    /// The usage of every successful response so far, in order.
    pub closed spec fn usage_history(&self) -> Seq<Option<ProviderUsage>> {
        self.usages@
    }

    /// Whole-batch attempt number, or `None` once single-item fallback began.
    pub closed spec fn whole_attempt(&self) -> Option<int> {
        if self.single { None } else { Some(self.attempt as int) }
    }

    /// The token budget the request in flight was chunked with.
    pub closed spec fn batch_config(&self) -> ResolvedChunkingConfig {
        if self.single {
            match self.in_flight {
                Some(f) => f.1,
                None => self.current_config,
            }
        } else {
            self.current_config
        }
    }

    /// The refs still to be sent alone, in sending order, with their budgets.
    pub closed spec fn pending(&self) -> Seq<(ChunkRef, ResolvedChunkingConfig)> {
        self.queue@.reverse()
    }

    /// The refs embedded one by one so far, in order.
    pub closed spec fn embedded(&self) -> Seq<ChunkRef> {
        self.out_refs@
    }

    /// The vectors of [`Self::embedded`], aligned with it.
    pub closed spec fn embedded_vectors(&self) -> Seq<Vec<T>> {
        self.out_vecs@
    }

    /// Every ref held by the state is a valid chunk of `inputs`.
    pub closed spec fn refs_valid(&self, inputs: Seq<Seq<char>>) -> bool {
        &&& refs_ok(inputs, self.current_refs@)
        &&& queue_ok(inputs, self.queue@)
        &&& (self.in_flight matches Some(f) ==> ref_ok(inputs, f.0))
        &&& refs_ok(inputs, self.out_refs@)
    }

    /// Every ref held by the state lies inside one of `origin`.
    pub closed spec fn refs_within(&self, origin: Seq<ChunkRef>) -> bool {
        &&& all_inside(origin, self.current_refs@)
        &&& forall|i: int| 0 <= i < self.queue@.len() ==> inside_some(origin, (#[trigger] self.queue@[i]).0)
        &&& (self.in_flight matches Some(f) ==> inside_some(origin, f.0))
        &&& all_inside(origin, self.out_refs@)
    }

    /// Start with the whole batch of `refs` under `config`; the returned
    /// texts are the refs' contents, to be sent as one batch.
    pub fn start(refs: Vec<ChunkRef>, config: ResolvedChunkingConfig) -> (r: (Self, Vec<String>))
        requires
            all_bounded(refs@),
        ensures
            r.0.wf(),
            !r.0.is_finished(),
            r.0.usage_history().len() == 0,
            r.0.whole_attempt() == Some(0int),
            r.0.batch() == refs@,
            texts_match(r.1@, refs@),
            forall|inputs: Seq<Seq<char>>| refs_ok(inputs, refs@) ==> #[trigger] r.0.refs_valid(inputs),
            (forall|k: int| 0 <= k < refs@.len() ==> within(#[trigger] refs@[k], refs@[k])) ==> r.0.refs_within(refs@),
    {
        let texts = texts_of(&refs);
        proof {
            assert forall|i: int| 0 <= i < refs@.len() && (forall|k: int| 0 <= k < refs@.len() ==> within(#[trigger] refs@[k], refs@[k]))
                implies inside_some(refs@, #[trigger] refs@[i]) by {
                assert(within(refs@[i], refs@[i]));
            }
        }
        let m = EmbedRetry {
            single: false,
            finished: false,
            attempt: 0,
            current_refs: refs,
            current_config: config,
            queue: Vec::new(),
            in_flight: None,
            out_refs: Vec::new(),
            out_vecs: Vec::new(),
            usages: Vec::new(),
        };
        (m, texts)
    }

    /// The refs of the request in flight.
    pub closed spec fn batch(&self) -> Seq<ChunkRef> {
        if self.single {
            match self.in_flight {
                Some(f) => seq![f.0],
                None => Seq::empty(),
            }
        } else {
            self.current_refs@
        }
    }

    /// Re-chunk every ref of `refs` with `config`, in order, and
    /// concatenate the children; the first ref that fails to re-chunk ends
    /// it with that error.
    fn rechunk_all<F>(refs: &Vec<ChunkRef>, config: &ResolvedChunkingConfig, chunker: &F) -> (r: Result<
        Vec<ChunkRef>,
        ChunkingError,
    >) where F: Fn(&str, u32, u32) -> Result<Vec<(usize, usize)>, ChunkerError>
        requires
            forall|t: &str, max: u32, min: u32| #[trigger] chunker.requires((t, max, min)),
            all_bounded(refs@),
        ensures
            r matches Ok(v) ==> all_bounded(v@) && forall|inputs: Seq<Seq<char>>| refs_ok(inputs, refs@) ==> #[trigger] refs_ok(inputs, v@),
            r matches Ok(v) ==> exists|parts: Seq<Seq<ChunkRef>>| {
                &&& parts.len() == refs@.len()
                &&& forall|k: int| 0 <= k < parts.len() ==> children_of(refs@[k], #[trigger] parts[k])
                &&& forall|k: int| 0 <= k < parts.len() ==> rechunked(refs@[k], *config, *chunker, #[trigger] parts[k])
                &&& v@ == parts.flatten()
            },
            r matches Err(e) ==> rechunk_failed_at(refs@, *config, *chunker, e),
            r matches Ok(v) ==> all_inside(refs@, v@),
            (exists|k: int| 0 <= k < refs@.len() && all_whitespace((#[trigger] refs@[k]).content@)) ==> r is Err,
            (forall|k: int| 0 <= k < refs@.len() ==> !all_whitespace((#[trigger] refs@[k]).content@)
                && estimate_tokens_spec(refs@[k].content@.len() as int) <= config.max_chunk_tokens) ==> r is Ok,
    {
        let mut rebuilt: Vec<ChunkRef> = Vec::new();
        let ghost mut parts: Seq<Seq<ChunkRef>> = Seq::empty();
        let mut i: usize = 0;
        while i < refs.len()
            invariant
                i <= refs@.len(),
                parts.len() == i,
                forall|k: int| 0 <= k < i ==> children_of(refs@[k], #[trigger] parts[k]),
                forall|k: int| 0 <= k < i ==> rechunked(refs@[k], *config, *chunker, #[trigger] parts[k]),
                rebuilt@ == parts.flatten_alt(),
                forall|k: int| 0 <= k < i ==> !all_whitespace((#[trigger] refs@[k]).content@),
                all_bounded(refs@),
                all_bounded(rebuilt@),
                forall|t: &str, max: u32, min: u32| #[trigger] chunker.requires((t, max, min)),
                forall|inputs: Seq<Seq<char>>| refs_ok(inputs, refs@) ==> #[trigger] refs_ok(inputs, rebuilt@),
            decreases refs.len() - i,
        {
            proof {
                assert(ref_bounded(refs@[i as int]));
            }
            let mut children = match rechunk_ref(&refs[i], config, chunker) {
                Ok(c) => c,
                Err(e) => {
                    proof {
                        assert(rechunk_failure(refs@[i as int], *config, *chunker, e));
                    }
                    return Err(e);
                },
            };
            let ghost prev = rebuilt@;
            let ghost ch = children@;
            proof {
                assert(forall|inputs: Seq<Seq<char>>| refs_ok(inputs, refs@) ==> #[trigger] refs_ok(inputs, prev));
                assert(children_of(refs@[i as int], ch));
                let prev_parts = parts;
                parts = parts.push(ch);
                assert(parts.drop_last() =~= prev_parts);
            }
            rebuilt.append(&mut children);
            proof {
                assert(rebuilt@ =~= parts.flatten_alt());
                assert forall|k: int| 0 <= k < rebuilt@.len() implies ref_bounded(#[trigger] rebuilt@[k]) by {
                    if k >= prev.len() {
                        assert(rebuilt@[k] == ch[k - prev.len()]);
                        assert(ch[k - prev.len()].content@.len() == ch[k - prev.len()].char_end - ch[k - prev.len()].char_start);
                    } else {
                        assert(rebuilt@[k] == prev[k]);
                    }
                }
                assert forall|inputs: Seq<Seq<char>>| refs_ok(inputs, refs@) implies #[trigger] refs_ok(inputs, rebuilt@) by {
                    assert(ref_ok(inputs, refs@[i as int]));
                    assert(refs_ok(inputs, ch));
                    assert(refs_ok(inputs, prev));
                    assert forall|k: int| 0 <= k < rebuilt@.len() implies ref_ok(inputs, #[trigger] rebuilt@[k]) by {
                        if k >= prev.len() {
                            assert(rebuilt@[k] == ch[k - prev.len()]);
                        } else {
                            assert(rebuilt@[k] == prev[k]);
                        }
                    }
                }
            }
            i = i + 1;
        }
        proof {
            parts.lemma_flatten_and_flatten_alt_are_equivalent();
            assert(rechunked_all(refs@, *config, *chunker, rebuilt@));
            lemma_rechunked_all_within(refs@, *config, *chunker, rebuilt@);
        }
        Ok(rebuilt)
    }

    /// Report the outcome of the request last asked for, and get the next
    /// step. Usage of a successful response is recorded; an error other than
    /// too-long ends the procedure with that error. A whole batch answered
    /// finishes with the vectors the answer gives its refs; a whole batch too
    /// long is re-chunked under the halved budget while retries remain, and
    /// is otherwise sent ref by ref. A single ref answered is kept with its
    /// vector; a single ref too long is replaced, in place, by its children
    /// under the halved budget, and fails when it cannot shrink any more.
    pub fn on_response<F>(&mut self, outcome: Result<EmbeddingBackendResponse<T>, EmbeddingError>, chunker: &F) -> (step: RetryStep<T>)
        where F: Fn(&str, u32, u32) -> Result<Vec<(usize, usize)>, ChunkerError>
        requires
            old(self).wf(),
            !old(self).is_finished(),
            forall|t: &str, max: u32, min: u32| #[trigger] chunker.requires((t, max, min)),
        ensures
            final(self).wf(),
            step is Done <==> final(self).is_finished(),
            outcome matches Ok(resp) ==> final(self).usage_history() == old(self).usage_history().push(resp.usage),
            outcome is Err ==> final(self).usage_history() == old(self).usage_history(),
            outcome matches Err(EmbeddingError::Other(m)) ==> (step matches RetryStep::Done(Err(EmbedFailure::Backend(x))) && x@ == m@),
            forall|inputs: Seq<Seq<char>>| #[trigger] old(self).refs_valid(inputs) ==> final(self).refs_valid(inputs)
                && (step matches RetryStep::Done(Ok(out)) ==> refs_ok(inputs, out.refs@)),
            forall|origin: Seq<ChunkRef>| #[trigger] old(self).refs_within(origin) ==> final(self).refs_within(origin)
                && (step matches RetryStep::Done(Ok(out)) ==> all_inside(origin, out.refs@)),
            step matches RetryStep::Done(Ok(out)) ==> out.vectors@.len() == out.refs@.len()
                && aggregated(final(self).usage_history(), out.usage),
            step matches RetryStep::Embed(texts) ==> texts_match(texts@, final(self).batch()),
            step is Embed && final(self).whole_attempt() is Some ==> (old(self).whole_attempt() matches Some(a)
                && final(self).whole_attempt() == Some(a + 1)),
            final(self).whole_attempt() matches Some(b) ==> b <= MAX_WHOLE_RETRIES,
            final(self).whole_attempt() is Some ==> old(self).whole_attempt() is Some,
            final(self).whole_attempt() is None ==> (step matches RetryStep::Embed(texts) ==> texts@.len() == 1),
            old(self).whole_attempt() is Some ==> (outcome matches Ok(resp) ==> match map_error(resp.embeddings@, old(self).batch().len() as int) {
                Some(e) => step matches RetryStep::Done(Err(EmbedFailure::Mapping(x))) && x == e,
                None => finished_with(step, old(self).batch(), resp.embeddings@, final(self).usage_history()),
            }),
            outcome matches Ok(resp) ==> (old(self).whole_attempt() is None ==> match map_error(resp.embeddings@, 1) {
                Some(e) => step matches RetryStep::Done(Err(EmbedFailure::Mapping(x))) && x == e,
                None => exists|v: Vec<T>| #[trigger] mapped_ok(resp.embeddings@, 1, seq![v]) && continues(
                    *final(self),
                    step,
                    old(self).embedded().push(old(self).batch()[0]),
                    old(self).embedded_vectors().push(v),
                    old(self).pending(),
                    final(self).usage_history(),
                ),
            }),
            outcome matches Err(EmbeddingError::TooLong(m)) ==> (old(self).whole_attempt() is None ==> match shrunk_spec(old(self).batch_config()) {
                None => floor_error(step, old(self).batch()[0], m@),
                Some(c) => split_step(
                    *final(self),
                    step,
                    old(self).batch()[0],
                    c,
                    *chunker,
                    m@,
                    old(self).embedded(),
                    old(self).embedded_vectors(),
                    old(self).pending(),
                    final(self).usage_history(),
                ),
            }),
            outcome matches Err(EmbeddingError::TooLong(_)) ==> (old(self).whole_attempt() matches Some(a) ==> (
                if a < MAX_WHOLE_RETRIES && shrunk_spec(old(self).batch_config()) is Some {
                    shrink_step(*final(self), step, old(self).batch(), shrunk_spec(old(self).batch_config())->0, *chunker, a)
                } else {
                    continues(*final(self), step, Seq::empty(), Seq::empty(), queued(old(self).batch(), old(self).batch_config()),
                        final(self).usage_history())
                })),
    {
        match outcome {
            Err(EmbeddingError::Other(m)) => {
                self.finished = true;
                RetryStep::Done(Err(EmbedFailure::Backend(m)))
            },
            Ok(resp) => {
                self.usages.push(resp.usage);
                if !self.single {
                    let mut refs: Vec<ChunkRef> = Vec::new();
                    std::mem::swap(&mut refs, &mut self.current_refs);
                    let n = refs.len();
                    match map_response_to_refs(n, resp.embeddings) {
                        Err(e) => {
                            self.finished = true;
                            RetryStep::Done(Err(EmbedFailure::Mapping(e)))
                        },
                        Ok(vecs) => {
                            let ghost rs = refs@;
                            let step = self.finish_ok(refs, vecs);
                            proof {
                                assert forall|inputs: Seq<Seq<char>>| #[trigger] old(self).refs_valid(inputs) implies self.refs_valid(inputs)
                                    && (step matches RetryStep::Done(Ok(out)) ==> refs_ok(inputs, out.refs@)) by {
                                    assert(refs_ok(inputs, rs));
                                }
                                assert forall|origin: Seq<ChunkRef>| #[trigger] old(self).refs_within(origin) implies self.refs_within(origin)
                                    && (step matches RetryStep::Done(Ok(out)) ==> all_inside(origin, out.refs@)) by {
                                    assert(all_inside(origin, rs));
                                }
                            }
                            step
                        },
                    }
                } else {
                    let item = self.in_flight.take().unwrap();
                    let r = item.0;
                    match map_response_to_refs(1, resp.embeddings) {
                        Err(e) => {
                            self.finished = true;
                            RetryStep::Done(Err(EmbedFailure::Mapping(e)))
                        },
                        Ok(mut v) => {
                            let ghost vs = v@;
                            let v0 = v.remove(0);
                            proof {
                                assert(vs =~= seq![v0]);
                            }
                            let ghost pre = *self;
                            self.out_refs.push(r);
                            self.out_vecs.push(v0);
                            let ghost mid = *self;
                            proof {
                                assert(mid.out_refs@ == old(self).embedded().push(old(self).batch()[0]));
                                assert(mid.out_vecs@ == old(self).embedded_vectors().push(v0));
                                assert(mid.pending() == old(self).pending());
                            }
                            let step = self.next_single();
                            proof {
                                assert(mapped_ok(resp.embeddings@, 1, seq![v0]));
                                assert forall|inputs: Seq<Seq<char>>| #[trigger] old(self).refs_valid(inputs) implies self.refs_valid(inputs)
                                    && (step matches RetryStep::Done(Ok(out)) ==> refs_ok(inputs, out.refs@)) by {
                                    assert(ref_ok(inputs, item.0));
                                    assert forall|k: int| 0 <= k < mid.out_refs@.len() implies ref_ok(inputs, #[trigger] mid.out_refs@[k]) by {
                                        if k < pre.out_refs@.len() {
                                            assert(mid.out_refs@[k] == pre.out_refs@[k]);
                                        }
                                    }
                                    assert(queue_ok(inputs, mid.queue@));
                                    assert(refs_ok(inputs, mid.current_refs@));
                                }
                                assert forall|origin: Seq<ChunkRef>| #[trigger] old(self).refs_within(origin) implies self.refs_within(origin)
                                    && (step matches RetryStep::Done(Ok(out)) ==> all_inside(origin, out.refs@)) by {
                                    assert(inside_some(origin, item.0));
                                    assert forall|k: int| 0 <= k < mid.out_refs@.len() implies inside_some(origin, #[trigger] mid.out_refs@[k]) by {
                                        if k < pre.out_refs@.len() {
                                            assert(mid.out_refs@[k] == pre.out_refs@[k]);
                                        }
                                    }
                                    assert(mid.refs_within(origin));
                                }
                            }
                            step
                        },
                    }
                }
            },
            Err(EmbeddingError::TooLong(m)) => {
                if !self.single {
                    if self.attempt < MAX_WHOLE_RETRIES {
                        match shrunk_config(&self.current_config) {
                            Some(smaller) => {
                                match Self::rechunk_all(&self.current_refs, &smaller, chunker) {
                                    Err(e) => {
                                        self.finished = true;
                                        RetryStep::Done(Err(EmbedFailure::Chunking(e)))
                                    },
                                    Ok(rebuilt) => {
                                        proof {
                                            assert forall|origin: Seq<ChunkRef>| #[trigger] old(self).refs_within(origin) implies all_inside(origin, rebuilt@) by {
                                                lemma_all_inside_trans(origin, old(self).current_refs@, rebuilt@);
                                            }
                                        }
                                        self.current_refs = rebuilt;
                                        self.current_config = smaller;
                                        self.attempt = self.attempt + 1;
                                        let texts = texts_of(&self.current_refs);
                                        RetryStep::Embed(texts)
                                    },
                                }
                            },
                            None => self.enter_single(),
                        }
                    } else {
                        self.enter_single()
                    }
                } else {
                    let item = self.in_flight.take().unwrap();
                    let r = item.0;
                    let cfg = item.1;
                    match shrunk_config(&cfg) {
                        Some(smaller) => {
                            match rechunk_ref(&r, &smaller, chunker) {
                                Err(e) => {
                                    self.finished = true;
                                    RetryStep::Done(Err(EmbedFailure::Chunking(e)))
                                },
                                Ok(mut children) => {
                                    if children.len() == 1 && str_eq(children[0].content.as_str(), r.content.as_str()) {
                                        self.finished = true;
                                        return RetryStep::Done(Err(EmbedFailure::TooLongAtFloor {
                                            input_index: r.input_index,
                                            char_start: r.char_start,
                                            char_end: r.char_end,
                                            message: m,
                                        }));
                                    }
                                    let ghost ch = children@;
                                    let ghost q0 = self.queue@;
                                    while children.len() > 0
                                        invariant
                                            children@ == ch.take(children@.len() as int),
                                            children@.len() <= ch.len(),
                                            self.queue@.len() == q0.len() + ch.len() - children@.len(),
                                            forall|k: int| 0 <= k < q0.len() ==> #[trigger] self.queue@[k] == q0[k],
                                            forall|k: int| q0.len() <= k < self.queue@.len() ==> (#[trigger] self.queue@[k]).0 == ch[ch.len() - 1 - (k - q0.len())],
                                            forall|k: int| q0.len() <= k < self.queue@.len() ==> (#[trigger] self.queue@[k]).1 == smaller,
                                            self.single,
                                            !self.finished,
                                            self.in_flight is None,
                                            self.current_refs@ == old(self).current_refs@,
                                            self.out_refs@ == old(self).out_refs@,
                                            self.out_vecs@ == old(self).out_vecs@,
                                            self.attempt == old(self).attempt,
                                            self.usages@ == old(self).usages@,
                                        decreases children@.len(),
                                    {
                                        let c = children.pop().unwrap();
                                        proof {
                                            assert(children@ =~= ch.take(children@.len() as int));
                                        }
                                        self.queue.push((c, smaller));
                                    }
                                    proof {
                                        assert forall|k: int| 0 <= k < self.queue@.len() implies ref_bounded((#[trigger] self.queue@[k]).0) by {
                                            if k >= q0.len() {
                                                let c = ch[ch.len() - 1 - (k - q0.len())];
                                                assert(c.content@.len() == c.char_end - c.char_start);
                                            } else {
                                                assert(self.queue@[k] == q0[k]);
                                                assert(old(self).queue@[k] == q0[k]);
                                            }
                                        }
                                    }
                                    let ghost mid = *self;
                                    proof {
                                        assert(q0 == old(self).queue@);
                                        assert(mid.pending() =~= queued(ch, smaller) + old(self).pending()) by {
                                            assert forall|i: int| 0 <= i < mid.pending().len() implies #[trigger] mid.pending()[i]
                                                == (queued(ch, smaller) + old(self).pending())[i] by {
                                                let k = mid.queue@.len() - 1 - i;
                                                assert(mid.pending()[i] == mid.queue@[k]);
                                                if i < ch.len() {
                                                    assert(mid.queue@[k].0 == ch[i]);
                                                } else {
                                                    assert(mid.queue@[k] == q0[k]);
                                                    assert(old(self).pending()[i - ch.len()] == q0[q0.len() - 1 - (i - ch.len())]);
                                                }
                                            }
                                        }
                                        assert(mid.out_refs@ == old(self).embedded());
                                        assert(mid.out_vecs@ == old(self).embedded_vectors());
                                    }
                                    let step = self.next_single();
                                    proof {
                                        assert(old(self).batch()[0] == r);
                                        assert(rechunked(r, smaller, *chunker, ch));
                                        assert forall|inputs: Seq<Seq<char>>| #[trigger] old(self).refs_valid(inputs) implies self.refs_valid(inputs)
                                            && (step matches RetryStep::Done(Ok(out)) ==> refs_ok(inputs, out.refs@)) by {
                                            assert(ref_ok(inputs, item.0));
                                            assert(refs_ok(inputs, ch));
                                            assert forall|k: int| 0 <= k < mid.queue@.len() implies ref_ok(inputs, (#[trigger] mid.queue@[k]).0) by {
                                                if k >= q0.len() {
                                                    assert(ref_ok(inputs, ch[ch.len() - 1 - (k - q0.len())]));
                                                } else {
                                                    assert(mid.queue@[k] == q0[k]);
                                                    assert(old(self).queue@[k] == q0[k]);
                                                }
                                            }
                                            assert(queue_ok(inputs, mid.queue@));
                                            assert(refs_ok(inputs, mid.out_refs@));
                                            assert(refs_ok(inputs, mid.current_refs@));
                                        }
                                        lemma_rechunked_within(r, smaller, *chunker, ch);
                                        assert forall|origin: Seq<ChunkRef>| #[trigger] old(self).refs_within(origin) implies self.refs_within(origin)
                                            && (step matches RetryStep::Done(Ok(out)) ==> all_inside(origin, out.refs@)) by {
                                            assert(inside_some(origin, r));
                                            assert forall|k: int| 0 <= k < mid.queue@.len() implies inside_some(origin, (#[trigger] mid.queue@[k]).0) by {
                                                if k >= q0.len() {
                                                    let c = ch[ch.len() - 1 - (k - q0.len())];
                                                    assert(within(r, c));
                                                    lemma_inside_trans(origin, r, c);
                                                } else {
                                                    assert(mid.queue@[k] == q0[k]);
                                                    assert(old(self).queue@[k] == q0[k]);
                                                }
                                            }
                                            assert(mid.refs_within(origin));
                                        }
                                    }
                                    step
                                },
                            }
                        },
                        None => {
                            self.finished = true;
                            RetryStep::Done(Err(EmbedFailure::TooLongAtFloor {
                                input_index: r.input_index,
                                char_start: r.char_start,
                                char_end: r.char_end,
                                message: m,
                            }))
                        },
                    }
                }
            },
        }
    }

    /// Finish with `refs`/`vecs` and the aggregated usage.
    fn finish_ok(&mut self, refs: Vec<ChunkRef>, vecs: Vec<Vec<T>>) -> (step: RetryStep<T>)
        requires
            refs@.len() == vecs@.len(),
        ensures
            final(self).is_finished(),
            final(self).usages@ == old(self).usages@,
            final(self).out_refs@ == old(self).out_refs@,
            final(self).out_vecs@.len() == old(self).out_vecs@.len(),
            final(self).current_refs@ == old(self).current_refs@,
            final(self).queue@ == old(self).queue@,
            final(self).in_flight == old(self).in_flight,
            final(self).single == old(self).single,
            final(self).attempt == old(self).attempt,
            step matches RetryStep::Done(res) && (match res {
                Ok(out) => out.refs@ == refs@ && out.vectors@ == vecs@ && aggregated(old(self).usages@, out.usage),
                Err(e) => e is UsageOverflow,
            }),
            step matches RetryStep::Done(res) && (res is Ok <==> usage_fits(old(self).usages@)),
    {
        self.finished = true;
        if !usage_sums_fit(&self.usages) {
            return RetryStep::Done(Err(EmbedFailure::UsageOverflow));
        }
        let usage = aggregate_usage(self.usages.as_slice());
        RetryStep::Done(Ok(EmbedOutput { refs, vectors: vecs, usage }))
    }

    /// Send the next queued ref alone, or finish when the queue is empty.
    fn next_single(&mut self) -> (step: RetryStep<T>)
        requires
            old(self).single,
            !old(self).finished,
            old(self).in_flight is None,
            old(self).current_refs@.len() == 0,
            old(self).out_refs@.len() == old(self).out_vecs@.len(),
            old(self).attempt <= MAX_WHOLE_RETRIES,
            queue_bounded(old(self).queue@),
        ensures
            final(self).wf(),
            final(self).single,
            final(self).usages@ == old(self).usages@,
            forall|inputs: Seq<Seq<char>>| queue_ok(inputs, old(self).queue@) && refs_ok(inputs, old(self).out_refs@)
                && refs_ok(inputs, old(self).current_refs@) ==> #[trigger] final(self).refs_valid(inputs),
            step matches RetryStep::Embed(texts) ==> texts@.len() == 1 && !final(self).is_finished()
                && texts_match(texts@, final(self).batch()),
            step matches RetryStep::Done(res) ==> final(self).is_finished() && (res matches Ok(out) ==> out.refs@ == old(self).out_refs@
                && out.vectors@.len() == out.refs@.len() && aggregated(old(self).usages@, out.usage)),
            step matches RetryStep::Done(res) ==> res is Ok || res matches Err(EmbedFailure::UsageOverflow),
            continues(*final(self), step, old(self).out_refs@, old(self).out_vecs@, old(self).pending(), old(self).usages@),
            forall|origin: Seq<ChunkRef>| #[trigger] old(self).refs_within(origin) ==> final(self).refs_within(origin)
                && (step matches RetryStep::Done(Ok(out)) ==> all_inside(origin, out.refs@)),
    {
        match self.queue.pop() {
            None => {
                let mut refs: Vec<ChunkRef> = Vec::new();
                let mut vecs: Vec<Vec<T>> = Vec::new();
                std::mem::swap(&mut refs, &mut self.out_refs);
                std::mem::swap(&mut vecs, &mut self.out_vecs);
                let step = self.finish_ok(refs, vecs);
                proof {
                    assert forall|inputs: Seq<Seq<char>>| queue_ok(inputs, old(self).queue@) && refs_ok(inputs, old(self).out_refs@)
                        && refs_ok(inputs, old(self).current_refs@) implies #[trigger] self.refs_valid(inputs) by {
                        assert(self.out_refs@.len() == 0);
                    }
                    assert(old(self).pending().len() == 0);
                }
                step
            },
            Some(item) => {
                let text = item.0.content.clone();
                let mut texts: Vec<String> = Vec::new();
                texts.push(text);
                proof {
                    assert(old(self).queue@.last() == item);
                    assert(self.queue@ =~= old(self).queue@.drop_last());
                    assert(ref_bounded(old(self).queue@[old(self).queue@.len() - 1].0));
                }
                self.in_flight = Some(item);
                proof {
                    assert(old(self).pending()[0] == item);
                    assert(self.pending() =~= old(self).pending().drop_first());
                    assert(self.batch() =~= seq![item.0]);
                    assert forall|inputs: Seq<Seq<char>>| queue_ok(inputs, old(self).queue@) && refs_ok(inputs, old(self).out_refs@)
                        && refs_ok(inputs, old(self).current_refs@) implies #[trigger] self.refs_valid(inputs) by {
                        assert(ref_ok(inputs, old(self).queue@[old(self).queue@.len() - 1].0));
                        assert forall|i: int| 0 <= i < self.queue@.len() implies ref_ok(inputs, (#[trigger] self.queue@[i]).0) by {
                            assert(self.queue@[i] == old(self).queue@[i]);
                        }
                    }
                    assert forall|i: int| 0 <= i < self.queue@.len() implies ref_bounded((#[trigger] self.queue@[i]).0) by {
                        assert(self.queue@[i] == old(self).queue@[i]);
                    }
                }
                RetryStep::Embed(texts)
            },
        }
    }

    /// Leave whole-batch mode: queue every current ref (first ref first)
    /// under the current config, then send the first one.
    fn enter_single(&mut self) -> (step: RetryStep<T>)
        requires
            !old(self).single,
            !old(self).finished,
            old(self).in_flight is None,
            old(self).queue@.len() == 0,
            old(self).out_refs@.len() == 0,
            old(self).out_vecs@.len() == 0,
            old(self).attempt <= MAX_WHOLE_RETRIES,
            all_bounded(old(self).current_refs@),
        ensures
            final(self).wf(),
            final(self).usages@ == old(self).usages@,
            final(self).single,
            forall|inputs: Seq<Seq<char>>| #[trigger] old(self).refs_valid(inputs) ==> final(self).refs_valid(inputs),
            step matches RetryStep::Embed(texts) ==> texts@.len() == 1 && !final(self).is_finished()
                && texts_match(texts@, final(self).batch()),
            step matches RetryStep::Done(res) ==> final(self).is_finished() && (res matches Ok(out) ==> out.refs@.len() == 0
                && out.vectors@.len() == 0 && aggregated(old(self).usages@, out.usage)),
            step matches RetryStep::Done(res) ==> res is Ok || res matches Err(EmbedFailure::UsageOverflow),
            continues(*final(self), step, Seq::empty(), Seq::empty(), queued(old(self).current_refs@, old(self).current_config), old(self).usages@),
            forall|origin: Seq<ChunkRef>| #[trigger] old(self).refs_within(origin) ==> final(self).refs_within(origin)
                && (step matches RetryStep::Done(Ok(out)) ==> all_inside(origin, out.refs@)),
    {
        self.single = true;
        let ghost cur = self.current_refs@;
        let cfg = self.current_config;
        while self.current_refs.len() > 0
            invariant
                self.current_refs@ == cur.take(self.current_refs@.len() as int),
                self.current_refs@.len() <= cur.len(),
                self.queue@.len() == cur.len() - self.current_refs@.len(),
                forall|k: int| 0 <= k < self.queue@.len() ==> (#[trigger] self.queue@[k]).0 == cur[cur.len() - 1 - k],
                forall|k: int| 0 <= k < self.queue@.len() ==> (#[trigger] self.queue@[k]).1 == cfg,
                cfg == old(self).current_config,
                all_bounded(cur),
                self.single,
                !self.finished,
                self.in_flight is None,
                self.out_refs@.len() == 0,
                self.out_vecs@.len() == 0,
                self.attempt <= MAX_WHOLE_RETRIES,
                self.usages@ == old(self).usages@,
                old(self).current_refs@ == cur,
            decreases self.current_refs@.len(),
        {
            let r = self.current_refs.pop().unwrap();
            proof {
                assert(self.current_refs@ =~= cur.take(self.current_refs@.len() as int));
            }
            self.queue.push((r, cfg));
        }
        proof {
            assert forall|i: int| 0 <= i < self.queue@.len() implies ref_bounded((#[trigger] self.queue@[i]).0) by {
                assert(ref_bounded(cur[cur.len() - 1 - i]));
            }
        }
        proof {
            assert(self.pending() =~= queued(cur, cfg)) by {
                assert forall|i: int| 0 <= i < self.queue@.len() implies #[trigger] self.pending()[i] == queued(cur, cfg)[i] by {
                    assert(self.pending()[i] == self.queue@[self.queue@.len() - 1 - i]);
                }
            }
        }
        proof {
            assert(self.out_refs@ =~= Seq::<ChunkRef>::empty());
            assert(self.out_vecs@ =~= Seq::<Vec<T>>::empty());
        }
        let ghost mid = *self;
        let step = self.next_single();
        proof {
            assert(mid.pending() == queued(old(self).current_refs@, old(self).current_config));
            assert forall|inputs: Seq<Seq<char>>| #[trigger] old(self).refs_valid(inputs) implies self.refs_valid(inputs) by {
                assert forall|i: int| 0 <= i < mid.queue@.len() implies ref_ok(inputs, (#[trigger] mid.queue@[i]).0) by {
                    assert(ref_ok(inputs, cur[cur.len() - 1 - i]));
                }
                assert(queue_ok(inputs, mid.queue@));
                assert(refs_ok(inputs, mid.out_refs@));
                assert(refs_ok(inputs, mid.current_refs@));
            }
            assert forall|origin: Seq<ChunkRef>| #[trigger] old(self).refs_within(origin) implies self.refs_within(origin)
                && (step matches RetryStep::Done(Ok(out)) ==> all_inside(origin, out.refs@)) by {
                assert forall|i: int| 0 <= i < mid.queue@.len() implies inside_some(origin, (#[trigger] mid.queue@[i]).0) by {
                    assert(inside_some(origin, cur[cur.len() - 1 - i]));
                }
                assert(mid.refs_within(origin));
            }
        }
        step
    }
}

/// The contents of `refs`, in order.
pub fn texts_of(refs: &Vec<ChunkRef>) -> (texts: Vec<String>)
    ensures
        texts_match(texts@, refs@),
{
    let mut texts: Vec<String> = Vec::new();
    let mut i: usize = 0;
    while i < refs.len()
        invariant
            i <= refs@.len(),
            texts@.len() == i,
            forall|k: int| 0 <= k < i ==> (#[trigger] texts@[k])@ == refs@[k].content@,
        decreases refs.len() - i,
    {
        texts.push(refs[i].content.clone());
        i = i + 1;
    }
    texts
}

} // verus!
