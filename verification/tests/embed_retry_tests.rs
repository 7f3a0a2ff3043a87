use std::collections::VecDeque;

use llm_wrapper::chunking::{ChunkerError, ResolvedChunkingConfig, TokenEstimationStrategy};
use llm_wrapper::embed_core::ChunkRef;
use llm_wrapper::embed_retry::{EmbedFailure, EmbedOutput, EmbedRetry, RetryStep};
use llm_wrapper::embedding::{EmbeddingBackendResponse, EmbeddingError, ProviderEmbedding, ProviderUsage};

enum MockOutcome {
    Respond(EmbeddingBackendResponse<f32>),
    TooLong,
    Fail(String),
}

fn cfg(max: u32) -> ResolvedChunkingConfig {
    ResolvedChunkingConfig {
        max_chunk_tokens: max,
        min_chunk_tokens: 0,
        token_estimation: TokenEstimationStrategy::CharacterEstimation,
    }
}

/// A character-estimation chunker: consecutive windows of about
/// `max * 4` chars.
fn window_chunker(text: &str, max: u32, _min: u32) -> Result<Vec<(usize, usize)>, ChunkerError> {
    let n = text.chars().count();
    let w = (max as usize * 4).max(1);
    let mut out = Vec::new();
    let mut s = 0;
    while s < n {
        let e = (s + w).min(n);
        out.push((s, e));
        s = e;
    }
    Ok(out)
}

fn ok_resp(n: usize, usage: Option<ProviderUsage>) -> EmbeddingBackendResponse<f32> {
    EmbeddingBackendResponse {
        embeddings: (0..n)
            .map(|_| ProviderEmbedding {
                vector: vec![0.5],
                index: None,
            })
            .collect(),
        usage,
    }
}

/// Drive the retry procedure against scripted outcomes; once the script is
/// exhausted every batch succeeds with one unit vector per text.
fn embed_refs(
    script: Vec<MockOutcome>,
    refs: Vec<ChunkRef>,
    config: ResolvedChunkingConfig,
) -> (Result<EmbedOutput<f32>, EmbedFailure>, Vec<Vec<String>>) {
    let mut script: VecDeque<MockOutcome> = script.into();
    let mut calls = Vec::new();
    let (mut machine, mut texts) = EmbedRetry::start(refs, config);
    loop {
        calls.push(texts.clone());
        let outcome = match script.pop_front() {
            Some(MockOutcome::Respond(r)) => Ok(r),
            Some(MockOutcome::TooLong) => Err(EmbeddingError::TooLong("mock too long".to_string())),
            Some(MockOutcome::Fail(m)) => Err(EmbeddingError::Other(m)),
            None => Ok(ok_resp(texts.len(), None)),
        };
        match machine.on_response(outcome, &window_chunker) {
            RetryStep::Embed(next) => texts = next,
            RetryStep::Done(r) => return (r, calls),
        }
    }
}

fn two_refs() -> Vec<ChunkRef> {
    vec![
        ChunkRef {
            input_index: 0,
            char_start: 0,
            char_end: 3,
            content: "abc".into(),
        },
        ChunkRef {
            input_index: 0,
            char_start: 3,
            char_end: 6,
            content: "def".into(),
        },
    ]
}

#[test]
fn test_embed_refs_happy_path_with_usage() {
    let script = vec![MockOutcome::Respond(ok_resp(
        2,
        Some(ProviderUsage {
            model: "m".into(),
            prompt_tokens: Some(4),
            total_tokens: Some(4),
        }),
    ))];
    let (r, _) = embed_refs(script, two_refs(), cfg(512));
    let out = r.unwrap();
    assert_eq!(out.refs.len(), 2);
    assert_eq!(out.vectors.len(), 2);
    assert_eq!(out.usage.unwrap().prompt_tokens, Some(4));
}

#[test]
fn test_embed_refs_usage_aggregated_across_batches() {
    let usage = |p| {
        Some(ProviderUsage {
            model: "m".into(),
            prompt_tokens: Some(p),
            total_tokens: Some(p),
        })
    };
    let script = vec![
        MockOutcome::TooLong,                  // whole batch fails
        MockOutcome::Respond(ok_resp(1, usage(3))), // ref 0 alone
        MockOutcome::Respond(ok_resp(1, usage(4))), // ref 1 alone
    ];
    // max == min == 16: nothing to shrink, straight to one chunk at a time.
    let floor_cfg = ResolvedChunkingConfig {
        max_chunk_tokens: 16,
        min_chunk_tokens: 16,
        token_estimation: TokenEstimationStrategy::CharacterEstimation,
    };
    let (r, calls) = embed_refs(script, two_refs(), floor_cfg);
    let out = r.unwrap();
    assert_eq!(out.refs.len(), 2);
    assert_eq!(out.vectors.len(), 2);
    let agg = out.usage.unwrap();
    assert_eq!(agg.prompt_tokens, Some(7));
    assert_eq!(agg.total_tokens, Some(7));
    assert_eq!(calls, vec![
        vec!["abc".to_string(), "def".to_string()],
        vec!["abc".to_string()],
        vec!["def".to_string()],
    ]);
}

#[test]
fn test_embed_refs_retry_char_offset_absolute() {
    let content = "alpha beta gamma delta epsilon zeta eta theta ".repeat(60);
    let parent_start = 100usize;
    let refs = vec![ChunkRef {
        input_index: 2,
        char_start: parent_start,
        char_end: parent_start + content.chars().count(),
        content: content.clone(),
    }];
    let (r, _) = embed_refs(vec![MockOutcome::TooLong], refs, cfg(64));
    let out = r.unwrap();
    assert!(out.refs.len() > 1);
    let parent_chars: Vec<char> = content.chars().collect();
    for r in &out.refs {
        assert!(r.char_start >= parent_start, "child offset must be absolute");
        assert_eq!(r.input_index, 2, "input_index inherited from parent");
        let rel_start = r.char_start - parent_start;
        let rel_end = r.char_end - parent_start;
        let expected: String = parent_chars[rel_start..rel_end].iter().collect();
        assert_eq!(r.content, expected, "content must match absolute char slice");
    }
}

#[test]
fn test_embed_refs_propagates_non_too_long_error() {
    let refs = vec![ChunkRef {
        input_index: 0,
        char_start: 0,
        char_end: 1,
        content: "a".into(),
    }];
    let (r, _) = embed_refs(vec![MockOutcome::Fail("boom".into())], refs, cfg(512));
    assert!(matches!(r, Err(EmbedFailure::Backend(m)) if m == "boom"));
}

#[test]
fn too_long_at_the_floor_fails_with_the_chunk() {
    let refs = vec![ChunkRef {
        input_index: 1,
        char_start: 5,
        char_end: 8,
        content: "xyz".into(),
    }];
    let floor_cfg = ResolvedChunkingConfig {
        max_chunk_tokens: 16,
        min_chunk_tokens: 16,
        token_estimation: TokenEstimationStrategy::CharacterEstimation,
    };
    let (r, _) = embed_refs(vec![MockOutcome::TooLong, MockOutcome::TooLong], refs, floor_cfg);
    match r {
        Err(EmbedFailure::TooLongAtFloor { input_index, char_start, char_end, .. }) => {
            assert_eq!((input_index, char_start, char_end), (1, 5, 8));
        }
        other => panic!("expected too-long failure, got {other:?}"),
    }
}

fn usage_of(p: u32) -> Option<ProviderUsage> {
    Some(ProviderUsage {
        model: "m".into(),
        prompt_tokens: Some(p),
        total_tokens: Some(p),
    })
}

#[test]
fn whole_batch_vectors_follow_the_backend_indices() {
    let resp = EmbeddingBackendResponse {
        embeddings: vec![
            ProviderEmbedding { vector: vec![2.0], index: Some(1) },
            ProviderEmbedding { vector: vec![1.0], index: Some(0) },
        ],
        usage: None,
    };
    let (r, _) = embed_refs(vec![MockOutcome::Respond(resp)], two_refs(), cfg(512));
    let out = r.unwrap();
    assert_eq!(out.refs[0].content, "abc");
    assert_eq!(out.refs[1].content, "def");
    assert_eq!(out.vectors, vec![vec![1.0], vec![2.0]]);
    assert!(out.usage.is_none());
}

#[test]
fn whole_batch_answer_of_the_wrong_size_is_a_mapping_error() {
    let (r, _) = embed_refs(vec![MockOutcome::Respond(ok_resp(1, None))], two_refs(), cfg(512));
    match r {
        Err(EmbedFailure::Mapping(e)) => {
            assert_eq!(e, llm_wrapper::embed_core::MapError::CountMismatch { got: 1, expected: 2 });
        }
        other => panic!("expected a mapping error, got {other:?}"),
    }
}

#[test]
fn whole_batch_retry_halves_the_budget_and_rechunks() {
    let content = "x".repeat(300);
    let refs = vec![ChunkRef {
        input_index: 0,
        char_start: 0,
        char_end: 300,
        content: content.clone(),
    }];
    // 64 tokens: one window of 256 chars would not hold it, so the ref is
    // split; after one too-long answer the budget is 32 (windows of 128).
    let (r, calls) = embed_refs(vec![MockOutcome::TooLong], refs, cfg(64));
    let out = r.unwrap();
    let lens: Vec<usize> = calls[1].iter().map(|t| t.chars().count()).collect();
    assert_eq!(lens, vec![128, 128, 44]);
    assert_eq!(out.refs.len(), 3);
    assert_eq!((out.refs[2].char_start, out.refs[2].char_end), (256, 300));
}

#[test]
fn single_ref_too_long_is_replaced_in_place_by_its_children() {
    let a = "x".repeat(300);
    let refs = vec![
        ChunkRef {
            input_index: 0,
            char_start: 10,
            char_end: 310,
            content: a.clone(),
        },
        ChunkRef {
            input_index: 1,
            char_start: 0,
            char_end: 3,
            content: "def".into(),
        },
    ];
    // Four too-long answers use up the whole-batch retries (1024, 512,
    // 256, 128 tokens); the first ref alone is then too long at 128 and is
    // re-chunked at 64 tokens (windows of 256 chars).
    let script = vec![
        MockOutcome::TooLong,
        MockOutcome::TooLong,
        MockOutcome::TooLong,
        MockOutcome::TooLong,
        MockOutcome::TooLong,
    ];
    let (r, calls) = embed_refs(script, refs, cfg(1024));
    let out = r.unwrap();
    assert_eq!(calls.len(), 8);
    assert_eq!(calls[4], vec![a.clone()]);
    assert_eq!(calls[5], vec!["x".repeat(256)]);
    assert_eq!(calls[6], vec!["x".repeat(44)]);
    assert_eq!(calls[7], vec!["def".to_string()]);
    let spans: Vec<(usize, usize, usize)> = out.refs.iter().map(|r| (r.input_index, r.char_start, r.char_end)).collect();
    assert_eq!(spans, vec![(0, 10, 266), (0, 266, 310), (1, 0, 3)]);
    assert_eq!(out.vectors.len(), 3);
}

#[test]
fn summed_usage_that_overflows_u32_fails() {
    let script = vec![
        MockOutcome::TooLong,
        MockOutcome::Respond(ok_resp(1, usage_of(u32::MAX))),
        MockOutcome::Respond(ok_resp(1, usage_of(1))),
    ];
    let floor_cfg = ResolvedChunkingConfig {
        max_chunk_tokens: 16,
        min_chunk_tokens: 16,
        token_estimation: TokenEstimationStrategy::CharacterEstimation,
    };
    let (r, _) = embed_refs(script, two_refs(), floor_cfg);
    assert!(matches!(r, Err(EmbedFailure::UsageOverflow)));
}

#[test]
fn single_ref_that_rechunks_to_itself_fails_at_the_floor() {
    let refs = vec![ChunkRef {
        input_index: 4,
        char_start: 7,
        char_end: 10,
        content: "xyz".into(),
    }];
    // Whole-batch retries at 512, 256 and 128 tokens, then the ref alone:
    // re-chunked at 64 tokens it comes back whole.
    let script = vec![
        MockOutcome::TooLong,
        MockOutcome::TooLong,
        MockOutcome::TooLong,
        MockOutcome::TooLong,
        MockOutcome::TooLong,
    ];
    let (r, calls) = embed_refs(script, refs, cfg(1024));
    assert_eq!(calls.len(), 5);
    match r {
        Err(EmbedFailure::TooLongAtFloor { input_index, char_start, char_end, message }) => {
            assert_eq!((input_index, char_start, char_end), (4, 7, 10));
            assert_eq!(message, "mock too long");
        }
        other => panic!("expected too-long failure, got {other:?}"),
    }
}
