use llm_wrapper::chunking::{ChunkerError, ResolvedChunkingConfig, TokenEstimationStrategy};
use llm_wrapper::embed_core::{
    build_chunk_refs, build_result, map_response_to_refs, ChunkRef, EmbeddingContent,
    InputContent, MapError,
};
use llm_wrapper::embedding::{ProviderEmbedding, ProviderUsage};

fn text_input(s: &str) -> EmbeddingContent {
    EmbeddingContent {
        content: Some(InputContent::Text(s.to_string())),
    }
}

fn cfg(max: u32) -> ResolvedChunkingConfig {
    ResolvedChunkingConfig {
        max_chunk_tokens: max,
        min_chunk_tokens: 0,
        token_estimation: TokenEstimationStrategy::CharacterEstimation,
    }
}

fn window_chunker(text: &str, max: u32, _min: u32) -> Result<Vec<(usize, usize)>, ChunkerError> {
    let n = text.chars().count();
    let w = (max as usize * 4).max(1);
    let mut out = Vec::new();
    let mut s = 0;
    while s < n {
        let e = (s + w).min(n);
        out.push((s, e));
        s = e;
    }
    Ok(out)
}

#[test]
fn test_build_chunk_refs_text_single() {
    let inputs = vec![text_input("hello")];
    let refs = build_chunk_refs(&inputs, &cfg(512), &window_chunker).unwrap();
    assert_eq!(refs.len(), 1);
    assert_eq!(refs[0].input_index, 0);
    assert_eq!(refs[0].content, "hello");
}

#[test]
fn test_build_chunk_refs_rejects_empty_and_nontext() {
    let empty: Vec<EmbeddingContent> = vec![];
    assert!(build_chunk_refs(&empty, &cfg(512), &window_chunker).is_err());

    let img = vec![EmbeddingContent {
        content: Some(InputContent::Image),
    }];
    assert!(build_chunk_refs(&img, &cfg(512), &window_chunker).is_err());
}

#[test]
fn build_chunk_refs_splits_long_inputs_in_order() {
    let long = "ab".repeat(20);
    let inputs = vec![text_input("short"), text_input(&long)];
    let refs = build_chunk_refs(&inputs, &cfg(2), &window_chunker).unwrap();
    assert_eq!(refs[0].input_index, 0);
    assert_eq!(refs[0].content, "short");
    let rest: Vec<&ChunkRef> = refs.iter().skip(1).collect();
    assert!(rest.len() > 1);
    let joined: String = rest.iter().map(|r| r.content.as_str()).collect();
    assert_eq!(joined, long);
    assert!(rest.iter().all(|r| r.input_index == 1));
}

#[test]
fn test_map_response_order_preserving() {
    let embs = vec![
        ProviderEmbedding {
            vector: vec![1.0],
            index: None,
        },
        ProviderEmbedding {
            vector: vec![2.0],
            index: None,
        },
    ];
    let out = map_response_to_refs(2, embs).unwrap();
    assert_eq!(out, vec![vec![1.0], vec![2.0]]);
}

#[test]
fn test_map_response_order_preserving_count_mismatch_errors() {
    let embs = vec![ProviderEmbedding {
        vector: vec![1.0],
        index: None,
    }];
    assert!(map_response_to_refs(2, embs).is_err());
}

#[test]
fn test_map_response_index_based_shuffled() {
    // Response arrives out of order; index must drive placement.
    let embs = vec![
        ProviderEmbedding {
            vector: vec![2.0],
            index: Some(1),
        },
        ProviderEmbedding {
            vector: vec![0.0],
            index: Some(0),
        },
        ProviderEmbedding {
            vector: vec![1.0],
            index: Some(2),
        },
    ];
    let out = map_response_to_refs(3, embs).unwrap();
    assert_eq!(out, vec![vec![0.0], vec![2.0], vec![1.0]]);
}

#[test]
fn test_map_response_index_out_of_range_dup_missing() {
    // out of range
    assert!(
        map_response_to_refs(
            1,
            vec![ProviderEmbedding {
                vector: vec![0.0],
                index: Some(3)
            }]
        )
        .is_err()
    );
    // duplicate
    assert!(
        map_response_to_refs(
            2,
            vec![
                ProviderEmbedding {
                    vector: vec![0.0],
                    index: Some(0)
                },
                ProviderEmbedding {
                    vector: vec![1.0],
                    index: Some(0)
                },
            ]
        )
        .is_err()
    );
    // missing (only index 0 provided for 2 chunks)
    assert!(
        map_response_to_refs(
            2,
            vec![ProviderEmbedding {
                vector: vec![0.0],
                index: Some(0)
            },]
        )
        .is_err()
    );
}

#[test]
fn map_response_error_variants() {
    let e = map_response_to_refs(
        2,
        vec![ProviderEmbedding {
            vector: vec![0.0f32],
            index: None,
        }],
    )
    .unwrap_err();
    assert_eq!(e, MapError::CountMismatch { got: 1, expected: 2 });
    let e = map_response_to_refs(
        2,
        vec![
            ProviderEmbedding {
                vector: vec![0.0f32],
                index: Some(0),
            },
            ProviderEmbedding {
                vector: vec![0.0f32],
                index: None,
            },
        ],
    )
    .unwrap_err();
    assert_eq!(e, MapError::MixedIndex);
}

#[test]
fn test_build_result_orders_and_positions() {
    let refs = vec![
        ChunkRef {
            input_index: 0,
            char_start: 0,
            char_end: 3,
            content: "abc".into(),
        },
        ChunkRef {
            input_index: 1,
            char_start: 0,
            char_end: 2,
            content: "xy".into(),
        },
    ];
    let vecs = vec![vec![1.0, 2.0], vec![3.0]];
    let result = build_result(&refs, vecs, None);
    assert_eq!(result.embeddings.len(), 2);
    assert_eq!(result.embeddings[0].input_index, 0);
    assert_eq!(result.embeddings[0].dimensions, 2);
    assert_eq!(result.embeddings[1].input_index, 1);
    assert_eq!(result.embeddings[1].begin_position, 0);
    assert_eq!(result.embeddings[1].end_position, 2);
}

#[test]
fn build_result_carries_usage() {
    let refs = vec![ChunkRef {
        input_index: 0,
        char_start: 0,
        char_end: 1,
        content: "a".into(),
    }];
    let usage = Some(ProviderUsage {
        model: "m".to_string(),
        prompt_tokens: Some(4),
        total_tokens: Some(5),
    });
    let result = build_result(&refs, vec![vec![0.5f32]], usage);
    let u = result.usage.unwrap();
    assert_eq!(u.model, "m");
    assert_eq!(u.prompt_tokens, Some(4));
    assert_eq!(u.total_tokens, Some(5));
    assert_eq!(result.embeddings[0].content, "a");
}
