use llm_wrapper::chunking::{
    chunk_text, ChunkerError, ChunkingError, ResolvedChunkingConfig, TokenEstimationStrategy,
};

fn cfg(max: u32) -> ResolvedChunkingConfig {
    ResolvedChunkingConfig {
        max_chunk_tokens: max,
        min_chunk_tokens: 0,
        token_estimation: TokenEstimationStrategy::CharacterEstimation,
    }
}

/// A character-estimation chunker: consecutive windows of about
/// `max * 4` chars.
fn window_chunker(text: &str, max: u32, _min: u32) -> Result<Vec<(usize, usize)>, ChunkerError> {
    let n = text.chars().count();
    let w = (max as usize * 4).max(1);
    let mut out = Vec::new();
    let mut s = 0;
    while s < n {
        let e = (s + w).min(n);
        out.push((s, e));
        s = e;
    }
    Ok(out)
}

#[test]
fn test_short_text_single_chunk() {
    let text = "Hello, world.";
    let chunks = chunk_text(text, &cfg(512), &window_chunker).unwrap();
    assert_eq!(chunks.len(), 1);
    assert_eq!(chunks[0].content, text);
    assert_eq!(chunks[0].char_start, 0);
    assert_eq!(chunks[0].char_end, text.chars().count());
}

#[test]
fn test_empty_input_errors() {
    assert!(chunk_text("", &cfg(512), &window_chunker).is_err());
    assert!(chunk_text("   \n\t ", &cfg(512), &window_chunker).is_err());
}

#[test]
fn test_long_text_multiple_chunks_contiguous_no_gap() {
    // Force splitting: many sentences, tiny max_chunk_tokens.
    let mut text = String::new();
    for i in 0..200 {
        text.push_str(&format!("This is sentence number {i}. "));
    }
    let chunks = chunk_text(&text, &cfg(8), &window_chunker).unwrap();
    assert!(chunks.len() > 1, "expected multiple chunks");

    // Each chunk's content must exactly match the char-sliced source.
    let all_chars: Vec<char> = text.chars().collect();
    for c in &chunks {
        let expected: String = all_chars[c.char_start..c.char_end].iter().collect();
        assert_eq!(c.content, expected, "content must match char slice");
        assert!(c.char_start < c.char_end, "range must be non-empty");
    }
}

#[test]
fn test_japanese_multibyte_content_not_corrupted() {
    // Multibyte text: char offsets must not split code points.
    let mut text = String::new();
    for _ in 0..200 {
        text.push_str("これはテスト文章です。日本語の埋め込みを確認します。");
    }
    let chunks = chunk_text(&text, &cfg(8), &window_chunker).unwrap();
    assert!(chunks.len() > 1);

    let all_chars: Vec<char> = text.chars().collect();
    for c in &chunks {
        assert!(c.char_end <= all_chars.len());
        let expected: String = all_chars[c.char_start..c.char_end].iter().collect();
        assert_eq!(c.content, expected);
    }
}

#[test]
fn test_content_contract_char_slice() {
    let text = "abc def ghi jkl mno pqr stu vwx yz. ".repeat(100);
    let chunks = chunk_text(&text, &cfg(6), &window_chunker).unwrap();
    let all_chars: Vec<char> = text.chars().collect();
    for c in &chunks {
        let sliced: String = all_chars
            .iter()
            .skip(c.char_start)
            .take(c.char_end - c.char_start)
            .collect();
        assert_eq!(c.content, sliced);
    }
}

#[test]
fn chunker_ranges_are_clamped_and_empty_ones_dropped() {
    let text = "x".repeat(100);
    let wild = |_t: &str, _m: u32, _n: u32| -> Result<Vec<(usize, usize)>, ChunkerError> {
        Ok(vec![(0, 10), (10, 10), (90, 500), (200, 300)])
    };
    let chunks = chunk_text(&text, &cfg(2), &wild).unwrap();
    assert_eq!(chunks.len(), 2);
    assert_eq!((chunks[0].char_start, chunks[0].char_end), (0, 10));
    assert_eq!((chunks[1].char_start, chunks[1].char_end), (90, 100));
    assert_eq!(chunks[1].content, "x".repeat(10));
}

#[test]
fn chunker_failures_and_no_chunks_are_reported() {
    let text = "y".repeat(100);
    let fail = |_t: &str, _m: u32, _n: u32| -> Result<Vec<(usize, usize)>, ChunkerError> {
        Err(ChunkerError::Failed("boom".to_string()))
    };
    assert_eq!(
        chunk_text(&text, &cfg(2), &fail).unwrap_err(),
        ChunkingError::ChunkingFailed("boom".to_string())
    );
    let none = |_t: &str, _m: u32, _n: u32| -> Result<Vec<(usize, usize)>, ChunkerError> {
        Ok(vec![(50, 50)])
    };
    assert_eq!(chunk_text(&text, &cfg(2), &none).unwrap_err(), ChunkingError::NoChunks);
}

#[test]
fn noop_provider_always_refuses_with_its_message() {
    let p = llm_wrapper::chunking::NoopTokenProvider;
    let m = "NoopTokenProvider must not be called (CharacterEstimation fallback only)";
    assert_eq!(p.tokenize("x").err().unwrap().message, m);
    assert_eq!(p.estimate_token_count("x").err().unwrap().message, m);
    assert_eq!(p.token_to_char("x", 0).err().unwrap().message, m);
    assert_eq!(p.char_to_token("x", 0).err().unwrap().message, m);
    assert_eq!(p.get_token_spans("x").err().unwrap().message, m);
}

#[test]
fn chunker_failures_and_empty_ranges_are_reported() {
    let text = "a".repeat(40);
    let failing = |_: &str, _: u32, _: u32| -> Result<Vec<(usize, usize)>, ChunkerError> {
        Err(ChunkerError::Failed("split failed".to_string()))
    };
    assert_eq!(
        chunk_text(&text, &cfg(2), &failing).err().unwrap(),
        ChunkingError::ChunkingFailed("split failed".to_string())
    );
    let init = |_: &str, _: u32, _: u32| -> Result<Vec<(usize, usize)>, ChunkerError> {
        Err(ChunkerError::Init("no setup".to_string()))
    };
    assert_eq!(
        chunk_text(&text, &cfg(2), &init).err().unwrap(),
        ChunkingError::ChunkerInit("no setup".to_string())
    );
    let empty = |_: &str, _: u32, _: u32| -> Result<Vec<(usize, usize)>, ChunkerError> {
        Ok(vec![(5, 5), (50, 60)])
    };
    assert_eq!(chunk_text(&text, &cfg(2), &empty).err().unwrap(), ChunkingError::NoChunks);
}
