use llm_wrapper::hf::{tokens_from_encoding, HfTokenProvider};
use llm_wrapper::tiktoken::TiktokenProvider;
use llm_wrapper::token_provider::EmbeddingTokenProvider;

/// A minimal whitespace-pretokenizer tokenizer.json with a tiny WordLevel
/// vocab. Unknown words map to [UNK].
const FIXTURE_TOKENIZER_JSON: &str = r#"{
    "version": "1.0",
    "truncation": null,
    "padding": null,
    "added_tokens": [],
    "normalizer": null,
    "pre_tokenizer": { "type": "Whitespace" },
    "post_processor": null,
    "decoder": null,
    "model": {
        "type": "WordLevel",
        "vocab": { "[UNK]": 0, "hello": 1, "world": 2, "foo": 3 },
        "unk_token": "[UNK]"
    }
}"#;

fn fixture_provider() -> HfTokenProvider {
    HfTokenProvider::from_bytes(FIXTURE_TOKENIZER_JSON.as_bytes()).unwrap()
}

#[test]
fn test_known_token_count() {
    let p = fixture_provider();
    // "hello world" → 2 tokens with the Whitespace pretokenizer.
    assert_eq!(p.estimate_token_count("hello world").unwrap(), 2);
    assert_eq!(p.tokenize("hello world").unwrap().len(), 2);
}

#[test]
fn test_spans_align_to_char_boundaries() {
    let p = fixture_provider();
    let text = "hello world";
    let spans = p.get_token_spans(text).unwrap().unwrap();
    assert_eq!(spans.len(), 2);
    // First token "hello" → chars 0..5, second "world" → 6..11.
    assert_eq!(spans[0], (0, 5));
    assert_eq!(spans[1], (6, 11));
}

#[test]
fn test_char_to_token_clamps_past_end() {
    let p = fixture_provider();
    let text = "hello world";
    // A position past the final token's end clamps to the last index.
    let last = p.char_to_token(text, text.chars().count()).unwrap();
    assert_eq!(last, Some(1));
}

#[test]
fn test_token_to_char_out_of_range_is_none() {
    let p = fixture_provider();
    assert_eq!(p.token_to_char("hello world", 99).unwrap(), None);
}

#[test]
fn test_unknown_words_still_tokenize() {
    let p = fixture_provider();
    // Unknown words map to [UNK] but still produce one token each.
    assert_eq!(p.estimate_token_count("foo bar baz").unwrap(), 3);
}

#[test]
fn test_from_file_rejects_broken_json() {
    assert!(HfTokenProvider::from_bytes(b"{ not valid tokenizer json").is_err());
}

#[test]
fn hf_spans_are_char_offsets_for_multibyte_text() {
    let p = fixture_provider();
    let spans = p.get_token_spans("héllo wörld").unwrap().unwrap();
    assert_eq!(spans, vec![(0, 5), (6, 11)]);
    assert_eq!(p.char_to_token("héllo wörld", 7).unwrap(), Some(1));
    assert_eq!(p.token_to_char("héllo wörld", 1).unwrap(), Some(6));
}

#[test]
fn tokens_from_encoding_converts_and_rejects() {
    // "aé b": a@0, é@1..3, space@3, b@4.
    let out = tokens_from_encoding("aé b", &vec![7, 8, 9], &vec![(0, 3), (0, 0), (4, 5)]).unwrap();
    assert_eq!(out.spans(), vec![(0, 2), (0, 0), (3, 4)]);
    assert_eq!(out.ids(), vec![7, 8, 9]);
    // Inside a multi-byte char.
    assert!(tokens_from_encoding("aé b", &vec![1], &vec![(0, 2)]).is_err());
    // Length mismatch.
    assert!(tokens_from_encoding("ab", &vec![1, 2], &vec![(0, 1)]).is_err());
}

#[test]
fn test_cl100k_known_token_count() {
    let p = TiktokenProvider::new("cl100k_base").unwrap();
    // "hello world" is 2 tokens under cl100k_base.
    assert_eq!(p.estimate_token_count("hello world").unwrap(), 2);
    assert_eq!(p.tokenize("hello world").unwrap().len(), 2);
}

#[test]
fn test_o200k_switch() {
    // o200k_base must load and produce a positive token count.
    let p = TiktokenProvider::new("o200k_base").unwrap();
    assert!(p.estimate_token_count("hello world").unwrap() > 0);
}

#[test]
fn test_unknown_encoding_errors() {
    assert!(TiktokenProvider::new("not_a_real_encoding").is_err());
}

#[test]
fn test_spans_none_but_counts_exact() {
    let p = TiktokenProvider::new("cl100k_base").unwrap();
    // No char spans (Ok(None)), but token counts are still available.
    assert_eq!(p.get_token_spans("hello world").unwrap(), None);
    assert_eq!(p.token_to_char("hello world", 0).unwrap(), None);
    assert_eq!(p.char_to_token("hello world", 0).unwrap(), None);
}

#[test]
fn test_japanese_counts_more_precise_than_char_heuristic() {
    let p = TiktokenProvider::new("cl100k_base").unwrap();
    let text = "これはテスト文章です。";
    let first = p.estimate_token_count(text).unwrap();
    assert!(first > 0);
    assert_eq!(p.tokenize(text).unwrap().len(), first);
    let other = p.estimate_token_count("hello").unwrap();
    assert!(other > 0);
    assert_eq!(p.tokenize(text).unwrap().len(), first);
}

#[test]
fn unknown_encoding_message_names_it() {
    let e = TiktokenProvider::new("xyz").unwrap_err();
    assert_eq!(
        e.message,
        "unknown tiktoken encoding 'xyz' (supported: cl100k_base, o200k_base)"
    );
}

#[test]
fn unified_provider_dispatches() {
    let t = EmbeddingTokenProvider::Tiktoken(TiktokenProvider::new("cl100k_base").unwrap());
    assert_eq!(t.estimate_token_count("hello world").unwrap(), 2);
    assert_eq!(t.get_token_spans("hello world").unwrap(), None);
    let h = EmbeddingTokenProvider::Hf(std::sync::Arc::new(fixture_provider()));
    assert_eq!(h.tokenize("hello world").unwrap(), vec![1, 2]);
    assert_eq!(h.get_token_spans("hello world").unwrap(), Some(vec![(0, 5), (6, 11)]));
    assert_eq!(h.char_to_token("hello world", 7).unwrap(), Some(1));
}

#[test]
fn load_and_conversion_failures_carry_their_messages() {
    let e = HfTokenProvider::from_bytes(b"{ not valid tokenizer json").err().unwrap();
    assert!(e.message.starts_with("failed to load tokenizer: "));
    let e = tokens_from_encoding("ab", &vec![1, 2], &vec![(0, 1)]).err().unwrap();
    assert_eq!(e.message, "tokenizer returned different numbers of ids and offsets");
    let e = tokens_from_encoding("é", &vec![1], &vec![(1, 2)]).err().unwrap();
    assert_eq!(e.message, "token offset is not a char boundary");
}
