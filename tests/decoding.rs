use std::str::FromStr;

use recogni::asr::{transcript_from_tokens, TokenSequence};

fn word_tokenizer() -> tokenizers::Tokenizer {
    let json = r#"{
        "version": "1.0",
        "truncation": null,
        "padding": null,
        "added_tokens": [],
        "normalizer": null,
        "pre_tokenizer": {"type": "Whitespace"},
        "post_processor": null,
        "decoder": null,
        "model": {"type": "WordLevel", "vocab": {"hello": 0, "world": 1, "go": 2, "[UNK]": 3}, "unk_token": "[UNK]"}
    }"#;
    tokenizers::Tokenizer::from_str(json).unwrap()
}

#[test]
fn transcript_drops_start_token_and_trims() {
    let tok = word_tokenizer();
    let mut t = TokenSequence::new(50257, 50257, 10);
    t.accept(0);
    t.accept(1);
    t.accept(50257);
    assert_eq!(transcript_from_tokens(&tok, &t).unwrap(), "hello world");
}

#[test]
fn repeated_transcript_is_dropped() {
    let tok = word_tokenizer();
    let mut t = TokenSequence::new(50257, 50257, 20);
    for _ in 0..10 {
        t.accept(2);
    }
    assert_eq!(transcript_from_tokens(&tok, &t).unwrap(), "");
}
