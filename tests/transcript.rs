use recogni::asr::{
    initial_kv_layout, max_decode_len, should_refresh, use_cache_branch, KvKind, KvModule,
    MoonshineConfig, TokenSequence,
};
use recogni::error::AppError;
use recogni::text::{finish_transcript, is_hallucination, repetitive_words, trim_white};

#[test]
fn short_text_is_never_hallucination() {
    assert!(!is_hallucination("the the the the"));
    assert!(!is_hallucination(""));
}

#[test]
fn length_counts_characters() {
    // 14 characters, 24 bytes: short by the character count.
    assert!(!is_hallucination("éé éé éé éé éé"));
    assert!(is_hallucination("éé éé éé éé éé éé éé"));
}

#[test]
fn config_fields_and_defaults_from_text() {
    let c = MoonshineConfig::from_json(r#"{"decoder_num_hidden_layers": 6, "max_position_embeddings": 448, "decoder_start_token_id": 1}"#).unwrap();
    assert_eq!(c.decoder_num_hidden_layers, 6);
    assert_eq!(c.max_position_embeddings, 448);
    assert_eq!(c.decoder_start_token_id, 1);
    assert_eq!(c.eos_token_id, 50257);
    assert_eq!(c.decoder_num_key_value_heads, 8);
    let d = MoonshineConfig::from_json(r#"{"eos_token_id": "x"}"#).unwrap();
    assert_eq!(d.eos_token_id, 50257);
}

#[test]
fn few_words_are_not_hallucination() {
    assert!(!is_hallucination("a b c d e f g h i j k l m n o p q r s"));
    assert!(!is_hallucination("extraordinarily long sentence"));
}

#[test]
fn low_unique_ratio_is_hallucination() {
    assert!(is_hallucination("you you you you you you you you you"));
}

#[test]
fn repeated_trigram_is_hallucination() {
    assert!(is_hallucination("thank you for watching thank you for watching thank you for watching"));
}

#[test]
fn ordinary_sentence_passes() {
    assert!(!is_hallucination("The quick brown fox jumps over the lazy dog"));
}

#[test]
fn case_is_ignored() {
    assert!(is_hallucination("Thank You For thank you for THANK YOU FOR"));
    assert!(repetitive_words("thank you for thank you for thank you for"));
    assert!(!repetitive_words("Thank You For thank you for THANK YOU FOR"));
}

#[test]
fn trimming_and_transcript() {
    assert_eq!(trim_white("  hello world \n"), "hello world");
    assert_eq!(trim_white("\u{3000}x\u{a0}"), "x");
    assert_eq!(finish_transcript("  hello there  "), "hello there");
    assert_eq!(finish_transcript(" go go go go go go go go go go "), "");
}

#[test]
fn config_defaults() {
    let c = MoonshineConfig::from_fields(None, None, None, None, None, None).unwrap();
    assert_eq!(c.eos_token_id, 50257);
    assert_eq!(c.decoder_start_token_id, 50257);
    assert_eq!(c.decoder_num_key_value_heads, 8);
    assert_eq!(c.decoder_num_hidden_layers, 8);
    assert_eq!(c.hidden_size, 416);
    assert_eq!(c.max_position_embeddings, 2048);
    assert_eq!(c.dim_kv(), 52);
}

#[test]
fn config_from_json_text() {
    let c = MoonshineConfig::from_json(r#"{"eos_token_id": 2, "hidden_size": 288, "decoder_num_key_value_heads": 6}"#).unwrap();
    assert_eq!(c.eos_token_id, 2);
    assert_eq!(c.decoder_start_token_id, 50257);
    assert_eq!(c.hidden_size, 288);
    assert_eq!(c.dim_kv(), 48);
    assert!(matches!(MoonshineConfig::from_json("not json"), Err(AppError::Transcription(_))));
    assert!(matches!(
        MoonshineConfig::from_json(r#"{"decoder_num_key_value_heads": 0}"#),
        Err(AppError::Transcription(_))
    ));
}

#[test]
fn decode_budget() {
    assert_eq!(max_decode_len(16000, 2048), 6);
    assert_eq!(max_decode_len(8000, 2048), 3);
    assert_eq!(max_decode_len(100, 2048), 1);
    assert_eq!(max_decode_len(16000 * 1000, 2048), 2048);
    assert_eq!(max_decode_len(16000, 0), 1);
}

#[test]
fn kv_layout_names_and_shapes() {
    let c = MoonshineConfig::from_fields(None, None, None, Some(2), None, None).unwrap();
    let slots = initial_kv_layout(&c);
    assert_eq!(slots.len(), 8);
    let names: Vec<&str> = slots.iter().map(|s| s.name.as_str()).collect();
    assert_eq!(
        names,
        vec![
            "past_key_values.0.decoder.key",
            "past_key_values.0.decoder.value",
            "past_key_values.0.encoder.key",
            "past_key_values.0.encoder.value",
            "past_key_values.1.decoder.key",
            "past_key_values.1.decoder.value",
            "past_key_values.1.encoder.key",
            "past_key_values.1.encoder.value",
        ]
    );
    assert!(slots.iter().all(|s| s.shape == vec![1, 8, 1, 52]));
    assert_eq!(slots[6].module, KvModule::Encoder);
    assert_eq!(slots[6].kind, KvKind::Key);
    assert_eq!(slots[6].layer, 1);
}

#[test]
fn kv_refresh_rule() {
    assert!(should_refresh(0, KvModule::Encoder, 3, 33));
    assert!(!should_refresh(1, KvModule::Encoder, 3, 33));
    assert!(should_refresh(5, KvModule::Decoder, 3, 33));
    assert!(!should_refresh(0, KvModule::Decoder, 32, 33));
    assert!(!use_cache_branch(0));
    assert!(use_cache_branch(1));
}

#[test]
fn token_sequence_stops_at_eos() {
    let mut t = TokenSequence::new(50257, 50257, 10);
    assert_eq!(t.last_token(), 50257);
    t.accept(15);
    t.accept(16);
    assert_eq!(t.last_token(), 16);
    assert_eq!(t.step(), 2);
    assert!(!t.is_done());
    t.accept(50257);
    assert!(t.is_done());
    assert_eq!(t.generated_ids(), vec![15, 16]);
}

#[test]
fn token_sequence_stops_at_budget() {
    let mut t = TokenSequence::new(1, 2, 2);
    t.accept(7);
    assert!(!t.is_done());
    t.accept(8);
    assert!(t.is_done());
    assert_eq!(t.generated_ids(), vec![7, 8]);
}
