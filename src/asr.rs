use vstd::prelude::*;

use crate::error::AppError;
use crate::text::{decimal, finish_transcript, hallucinated, push_decimal, trimmed};

verus! {

/// Default end-of-sequence and decoder-start token id.
pub const DEFAULT_SPECIAL_TOKEN: i64 = 50257;

pub const DEFAULT_KV_HEADS: u64 = 8;

pub const DEFAULT_LAYERS: u64 = 8;

pub const DEFAULT_HIDDEN_SIZE: u64 = 416;

pub const DEFAULT_MAX_POSITIONS: u64 = 2048;

/// Sample rate the recognizer expects.
pub const ASR_SAMPLE_RATE: usize = 16000;

/// Decoder steps allowed per second of audio.
pub const TOKENS_PER_SECOND: usize = 6;

/// The model settings the decoder loop reads.
#[derive(Debug, Clone, Copy, PartialEq, Eq)]
pub struct MoonshineConfig {
    pub eos_token_id: i64,
    pub decoder_start_token_id: i64,
    pub decoder_num_key_value_heads: usize,
    pub decoder_num_hidden_layers: usize,
    pub hidden_size: usize,
    pub max_position_embeddings: usize,
}

/// A usable configuration: at least one key/value head, and head and
/// per-head sizes that fit a signed 64-bit tensor dimension.
pub open spec fn config_ok(c: MoonshineConfig) -> bool {
    1 <= c.decoder_num_key_value_heads <= i64::MAX && c.hidden_size <= i64::MAX
}

/// The configuration the given fields make, each absent one taking its
/// default; `None` when it is not usable.
pub open spec fn config_from(
    eos: Option<i64>,
    start: Option<i64>,
    heads: Option<u64>,
    layers: Option<u64>,
    hidden: Option<u64>,
    max_pos: Option<u64>,
) -> Option<MoonshineConfig> {
    let c = MoonshineConfig {
        eos_token_id: match eos {
            Some(v) => v,
            None => DEFAULT_SPECIAL_TOKEN,
        },
        decoder_start_token_id: match start {
            Some(v) => v,
            None => DEFAULT_SPECIAL_TOKEN,
        },
        decoder_num_key_value_heads: match heads {
            Some(v) => v as usize,
            None => DEFAULT_KV_HEADS as usize,
        },
        decoder_num_hidden_layers: match layers {
            Some(v) => v as usize,
            None => DEFAULT_LAYERS as usize,
        },
        hidden_size: match hidden {
            Some(v) => v as usize,
            None => DEFAULT_HIDDEN_SIZE as usize,
        },
        max_position_embeddings: match max_pos {
            Some(v) => v as usize,
            None => DEFAULT_MAX_POSITIONS as usize,
        },
    };
    if config_ok(c) {
        Some(c)
    } else {
        None
    }
}

fn or_i64(v: Option<i64>, d: i64) -> (r: i64)
    ensures
        r == match v {
            Some(x) => x,
            None => d,
        },
{
    match v {
        Some(x) => x,
        None => d,
    }
}

fn or_u64(v: Option<u64>, d: u64) -> (r: usize)
    ensures
        r == match v {
            Some(x) => x as usize,
            None => d as usize,
        },
{
    match v {
        Some(x) => x as usize,
        None => d as usize,
    }
}

impl MoonshineConfig {
    /// Build the configuration from the fields a config file gave, with the
    /// defaults for absent ones. Fails with `Transcription` when the result
    /// has no key/value head or sizes beyond a tensor dimension.
    pub fn from_fields(
        eos: Option<i64>,
        start: Option<i64>,
        heads: Option<u64>,
        layers: Option<u64>,
        hidden: Option<u64>,
        max_pos: Option<u64>,
    ) -> (r: Result<MoonshineConfig, AppError>)
        ensures
            config_from(eos, start, heads, layers, hidden, max_pos) matches Some(c) ==> r == Ok::<
                MoonshineConfig,
                AppError,
            >(c),
            config_from(eos, start, heads, layers, hidden, max_pos) is None ==> r is Err
                && r->Err_0 is Transcription,
    {
        let c = MoonshineConfig {
            eos_token_id: or_i64(eos, DEFAULT_SPECIAL_TOKEN),
            decoder_start_token_id: or_i64(start, DEFAULT_SPECIAL_TOKEN),
            decoder_num_key_value_heads: or_u64(heads, DEFAULT_KV_HEADS),
            decoder_num_hidden_layers: or_u64(layers, DEFAULT_LAYERS),
            hidden_size: or_u64(hidden, DEFAULT_HIDDEN_SIZE),
            max_position_embeddings: or_u64(max_pos, DEFAULT_MAX_POSITIONS),
        };
        if c.decoder_num_key_value_heads < 1 || c.decoder_num_key_value_heads as u64 > i64::MAX as u64
            || c.hidden_size as u64 > i64::MAX as u64 {
            return Err(AppError::Transcription(String::from_str("Invalid model config")));
        }
        Ok(c)
    }

    /// Size of one key/value head.
    pub fn dim_kv(&self) -> (r: usize)
        requires
            config_ok(*self),
        ensures
            r == self.hidden_size / self.decoder_num_key_value_heads,
    {
        self.hidden_size / self.decoder_num_key_value_heads
    }
}

/// Number of decoder steps allowed for `audio_len` samples at 16 kHz: six
/// per second of audio, at most `max_positions`, and at least one.
pub open spec fn decode_budget(audio_len: nat, max_positions: nat) -> nat {
    let by_audio = audio_len * 6 / 16000;
    let capped = if by_audio < max_positions {
        by_audio
    } else {
        max_positions
    };
    if capped < 1 {
        1
    } else {
        capped
    }
}

pub fn max_decode_len(audio_len: usize, max_positions: usize) -> (r: usize)
    ensures
        r == decode_budget(audio_len as nat, max_positions as nat),
{
    let by_audio: usize = audio_len / ASR_SAMPLE_RATE * TOKENS_PER_SECOND + (audio_len
        % ASR_SAMPLE_RATE) * TOKENS_PER_SECOND / ASR_SAMPLE_RATE;
    assert(by_audio == audio_len * 6 / 16000) by (nonlinear_arith)
        requires
            by_audio == audio_len / 16000 * 6 + (audio_len % 16000) * 6 / 16000,
    {
        let q = audio_len / 16000;
        let m = audio_len % 16000;
        assert(audio_len == 16000 * q + m);
        assert(audio_len * 6 == 16000 * (6 * q) + 6 * m);
        assert((16000 * (6 * q) + 6 * m) / 16000 == 6 * q + (6 * m) / 16000);
    }
    let capped = if by_audio < max_positions {
        by_audio
    } else {
        max_positions
    };
    if capped < 1 {
        1
    } else {
        capped
    }
}


/// Which attention a cached key/value tensor belongs to.
#[derive(Debug, Clone, Copy, PartialEq, Eq, Structural)]
pub enum KvModule {
    Decoder,
    Encoder,
}

/// Whether a cached tensor holds keys or values.
#[derive(Debug, Clone, Copy, PartialEq, Eq, Structural)]
pub enum KvKind {
    Key,
    Value,
}

pub open spec fn module_name(m: KvModule) -> Seq<char> {
    match m {
        KvModule::Decoder => "decoder"@,
        KvModule::Encoder => "encoder"@,
    }
}

pub open spec fn kind_name(k: KvKind) -> Seq<char> {
    match k {
        KvKind::Key => "key"@,
        KvKind::Value => "value"@,
    }
}

/// The input name of a cache entry: `past_key_values.{layer}.{module}.{kind}`.
pub open spec fn slot_name(layer: nat, m: KvModule, k: KvKind) -> Seq<char> {
    "past_key_values."@ + decimal(layer) + "."@ + module_name(m) + "."@ + kind_name(k)
}

/// One named entry of the decoder's key/value cache, with the shape of the
/// tensor it holds. The tensor data itself travels with the inference
/// runtime.
#[derive(Debug, Clone, PartialEq, Eq)]
pub struct KvSlot {
    pub name: String,
    pub layer: usize,
    pub module: KvModule,
    pub kind: KvKind,
    pub shape: Vec<i64>,
}

/// Module and kind of the entry at position `j` of a layer's four entries.
pub open spec fn slot_module(j: int) -> KvModule {
    if j % 4 < 2 {
        KvModule::Decoder
    } else {
        KvModule::Encoder
    }
}

pub open spec fn slot_kind(j: int) -> KvKind {
    if j % 2 == 0 {
        KvKind::Key
    } else {
        KvKind::Value
    }
}

/// The cache layout before the first step: for each layer the decoder key,
/// decoder value, encoder key and encoder value, each with the placeholder
/// shape `[1, heads, 1, dim_kv]`.
pub open spec fn initial_layout_ok(c: MoonshineConfig, slots: Seq<KvSlot>) -> bool {
    &&& slots.len() == 4 * c.decoder_num_hidden_layers
    &&& forall|j: int|
        0 <= j < slots.len() ==> {
            let s = #[trigger] slots[j];
            &&& s.layer == j / 4
            &&& s.module == slot_module(j)
            &&& s.kind == slot_kind(j)
            &&& s.name@ == slot_name((j / 4) as nat, slot_module(j), slot_kind(j))
            &&& s.shape@ == seq![
                1i64,
                c.decoder_num_key_value_heads as i64,
                1i64,
                (c.hidden_size / c.decoder_num_key_value_heads) as i64,
            ]
        }
}

fn module_str(m: KvModule) -> (r: &'static str)
    ensures
        r@ == module_name(m),
{
    match m {
        KvModule::Decoder => "decoder",
        KvModule::Encoder => "encoder",
    }
}

fn kind_str(k: KvKind) -> (r: &'static str)
    ensures
        r@ == kind_name(k),
{
    match k {
        KvKind::Key => "key",
        KvKind::Value => "value",
    }
}

fn make_slot(layer: usize, m: KvModule, k: KvKind, heads: usize, dim: usize) -> (r: KvSlot)
    requires
        heads <= i64::MAX,
        dim <= i64::MAX,
    ensures
        r.layer == layer,
        r.module == m,
        r.kind == k,
        r.name@ == slot_name(layer as nat, m, k),
        r.shape@ == seq![1i64, heads as i64, 1i64, dim as i64],
{
    let mut name = String::from_str("past_key_values.");
    push_decimal(&mut name, layer as u64);
    name.append(".");
    name.append(module_str(m));
    name.append(".");
    name.append(kind_str(k));
    let mut shape: Vec<i64> = Vec::new();
    shape.push(1);
    shape.push(heads as i64);
    shape.push(1);
    shape.push(dim as i64);
    assert(shape@ =~= seq![1i64, heads as i64, 1i64, dim as i64]);
    KvSlot { name, layer, module: m, kind: k, shape }
}

/// Allocate the cache entries for the first decoder step.
pub fn initial_kv_layout(c: &MoonshineConfig) -> (r: Vec<KvSlot>)
    requires
        config_ok(*c),
        4 * c.decoder_num_hidden_layers <= usize::MAX,
    ensures
        initial_layout_ok(*c, r@),
{
    let heads = c.decoder_num_key_value_heads;
    let dim = c.dim_kv();
    let mut out: Vec<KvSlot> = Vec::new();
    let mut layer: usize = 0;
    while layer < c.decoder_num_hidden_layers
        invariant
            layer <= c.decoder_num_hidden_layers,
            4 * c.decoder_num_hidden_layers <= usize::MAX,
            config_ok(*c),
            heads == c.decoder_num_key_value_heads,
            dim == c.hidden_size / c.decoder_num_key_value_heads,
            out@.len() == 4 * layer,
            forall|j: int|
                0 <= j < out@.len() ==> {
                    let s = #[trigger] out@[j];
                    &&& s.layer == j / 4
                    &&& s.module == slot_module(j)
                    &&& s.kind == slot_kind(j)
                    &&& s.name@ == slot_name((j / 4) as nat, slot_module(j), slot_kind(j))
                    &&& s.shape@ == seq![1i64, heads as i64, 1i64, dim as i64]
                },
        decreases c.decoder_num_hidden_layers - layer,
    {
        proof {
            assert(dim <= c.hidden_size) by (nonlinear_arith)
                requires
                    dim == c.hidden_size / c.decoder_num_key_value_heads,
                    c.decoder_num_key_value_heads >= 1,
            ;
        }
        let base = 4 * layer;
        out.push(make_slot(layer, KvModule::Decoder, KvKind::Key, heads, dim));
        out.push(make_slot(layer, KvModule::Decoder, KvKind::Value, heads, dim));
        out.push(make_slot(layer, KvModule::Encoder, KvKind::Key, heads, dim));
        out.push(make_slot(layer, KvModule::Encoder, KvKind::Value, heads, dim));
        assert(base / 4 == layer && (base + 1) / 4 == layer && (base + 2) / 4 == layer && (base
            + 3) / 4 == layer);
        assert(base % 4 == 0 && (base + 1) % 4 == 1 && (base + 2) % 4 == 2 && (base + 3) % 4
            == 3);
        assert(base % 2 == 0 && (base + 1) % 2 == 1 && (base + 2) % 2 == 0 && (base + 3) % 2
            == 1);
        layer = layer + 1;
    }
    out
}

/// Whether a cache entry takes the decoder's new output after a step: every
/// entry after the first step (which runs without a cache), afterwards only
/// decoder-side entries. The entry at `slot_index` reads output
/// `slot_index + 1`, which must exist.
pub open spec fn refreshes(step: nat, m: KvModule, slot_index: nat, n_outputs: nat) -> bool {
    slot_index + 1 < n_outputs && (step == 0 || m == KvModule::Decoder)
}

pub fn should_refresh(step: usize, m: KvModule, slot_index: usize, n_outputs: usize) -> (r: bool)
    ensures
        r == refreshes(step as nat, m, slot_index as nat, n_outputs as nat),
{
    slot_index < n_outputs && slot_index + 1 < n_outputs && (step == 0 || m == KvModule::Decoder)
}

/// Whether the decoder runs on its cached branch at `step`.
pub fn use_cache_branch(step: usize) -> (r: bool)
    ensures
        r == (step > 0),
{
    step > 0
}


/// The tokens an utterance's decoding produced so far: the start token,
/// then the generated ids. Growth stops at end-of-sequence or when the step
/// budget is used up.
pub struct TokenSequence {
    start: i64,
    eos: i64,
    max_len: usize,
    generated: Vec<u32>,
    done: bool,
}

impl TokenSequence {
    pub closed spec fn spec_start(&self) -> i64 {
        self.start
    }

    pub closed spec fn spec_eos(&self) -> i64 {
        self.eos
    }

    pub closed spec fn spec_max_len(&self) -> nat {
        self.max_len as nat
    }

    /// The generated ids, without the start token.
    pub closed spec fn spec_generated(&self) -> Seq<u32> {
        self.generated@
    }

    pub closed spec fn spec_done(&self) -> bool {
        self.done
    }

    /// Decoder steps taken so far that produced a token.
    pub open spec fn spec_step(&self) -> nat {
        self.spec_generated().len()
    }

    /// The whole sequence, start token first.
    pub open spec fn spec_tokens(&self) -> Seq<i64> {
        seq![self.spec_start()] + self.spec_generated().map_values(|t: u32| t as i64)
    }

    pub open spec fn wf(&self) -> bool {
        &&& self.spec_step() <= self.spec_max_len()
        &&& self.spec_step() == self.spec_max_len() ==> self.spec_done()
        &&& forall|k: int|
            0 <= k < self.spec_generated().len() ==> #[trigger] self.spec_generated()[k] as i64
                != self.spec_eos()
    }

    /// Start a sequence with `start`, stopping at `eos` or after `max_len`
    /// generated tokens.
    pub fn new(start: i64, eos: i64, max_len: usize) -> (r: TokenSequence)
        requires
            max_len >= 1,
        ensures
            r.wf(),
            r.spec_start() == start,
            r.spec_eos() == eos,
            r.spec_max_len() == max_len,
            r.spec_generated() == Seq::<u32>::empty(),
            !r.spec_done(),
    {
        TokenSequence { start, eos, max_len, generated: Vec::new(), done: false }
    }

    /// The token the next decoder step is fed.
    pub fn last_token(&self) -> (r: i64)
        ensures
            r == self.spec_tokens().last(),
    {
        let n = self.generated.len();
        if n == 0 {
            self.start
        } else {
            self.generated[n - 1] as i64
        }
    }

    /// Index of the next decoder step.
    pub fn step(&self) -> (r: usize)
        ensures
            r == self.spec_step(),
    {
        self.generated.len()
    }

    pub fn is_done(&self) -> (r: bool)
        ensures
            r == self.spec_done(),
    {
        self.done
    }

    /// Take the token a decoder step selected. End-of-sequence finishes the
    /// sequence without being kept; any other token is appended, and the
    /// sequence finishes when the step budget is used up.
    pub fn accept(&mut self, next: u32)
        requires
            old(self).wf(),
            !old(self).spec_done(),
        ensures
            final(self).wf(),
            final(self).spec_start() == old(self).spec_start(),
            final(self).spec_eos() == old(self).spec_eos(),
            final(self).spec_max_len() == old(self).spec_max_len(),
            next as i64 == old(self).spec_eos() ==> {
                &&& final(self).spec_done()
                &&& final(self).spec_generated() == old(self).spec_generated()
            },
            next as i64 != old(self).spec_eos() ==> {
                &&& final(self).spec_generated() == old(self).spec_generated().push(next)
                &&& final(self).spec_done() == (final(self).spec_step()
                    == final(self).spec_max_len())
            },
    {
        if next as i64 == self.eos {
            self.done = true;
            return;
        }
        self.generated.push(next);
        self.done = self.generated.len() == self.max_len;
    }

    /// The ids handed to the tokenizer: the generated ones, without the
    /// start token.
    pub fn generated_ids(&self) -> (r: Vec<u32>)
        ensures
            r@ == self.spec_generated(),
    {
        self.generated.clone()
    }
}

#[verifier::external_type_specification]
#[verifier::external_body]
pub struct ExTokenizer(tokenizers::Tokenizer);

/// Relies on `tokenizers::Tokenizer::decode` with special tokens skipped: it
/// turns ids back into text using the loaded vocabulary, so nothing is
/// stated of the text it gives.
#[verifier::external_body]
fn decode_ids(tok: &tokenizers::Tokenizer, ids: &[u32]) -> (r: Option<String>) {
    tok.decode(ids, true).ok()
}

/// Turn a finished token sequence into the transcript: decode the generated
/// ids, trim the text, and give the empty text when it is judged
/// hallucinated. Fails with `Transcription` when the tokenizer does.
pub fn transcript_from_tokens(tok: &tokenizers::Tokenizer, tokens: &TokenSequence) -> (r: Result<
    String,
    AppError,
>)
    ensures
        r matches Ok(t) ==> exists|d: Seq<char>|
            #![trigger trimmed(d)]
            t@ == (if hallucinated(trimmed(d)) {
                Seq::<char>::empty()
            } else {
                trimmed(d)
            }),
        r matches Err(e) ==> e is Transcription,
{
    let ids = tokens.generated_ids();
    match decode_ids(tok, ids.as_slice()) {
        Some(text) => Ok(finish_transcript(text.as_str())),
        None => Err(AppError::Transcription(String::from_str("Tokenizer decode error"))),
    }
}

/// Whether the outside JSON parser accepts `text`.
pub uninterp spec fn json_parses(text: Seq<char>) -> bool;

/// The member `key` of the JSON object in `text`, when it is an integer
/// that fits `i64`.
pub uninterp spec fn json_i64_member(text: Seq<char>, key: Seq<char>) -> Option<i64>;

/// The member `key` of the JSON object in `text`, when it is an integer
/// that fits `u64`.
pub uninterp spec fn json_u64_member(text: Seq<char>, key: Seq<char>) -> Option<u64>;

/// Relies on `serde_json::from_str` into a `serde_json::Value`: whether the
/// text is JSON; this depends on the text alone.
#[verifier::external_body]
fn json_text_parses(text: &str) -> (r: bool)
    ensures
        r == json_parses(text@),
{
    serde_json::from_str::<serde_json::Value>(text).is_ok()
}

/// Relies on `serde_json::from_str`, `Value::get` and `Value::as_i64`: the
/// integer member `key` of the parsed text, if present and within `i64`;
/// this depends on the two texts alone.
#[verifier::external_body]
fn json_i64_field(text: &str, key: &str) -> (r: Option<i64>)
    ensures
        r == json_i64_member(text@, key@),
{
    serde_json::from_str::<serde_json::Value>(text).ok().and_then(|v| v.get(key).and_then(serde_json::Value::as_i64))
}

/// Relies on `serde_json::from_str`, `Value::get` and `Value::as_u64`: the
/// integer member `key` of the parsed text, if present and within `u64`;
/// this depends on the two texts alone.
#[verifier::external_body]
fn json_u64_field(text: &str, key: &str) -> (r: Option<u64>)
    ensures
        r == json_u64_member(text@, key@),
{
    serde_json::from_str::<serde_json::Value>(text).ok().and_then(|v| v.get(key).and_then(serde_json::Value::as_u64))
}

/// The configuration a config text gives: each of the six fields read
/// from the text, with defaults for absent ones.
pub open spec fn config_of_text(text: Seq<char>) -> Option<MoonshineConfig> {
    config_from(
        json_i64_member(text, "eos_token_id"@),
        json_i64_member(text, "decoder_start_token_id"@),
        json_u64_member(text, "decoder_num_key_value_heads"@),
        json_u64_member(text, "decoder_num_hidden_layers"@),
        json_u64_member(text, "hidden_size"@),
        json_u64_member(text, "max_position_embeddings"@),
    )
}

impl MoonshineConfig {
    /// Read the configuration from the text of the model's `config.json`:
    /// each of the six fields is taken when present as an integer of its
    /// kind, else its default applies. Fails with `Transcription` on text
    /// that is not JSON or on a configuration that is not usable.
    pub fn from_json(text: &str) -> (r: Result<MoonshineConfig, AppError>)
        ensures
            !json_parses(text@) ==> r is Err && r->Err_0 is Transcription,
            json_parses(text@) ==> match config_of_text(text@) {
                Some(c) => r == Ok::<MoonshineConfig, AppError>(c),
                None => r is Err && r->Err_0 is Transcription,
            },
    {
        if !json_text_parses(text) {
            return Err(AppError::Transcription(String::from_str("Failed to parse config")));
        }
        let eos = json_i64_field(text, "eos_token_id");
        let start = json_i64_field(text, "decoder_start_token_id");
        let heads = json_u64_field(text, "decoder_num_key_value_heads");
        let layers = json_u64_field(text, "decoder_num_hidden_layers");
        let hidden = json_u64_field(text, "hidden_size");
        let max_pos = json_u64_field(text, "max_position_embeddings");
        MoonshineConfig::from_fields(eos, start, heads, layers, hidden, max_pos)
    }
}

} // verus!
