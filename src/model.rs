use vstd::prelude::*;

use crate::error::AppError;

verus! {

pub const ENCODER_FILE: &'static str = "onnx/encoder_model_quantized.onnx";

pub const DECODER_FILE: &'static str = "onnx/decoder_model_merged_quantized.onnx";

pub const TOKENIZER_FILE: &'static str = "tokenizer.json";

pub const CONFIG_FILE: &'static str = "config.json";

pub const ORT_DLL_NAME: &'static str = "onnxruntime.dll";

/// Where the model files are fetched from.
pub const MODEL_BASE_URL: &'static str = "https://huggingface.co/onnx-community/moonshine-base-ONNX/resolve/main/";

/// What the platform path join gives for `base` and a relative `component`.
pub uninterp spec fn path_join(base: Seq<char>, component: Seq<char>) -> Seq<char>;

/// Relies on `std::path::Path::join`: appends a relative component to a base
/// path with the platform separator; the result depends on the two texts
/// alone.
#[verifier::external_body]
fn join_path(base: &str, component: &str) -> (r: String)
    ensures
        r@ == path_join(base@, component@),
{
    std::path::Path::new(base).join(component).to_string_lossy().into_owned()
}

/// Relies on `std::path::Path::exists`: whether a file is at `path` now.
#[verifier::external_body]
fn path_exists(path: &str) -> (r: bool) {
    std::path::Path::new(path).exists()
}

/// Relies on `dirs::data_local_dir`: the user's local application-data
/// directory, when the platform has one.
#[verifier::external_body]
fn local_data_dir() -> (r: Option<String>) {
    dirs::data_local_dir().map(|p| p.to_string_lossy().into_owned())
}

/// Relies on `dirs::data_dir`: the user's application-data directory, when
/// the platform has one.
#[verifier::external_body]
fn data_dir() -> (r: Option<String>) {
    dirs::data_dir().map(|p| p.to_string_lossy().into_owned())
}

/// The application-data directory the model cache goes under: the local
/// one when the platform has it, else the roaming one; `ModelDownload`
/// when there is neither.
pub fn cache_base(local: Option<String>, roaming: Option<String>) -> (r: Result<String, AppError>)
    ensures
        local matches Some(l) ==> r == Ok::<String, AppError>(l),
        local is None && roaming is Some ==> r == Ok::<String, AppError>(roaming->Some_0),
        local is None && roaming is None ==> r is Err && r->Err_0 is ModelDownload,
{
    match local {
        Some(l) => Ok(l),
        None => match roaming {
            Some(d) => Ok(d),
            None => Err(AppError::ModelDownload(String::from_str("Could not determine app data directory"))),
        },
    }
}

/// Locations of the four model artifacts.
#[derive(Debug, Clone, PartialEq, Eq)]
pub struct ModelPaths {
    pub encoder: String,
    pub decoder: String,
    pub tokenizer: String,
    pub config: String,
}

/// The model cache directory under an application-data directory.
pub open spec fn cache_under(base: Seq<char>) -> Seq<char> {
    path_join(path_join(path_join(base, "recogni"@), "models"@), "moonshine-base"@)
}

/// Finds the model files in a cache directory.
pub struct ModelManager {
    cache_dir: String,
}

impl ModelManager {
    pub closed spec fn spec_cache_dir(&self) -> Seq<char> {
        self.cache_dir@
    }

    /// The manager for the default cache directory
    /// `<user local data>/recogni/models/moonshine-base`; fails with
    /// `ModelDownload` when the platform has no application-data directory.
    pub fn new() -> (r: Result<ModelManager, AppError>)
        ensures
            r matches Ok(m) ==> exists|base: Seq<char>| #[trigger]
                cache_under(base) == m.spec_cache_dir(),
            r matches Err(e) ==> e is ModelDownload,
    {
        let base = cache_base(local_data_dir(), data_dir())?;
        Ok(ModelManager::under(base.as_str()))
    }

    /// The manager for the cache directory under `base`.
    pub fn under(base: &str) -> (r: ModelManager)
        ensures
            r.spec_cache_dir() == cache_under(base@),
    {
        let a = join_path(base, "recogni");
        let b = join_path(a.as_str(), "models");
        let c = join_path(b.as_str(), "moonshine-base");
        ModelManager { cache_dir: c }
    }

    /// The manager for a given cache directory.
    pub fn with_cache_dir(dir: &str) -> (r: ModelManager)
        ensures
            r.spec_cache_dir() == dir@,
    {
        ModelManager { cache_dir: String::from_str(dir) }
    }

    pub fn cache_dir(&self) -> (r: &str)
        ensures
            r@ == self.spec_cache_dir(),
    {
        self.cache_dir.as_str()
    }

    /// Where each model artifact lies in the cache.
    pub fn paths(&self) -> (r: ModelPaths)
        ensures
            r.encoder@ == path_join(self.spec_cache_dir(), ENCODER_FILE@),
            r.decoder@ == path_join(self.spec_cache_dir(), DECODER_FILE@),
            r.tokenizer@ == path_join(self.spec_cache_dir(), TOKENIZER_FILE@),
            r.config@ == path_join(self.spec_cache_dir(), CONFIG_FILE@),
    {
        ModelPaths {
            encoder: join_path(self.cache_dir.as_str(), ENCODER_FILE),
            decoder: join_path(self.cache_dir.as_str(), DECODER_FILE),
            tokenizer: join_path(self.cache_dir.as_str(), TOKENIZER_FILE),
            config: join_path(self.cache_dir.as_str(), CONFIG_FILE),
        }
    }

    /// Check if all model files are already cached.
    pub fn is_cached(&self) -> bool {
        let p = self.paths();
        path_exists(p.encoder.as_str()) && path_exists(p.decoder.as_str()) && path_exists(
            p.tokenizer.as_str(),
        ) && path_exists(p.config.as_str())
    }

    /// Get paths to cached model files; `ModelNotLoaded` when a file is
    /// missing.
    pub fn get_paths(&self) -> (r: Result<ModelPaths, AppError>)
        ensures
            r matches Ok(p) ==> {
                &&& p.encoder@ == path_join(self.spec_cache_dir(), ENCODER_FILE@)
                &&& p.decoder@ == path_join(self.spec_cache_dir(), DECODER_FILE@)
                &&& p.tokenizer@ == path_join(self.spec_cache_dir(), TOKENIZER_FILE@)
                &&& p.config@ == path_join(self.spec_cache_dir(), CONFIG_FILE@)
            },
            r matches Err(e) ==> e is ModelNotLoaded,
    {
        if !self.is_cached() {
            return Err(AppError::ModelNotLoaded);
        }
        Ok(self.paths())
    }

    /// Path where the inference runtime's shared library is kept.
    pub fn ort_dll_path(&self) -> (r: String)
        ensures
            r@ == path_join(self.spec_cache_dir(), ORT_DLL_NAME@),
    {
        join_path(self.cache_dir.as_str(), ORT_DLL_NAME)
    }
}

/// The artifacts a usable model needs, in download order.
pub fn required_files() -> (r: Vec<&'static str>)
    ensures
        r@.len() == 4,
        r@[0]@ == ENCODER_FILE@,
        r@[1]@ == DECODER_FILE@,
        r@[2]@ == TOKENIZER_FILE@,
        r@[3]@ == CONFIG_FILE@,
{
    let mut v: Vec<&'static str> = Vec::new();
    v.push(ENCODER_FILE);
    v.push(DECODER_FILE);
    v.push(TOKENIZER_FILE);
    v.push(CONFIG_FILE);
    v
}

/// Download address of a model artifact.
pub fn model_file_url(rel_path: &str) -> (r: String)
    ensures
        r@ == MODEL_BASE_URL@ + rel_path@,
{
    let mut s = String::from_str(MODEL_BASE_URL);
    s.append(rel_path);
    s
}

/// Loaded and cached state of the transcription model.
#[derive(Debug, Clone, Copy, PartialEq, Eq, Structural)]
pub struct TranscriptionModelInfo {
    pub loaded: bool,
    pub cached: bool,
}

/// Progress of a model download.
#[derive(Debug, Clone, Copy, PartialEq, Eq, Structural)]
pub struct ModelDownloadProgress {
    pub file_index: usize,
    pub total_files: usize,
    pub bytes_downloaded: u64,
    pub total_bytes: u64,
}

} // verus!
