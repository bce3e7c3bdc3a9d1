//! Offline recognition of the speech that voice activity detection cuts out.

use super::utils::{mono_of, pcm_i16_to_mono, PcmError};
use super::{AsrSegment, VadEvent, VadState};
use crate::internal::disk::{Host, PathKind, PathTable};
use crate::internal::env::{self, EnvVars};
use crate::internal::model_locator::{
    below, first_existing_dir, first_existing_file, first_of_kind, law_first_of_kind, located,
    NotFound,
};
use crate::internal::models;
use crate::metrics::{MetricEvent, MetricEventKind};
use crate::number::{append_number, decimal};
use crate::text::{
    after_last, drop_prefix, lowercase, lowercased, replace_char, replaced, same, starts_with,
    tail_after_last, trim, trimmed, without_prefix,
};
use crate::time::Timestamp;
use vstd::prelude::*;
use vstd::string::*;

verus! {

pub const DEFAULT_MODELS_ROOT: &'static str = "models";

pub const FALLBACK_MODELS_ROOT: &'static str = "asrmodel";

/// Samples per second that recognition works on.
pub const TARGET_SAMPLE_RATE: u32 = 16_000;

/// A recognition model.
#[derive(Debug, Clone, Copy, PartialEq, Eq, Structural)]
pub enum SherpaAsrModel {
    ParaformerZhSmall,
    ParaformerZh,
    ParaformerZhInt8,
    ParaformerTrilingual,
    ParaformerEn,
    SenseVoice,
    SenseVoiceInt8,
    SenseVoiceFunAsrNano,
    SenseVoiceFunAsrNanoInt8,
}

/// The part of a lower-case model name that tells the model: the last component of a path,
/// without the prefix of the archives, and with hyphens for underscores.
pub open spec fn model_key(lower: Seq<char>) -> Seq<char> {
    replaced(
        without_prefix(after_last(after_last(lower, '/'), '\\'), "sherpa-onnx-"@),
        '_',
        '-',
    )
}

impl SherpaAsrModel {
    /// The model that a key tells.
    pub open spec fn of_key(key: Seq<char>) -> Option<Self> {
        if "sense-voice-funasr-nano-int8"@.is_prefix_of(key)
            || "sensevoice-funasr-nano-int8"@.is_prefix_of(key)
            || "funasr-nano-int8"@.is_prefix_of(key) {
            Some(SherpaAsrModel::SenseVoiceFunAsrNanoInt8)
        } else if "sense-voice-funasr-nano"@.is_prefix_of(key)
            || "sensevoice-funasr-nano"@.is_prefix_of(key) || "funasr-nano"@.is_prefix_of(key) {
            Some(SherpaAsrModel::SenseVoiceFunAsrNano)
        } else if key == "paraformer-zh-small"@ || key == "paraformer-zh-small-2024-03-09"@ {
            Some(SherpaAsrModel::ParaformerZhSmall)
        } else if key == "paraformer-zh"@ || key == "paraformer-zh-2024-03-09"@ {
            Some(SherpaAsrModel::ParaformerZh)
        } else if key == "paraformer-zh-int8"@ || key == "paraformer-zh-int8-2025-10-07"@ {
            Some(SherpaAsrModel::ParaformerZhInt8)
        } else if key == "paraformer-trilingual"@ || key
            == "paraformer-trilingual-zh-cantonese-en"@ {
            Some(SherpaAsrModel::ParaformerTrilingual)
        } else if key == "paraformer-en"@ || key == "paraformer-en-2024-03-09"@ {
            Some(SherpaAsrModel::ParaformerEn)
        } else if key == "sensevoice"@ || key == "sense-voice"@ {
            Some(SherpaAsrModel::SenseVoice)
        } else if key == "sensevoice-int8"@ || key == "sense-voice-int8"@ {
            Some(SherpaAsrModel::SenseVoiceInt8)
        } else if "sense-voice-"@.is_prefix_of(key) || "sensevoice-"@.is_prefix_of(key) {
            Some(SherpaAsrModel::SenseVoice)
        } else {
            None
        }
    }

    /// The model of a lower-case name.
    pub fn from_lower(lower: &str) -> (r: Result<Self, AsrError>)
        ensures
            match Self::of_key(model_key(lower@)) {
                Some(model) => r == Ok::<_, AsrError>(model),
                None => r matches Err(AsrError::UnknownModel { key }) && key@ == model_key(lower@),
            },
    {
        let tail = tail_after_last(tail_after_last(lower, '/').as_str(), '\\');
        let key = replace_char(drop_prefix(tail.as_str(), "sherpa-onnx-").as_str(), '_', '-');
        let k = key.as_str();
        if starts_with(k, "sense-voice-funasr-nano-int8") || starts_with(
            k,
            "sensevoice-funasr-nano-int8",
        ) || starts_with(k, "funasr-nano-int8") {
            return Ok(SherpaAsrModel::SenseVoiceFunAsrNanoInt8);
        }
        if starts_with(k, "sense-voice-funasr-nano") || starts_with(k, "sensevoice-funasr-nano")
            || starts_with(k, "funasr-nano") {
            return Ok(SherpaAsrModel::SenseVoiceFunAsrNano);
        }
        if same(k, "paraformer-zh-small") || same(k, "paraformer-zh-small-2024-03-09") {
            Ok(SherpaAsrModel::ParaformerZhSmall)
        } else if same(k, "paraformer-zh") || same(k, "paraformer-zh-2024-03-09") {
            Ok(SherpaAsrModel::ParaformerZh)
        } else if same(k, "paraformer-zh-int8") || same(k, "paraformer-zh-int8-2025-10-07") {
            Ok(SherpaAsrModel::ParaformerZhInt8)
        } else if same(k, "paraformer-trilingual") || same(
            k,
            "paraformer-trilingual-zh-cantonese-en",
        ) {
            Ok(SherpaAsrModel::ParaformerTrilingual)
        } else if same(k, "paraformer-en") || same(k, "paraformer-en-2024-03-09") {
            Ok(SherpaAsrModel::ParaformerEn)
        } else if same(k, "sensevoice") || same(k, "sense-voice") {
            Ok(SherpaAsrModel::SenseVoice)
        } else if same(k, "sensevoice-int8") || same(k, "sense-voice-int8") {
            Ok(SherpaAsrModel::SenseVoiceInt8)
        } else if starts_with(k, "sense-voice-") || starts_with(k, "sensevoice-") {
            Ok(SherpaAsrModel::SenseVoice)
        } else {
            Err(AsrError::UnknownModel { key })
        }
    }

    /// The model of a name, whatever its case and the white space round it.
    pub fn parse(raw: &str) -> (r: Result<Self, AsrError>)
        ensures
            ({
                let key = model_key(lowercased(trimmed(raw@)));
                match Self::of_key(key) {
                    Some(model) => r == Ok::<_, AsrError>(model),
                    None => r matches Err(AsrError::UnknownModel { key: k }) && k@ == key,
                }
            }),
    {
        Self::from_lower(lowercase(trim(raw).as_str()).as_str())
    }
}

/// Whether a model is one of the SenseVoice models.
pub open spec fn is_sense_voice(model: SherpaAsrModel) -> bool {
    model == SherpaAsrModel::SenseVoice || model == SherpaAsrModel::SenseVoiceInt8 || model
        == SherpaAsrModel::SenseVoiceFunAsrNano || model == SherpaAsrModel::SenseVoiceFunAsrNanoInt8
}

/// Whether a model is one of the SenseVoice models; the others are Paraformer models.
pub fn is_sense_voice_model(model: SherpaAsrModel) -> (r: bool)
    ensures
        r == is_sense_voice(model),
{
    match model {
        SherpaAsrModel::SenseVoice => true,
        SherpaAsrModel::SenseVoiceInt8 => true,
        SherpaAsrModel::SenseVoiceFunAsrNano => true,
        SherpaAsrModel::SenseVoiceFunAsrNanoInt8 => true,
        _ => false,
    }
}

/// Which numbers a model is stored in.
#[derive(Debug, Clone, Copy, PartialEq, Eq, Structural)]
pub enum AsrModelDtype {
    /// Whichever is there, 8 bit first.
    Auto,
    Int8,
    Fp32,
}

impl Default for AsrModelDtype {
    fn default() -> (r: Self)
        ensures
            r == AsrModelDtype::Auto,
    {
        AsrModelDtype::Auto
    }
}

impl AsrModelDtype {
    /// The type of a lower-case word.
    pub open spec fn of_key(key: Seq<char>) -> Option<Self> {
        if key == "auto"@ {
            Some(AsrModelDtype::Auto)
        } else if key == "int8"@ || key == "i8"@ {
            Some(AsrModelDtype::Int8)
        } else if key == "fp32"@ || key == "f32"@ || key == "float"@ {
            Some(AsrModelDtype::Fp32)
        } else {
            None
        }
    }

    /// The type of a lower-case word.
    pub fn from_key(key: &str) -> (r: Option<Self>)
        ensures
            r == Self::of_key(key@),
    {
        if same(key, "auto") {
            Some(AsrModelDtype::Auto)
        } else if same(key, "int8") || same(key, "i8") {
            Some(AsrModelDtype::Int8)
        } else if same(key, "fp32") || same(key, "f32") || same(key, "float") {
            Some(AsrModelDtype::Fp32)
        } else {
            None
        }
    }

    /// The type of a word, whatever its case and the white space round it.
    pub fn parse(value: &str) -> (r: Result<Self, AsrError>)
        ensures
            ({
                let key = lowercased(trimmed(value@));
                match Self::of_key(key) {
                    Some(dtype) => r == Ok::<_, AsrError>(dtype),
                    None => r matches Err(AsrError::UnknownDtype { value: v }) && v@ == key,
                }
            }),
    {
        let key = lowercase(trim(value).as_str());
        match Self::from_key(key.as_str()) {
            Some(dtype) => Ok(dtype),
            None => Err(AsrError::UnknownDtype { value: key }),
        }
    }

    /// Reads the type from `ASR_MODEL_DTYPE`.
    pub fn from_env(vars: &EnvVars) -> (r: Result<Self, AsrError>)
        ensures
            match env::text_var(vars@, "ASR_MODEL_DTYPE"@) {
                None => r == Ok::<_, AsrError>(AsrModelDtype::Auto),
                Some(value) => {
                    let key = lowercased(trimmed(value));
                    match Self::of_key(key) {
                        Some(dtype) => r == Ok::<_, AsrError>(dtype),
                        None => r matches Err(AsrError::UnknownDtype { value: v }) && v@ == key,
                    }
                },
            },
    {
        match env::string(vars, "ASR_MODEL_DTYPE") {
            None => Ok(AsrModelDtype::Auto),
            Some(value) => Self::parse(value.as_str()),
        }
    }
}

/// Why there is no recognition.
#[derive(Debug)]
pub enum AsrError {
    UnknownModel { key: String },
    UnknownDtype { value: String },
    NotFound(NotFound),
    VadMissing { path: String },
    DirMissing { path: String },
    TokensMissing { path: String },
    /// The file of the type that was asked for is missing.
    DtypeMissing { path: String, int8: bool },
    /// The files of both types are missing.
    ModelMissing { path: String },
    NoSampleRate,
    FormatChanged { from: InputFormat, to: InputFormat },
    Pcm(PcmError),
}

impl AsrError {
    /// The error in words.
    pub open spec fn spec_message(&self) -> Seq<char> {
        match self {
            AsrError::UnknownModel { key } => "Unknown ASR_MODEL: "@ + key@,
            AsrError::UnknownDtype { value } => "Unknown ASR_MODEL_DTYPE: "@ + value@
                + " (expected auto|int8|fp32)"@,
            AsrError::NotFound(e) => e.label@ + " not found (tried: "@
                + crate::internal::model_locator::quoted(
                crate::text::spelled(e.tried@),
            ) + ")"@,
            AsrError::VadMissing { path } => "VAD model not found: "@ + path@
                + " (expected silero_vad.onnx under RCAT_MODELS_DIR/VAD or ASR_MODELS_ROOT, or set ASR_VAD_PATH)"@,
            AsrError::DirMissing { path } => "ASR model dir not found: "@ + path@,
            AsrError::TokensMissing { path } => "ASR tokens not found: "@ + path@,
            AsrError::DtypeMissing { path, int8 } => "ASR model file not found: "@ + path@
                + " (set ASR_MODEL_DTYPE=auto or download "@ + (if *int8 {
                "model.int8.onnx"@
            } else {
                "model.onnx"@
            }) + ")"@,
            AsrError::ModelMissing { path } => "ASR model file not found: "@ + path@
                + " (expected model.int8.onnx or model.onnx)"@,
            AsrError::NoSampleRate => "sample_rate must be > 0"@,
            AsrError::FormatChanged { from, to } => "input audio format changed: "@ + decimal(
                from.sample_rate as nat,
            ) + "Hz/"@ + decimal(from.channels as nat) + "ch -> "@ + decimal(
                to.sample_rate as nat,
            ) + "Hz/"@ + decimal(to.channels as nat) + "ch"@,
            AsrError::Pcm(e) => e.spec_message(),
        }
    }

    /// The error in words.
    pub fn message(&self) -> (r: String)
        ensures
            r@ == self.spec_message(),
    {
        let mut out = String::new();
        match self {
            AsrError::UnknownModel { key } => {
                out = "Unknown ASR_MODEL: ".to_string();
                out.append(key.as_str());
            },
            AsrError::UnknownDtype { value } => {
                out = "Unknown ASR_MODEL_DTYPE: ".to_string();
                out.append(value.as_str());
                out.append(" (expected auto|int8|fp32)");
            },
            AsrError::NotFound(e) => {
                out = e.message();
            },
            AsrError::VadMissing { path } => {
                out = "VAD model not found: ".to_string();
                out.append(path.as_str());
                out.append(
                    " (expected silero_vad.onnx under RCAT_MODELS_DIR/VAD or ASR_MODELS_ROOT, or set ASR_VAD_PATH)",
                );
            },
            AsrError::DirMissing { path } => {
                out = "ASR model dir not found: ".to_string();
                out.append(path.as_str());
            },
            AsrError::TokensMissing { path } => {
                out = "ASR tokens not found: ".to_string();
                out.append(path.as_str());
            },
            AsrError::DtypeMissing { path, int8 } => {
                out = "ASR model file not found: ".to_string();
                out.append(path.as_str());
                out.append(" (set ASR_MODEL_DTYPE=auto or download ");
                if *int8 {
                    out.append("model.int8.onnx");
                } else {
                    out.append("model.onnx");
                }
                out.append(")");
            },
            AsrError::ModelMissing { path } => {
                out = "ASR model file not found: ".to_string();
                out.append(path.as_str());
                out.append(" (expected model.int8.onnx or model.onnx)");
            },
            AsrError::NoSampleRate => {
                out = "sample_rate must be > 0".to_string();
            },
            AsrError::FormatChanged { from, to } => {
                out = "input audio format changed: ".to_string();
                append_number(&mut out, from.sample_rate as u64);
                out.append("Hz/");
                append_number(&mut out, from.channels as u64);
                out.append("ch -> ");
                append_number(&mut out, to.sample_rate as u64);
                out.append("Hz/");
                append_number(&mut out, to.channels as u64);
                out.append("ch");
            },
            AsrError::Pcm(e) => {
                out = e.message();
            },
        }
        out
    }
}

/// The format of the audio that is written to a stream.
#[derive(Debug, Clone, Copy, PartialEq, Eq, Structural)]
pub struct InputFormat {
    pub sample_rate: u32,
    pub channels: u16,
}

/// A file of a model, as two paths: the model and its tokens.
#[derive(Debug)]
pub struct ModelPaths {
    pub model: String,
    pub tokens: String,
}

/// The names of a SenseVoice model file, the preferred one first.
pub open spec fn sense_voice_files(prefer_int8: bool) -> Seq<&'static str> {
    if prefer_int8 {
        seq!["model.int8.onnx", "model.onnx"]
    } else {
        seq!["model.onnx", "model.int8.onnx"]
    }
}

/// The directories of a SenseVoice model, the preferred one first.
pub open spec fn sense_voice_dirs(model: SherpaAsrModel) -> Seq<&'static str> {
    match model {
        SherpaAsrModel::SenseVoiceFunAsrNano => seq![
            "sherpa-onnx-sense-voice-funasr-nano-2025-12-17",
            "sherpa-onnx-sense-voice-funasr-nano-int8-2025-12-17",
        ],
        SherpaAsrModel::SenseVoiceFunAsrNanoInt8 => seq![
            "sherpa-onnx-sense-voice-funasr-nano-int8-2025-12-17",
            "sherpa-onnx-sense-voice-funasr-nano-2025-12-17",
        ],
        _ => seq!["sherpa-onnx-sense-voice-zh-en-ja-ko-yue-2024-07-17"],
    }
}

/// Whether `r` is what a SenseVoice model resolves to: its directory, its tokens and its model
/// are looked for in this order, and the first that is missing is the error.
pub open spec fn sense_voice_resolved(
    r: Result<ModelPaths, AsrError>,
    disk: PathTable,
    root: Seq<char>,
    dirs: Seq<&str>,
    prefer_int8: bool,
) -> bool {
    match first_of_kind(disk, below(disk, root, dirs), PathKind::Directory) {
        None => r matches Err(AsrError::NotFound(e)) && located(
            Err(e),
            disk,
            root,
            "ASR model dir"@,
            dirs,
            PathKind::Directory,
        ),
        Some(base) => match first_of_kind(disk, below(disk, base, seq!["tokens.txt"]), PathKind::File) {
            None => r matches Err(AsrError::NotFound(e)) && located(
                Err(e),
                disk,
                base,
                "ASR tokens"@,
                seq!["tokens.txt"],
                PathKind::File,
            ),
            Some(tokens) => match first_of_kind(
                disk,
                below(disk, base, sense_voice_files(prefer_int8)),
                PathKind::File,
            ) {
                None => r matches Err(AsrError::NotFound(e)) && located(
                    Err(e),
                    disk,
                    base,
                    "ASR model file"@,
                    sense_voice_files(prefer_int8),
                    PathKind::File,
                ),
                Some(model) => r matches Ok(p) && p.model@ == model && p.tokens@ == tokens,
            },
        },
    }
}

/// Finds the files of a SenseVoice model.
pub fn resolve_sense_voice(
    disk: &PathTable,
    models_root: &str,
    dir_candidates: &Vec<&str>,
    prefer_int8: bool,
) -> (r: Result<ModelPaths, AsrError>)
    ensures
        sense_voice_resolved(r, *disk, models_root@, dir_candidates@, prefer_int8),
{
    let base = match first_existing_dir(disk, models_root, "ASR model dir", dir_candidates) {
        Ok(base) => base,
        Err(e) => {
            return Err(AsrError::NotFound(e));
        },
    };
    let token_files: Vec<&str> = vec!["tokens.txt"];
    proof {
        assert(token_files@ =~= seq!["tokens.txt"]);
    }
    let tokens = match first_existing_file(disk, base.as_str(), "ASR tokens", &token_files) {
        Ok(tokens) => tokens,
        Err(e) => {
            return Err(AsrError::NotFound(e));
        },
    };
    let model_files: Vec<&str> = if prefer_int8 {
        vec!["model.int8.onnx", "model.onnx"]
    } else {
        vec!["model.onnx", "model.int8.onnx"]
    };
    proof {
        assert(model_files@ =~= sense_voice_files(prefer_int8));
    }
    match first_existing_file(disk, base.as_str(), "ASR model file", &model_files) {
        Ok(model) => Ok(ModelPaths { model, tokens }),
        Err(e) => Err(AsrError::NotFound(e)),
    }
}

/// Whether `r` is what a Paraformer model resolves to.
pub open spec fn paraformer_resolved(
    r: Result<ModelPaths, AsrError>,
    disk: PathTable,
    base: Seq<char>,
    dtype: AsrModelDtype,
) -> bool {
    let tokens = disk.joined(base, "tokens.txt"@);
    let int8 = disk.joined(base, "model.int8.onnx"@);
    let fp32 = disk.joined(base, "model.onnx"@);
    if !disk.has(base) {
        r matches Err(AsrError::DirMissing { path }) && path@ == base
    } else if !disk.has(tokens) {
        r matches Err(AsrError::TokensMissing { path }) && path@ == tokens
    } else {
        match dtype {
            AsrModelDtype::Auto => if disk.has(int8) {
                r matches Ok(p) && p.model@ == int8 && p.tokens@ == tokens
            } else if disk.has(fp32) {
                r matches Ok(p) && p.model@ == fp32 && p.tokens@ == tokens
            } else {
                r matches Err(AsrError::ModelMissing { path }) && path@ == fp32
            },
            AsrModelDtype::Int8 => if disk.has(int8) {
                r matches Ok(p) && p.model@ == int8 && p.tokens@ == tokens
            } else {
                r matches Err(AsrError::DtypeMissing { path, int8: i }) && path@ == int8 && i
            },
            AsrModelDtype::Fp32 => if disk.has(fp32) {
                r matches Ok(p) && p.model@ == fp32 && p.tokens@ == tokens
            } else {
                r matches Err(AsrError::DtypeMissing { path, int8: i }) && path@ == fp32 && !i
            },
        }
    }
}

/// Finds the files of a Paraformer model in its directory.
pub fn resolve_paraformer_dir(disk: &PathTable, base: &str, dtype: AsrModelDtype) -> (r: Result<
    ModelPaths,
    AsrError,
>)
    ensures
        paraformer_resolved(r, *disk, base@, dtype),
{
    if !disk.holds(base) {
        return Err(AsrError::DirMissing { path: base.to_string() });
    }
    let tokens = disk.join(base, "tokens.txt");
    if !disk.holds(tokens.as_str()) {
        return Err(AsrError::TokensMissing { path: tokens });
    }
    let int8 = disk.join(base, "model.int8.onnx");
    let fp32 = disk.join(base, "model.onnx");
    let model = match dtype {
        AsrModelDtype::Auto => if disk.holds(int8.as_str()) {
            int8
        } else {
            fp32
        },
        AsrModelDtype::Int8 => if disk.holds(int8.as_str()) {
            int8
        } else {
            return Err(AsrError::DtypeMissing { path: int8, int8: true });
        },
        AsrModelDtype::Fp32 => if disk.holds(fp32.as_str()) {
            fp32
        } else {
            return Err(AsrError::DtypeMissing { path: fp32, int8: false });
        },
    };
    if !disk.holds(model.as_str()) {
        return Err(AsrError::ModelMissing { path: model });
    }
    Ok(ModelPaths { model, tokens })
}

/// Voice activity settings, but for the durations and the threshold.
#[derive(Debug)]
pub struct SherpaVadConfig {
    pub model: String,
    pub window_size: i32,
}

/// The path of the voice activity model: the one that is set, else the one below `root`.
pub open spec fn vad_model(host: Host, root: Seq<char>) -> Seq<char> {
    match env::text_var(host.vars@, "ASR_VAD_PATH"@) {
        Some(path) => path,
        None => {
            let dir = host.disk.joined(root, "silero_vad"@);
            let in_dir = host.disk.joined(dir, "silero_vad.onnx"@);
            if host.disk.has(in_dir) {
                in_dir
            } else {
                host.disk.joined(root, "silero_vad.onnx"@)
            }
        },
    }
}

impl SherpaVadConfig {
    /// Reads the settings from the environment; the model must exist.
    pub fn from_env(host: &Host, models_root: &str) -> (r: Result<Self, AsrError>)
        ensures
            ({
                let model = vad_model(*host, models_root@);
                if host.disk.has(model) {
                    r matches Ok(c) && c.model@ == model && c.window_size == env::signed_setting(
                        host.vars@,
                        "ASR_VAD_WINDOW"@,
                        i32::MIN as int,
                        i32::MAX as int,
                        512,
                        128,
                        8192,
                    )
                } else {
                    r matches Err(AsrError::VadMissing { path }) && path@ == model
                }
            }),
    {
        let model = match env::string(&host.vars, "ASR_VAD_PATH") {
            Some(path) => path,
            None => {
                let dir = host.disk.join(models_root, "silero_vad");
                let in_dir = host.disk.join(dir.as_str(), "silero_vad.onnx");
                if host.disk.holds(in_dir.as_str()) {
                    in_dir
                } else {
                    host.disk.join(models_root, "silero_vad.onnx")
                }
            },
        };
        if !host.disk.holds(model.as_str()) {
            return Err(AsrError::VadMissing { path: model });
        }
        let window_size: i32 = env::i32_clamped(&host.vars, "ASR_VAD_WINDOW", 512, 128, 8192);
        Ok(SherpaVadConfig { model, window_size })
    }
}

/// Recognition settings.
#[derive(Debug)]
pub struct SherpaAsrConfig {
    pub models_root: String,
    pub model: SherpaAsrModel,
    pub model_dtype: AsrModelDtype,
    pub lang: String,
    pub provider: String,
    pub threads: i32,
    pub infer_log: bool,
    /// How many stretches of speech may wait for recognition.
    pub segment_queue: usize,
    /// How much audio voice activity detection looks at at once.
    pub vad_chunk_ms: u64,
    pub vad: SherpaVadConfig,
}

/// The directory of the recognition models.
pub open spec fn asr_root(host: Host) -> Seq<char> {
    match env::text_var(host.vars@, "ASR_MODELS_ROOT"@) {
        Some(root) => root,
        None => match models::category_or_root(host, "ASR"@) {
            Some(root) => root,
            None => if host.disk.has("asrmodel"@) {
                "asrmodel"@
            } else {
                "models"@
            },
        },
    }
}

/// The directory of the voice activity model.
pub open spec fn vad_root(host: Host) -> Seq<char> {
    match models::category_or_root(host, "VAD"@) {
        Some(root) => root,
        None => asr_root(host),
    }
}

/// The directory of the recognition models.
fn asr_models_root(host: &Host) -> (r: String)
    ensures
        r@ == asr_root(*host),
{
    match env::string(&host.vars, "ASR_MODELS_ROOT") {
        Some(root) => root,
        None => match models::asr_dir(host) {
            Some(root) => root,
            None => if host.disk.holds(FALLBACK_MODELS_ROOT) {
                FALLBACK_MODELS_ROOT.to_string()
            } else {
                DEFAULT_MODELS_ROOT.to_string()
            },
        },
    }
}

/// The key of the model that is set, or of the default one.
pub open spec fn env_model_key(vars: Map<Seq<char>, Seq<char>>) -> Seq<char> {
    match env::text_var(vars, "ASR_MODEL"@) {
        Some(name) => model_key(lowercased(trimmed(name))),
        None => "paraformer-zh-small"@,
    }
}

/// The model that is set, or the default one.
pub open spec fn env_model(vars: Map<Seq<char>, Seq<char>>) -> Option<SherpaAsrModel> {
    match env::text_var(vars, "ASR_MODEL"@) {
        Some(_) => SherpaAsrModel::of_key(env_model_key(vars)),
        None => Some(SherpaAsrModel::ParaformerZhSmall),
    }
}

/// The key of the number type that is set, if one is.
pub open spec fn env_dtype_key(vars: Map<Seq<char>, Seq<char>>) -> Seq<char> {
    match env::text_var(vars, "ASR_MODEL_DTYPE"@) {
        Some(value) => lowercased(trimmed(value)),
        None => "auto"@,
    }
}

impl SherpaAsrConfig {
    /// Whether `self` is what the environment sets.
    pub open spec fn is_env_config(self, host: Host) -> bool {
        &&& self.models_root@ == asr_root(host)
        &&& env_model(host.vars@) == Some(self.model)
        &&& AsrModelDtype::of_key(env_dtype_key(host.vars@)) == Some(self.model_dtype)
        &&& self.lang@ == env::text_setting(host.vars@, "ASR_LANG"@, "zh"@)
        &&& self.provider@ == env::text_setting(host.vars@, "ASR_PROVIDER"@, "cpu"@)
        &&& self.threads == env::signed_setting(
            host.vars@,
            "ASR_THREADS"@,
            i32::MIN as int,
            i32::MAX as int,
            2,
            1,
            32,
        )
        &&& self.infer_log == env::switch_setting(host.vars@, "ASR_INFER_LOG"@, false)
        &&& self.segment_queue == env::unsigned_setting(
            host.vars@,
            "ASR_SEGMENT_QUEUE"@,
            usize::MAX as nat,
            8,
            1,
            128,
        )
        &&& self.vad_chunk_ms == env::unsigned_setting(
            host.vars@,
            "ASR_VAD_CHUNK_MS"@,
            u64::MAX as nat,
            20,
            5,
            2000,
        )
        &&& self.vad.model@ == vad_model(host, vad_root(host))
        &&& self.vad.window_size == env::signed_setting(
            host.vars@,
            "ASR_VAD_WINDOW"@,
            i32::MIN as int,
            i32::MAX as int,
            512,
            128,
            8192,
        )
    }

    /// Reads the settings from the environment: an unknown model, an unknown number type and a
    /// missing voice activity model are looked for in this order.
    pub fn from_env(host: &Host) -> (r: Result<Self, AsrError>)
        ensures
            if env_model(host.vars@) is None {
                r matches Err(AsrError::UnknownModel { key }) && key@ == env_model_key(host.vars@)
            } else if AsrModelDtype::of_key(env_dtype_key(host.vars@)) is None {
                r matches Err(AsrError::UnknownDtype { value }) && value@ == env_dtype_key(
                    host.vars@,
                )
            } else if !host.disk.has(vad_model(*host, vad_root(*host))) {
                r matches Err(AsrError::VadMissing { path }) && path@ == vad_model(
                    *host,
                    vad_root(*host),
                )
            } else {
                r matches Ok(c) && c.is_env_config(*host)
            },
    {
        let models_root = asr_models_root(host);
        let model = match env::string(&host.vars, "ASR_MODEL") {
            Some(name) => match SherpaAsrModel::parse(name.as_str()) {
                Ok(model) => model,
                Err(e) => {
                    return Err(e);
                },
            },
            None => SherpaAsrModel::ParaformerZhSmall,
        };
        let model_dtype = match AsrModelDtype::from_env(&host.vars) {
            Ok(dtype) => dtype,
            Err(e) => {
                return Err(e);
            },
        };
        let lang = env::string_or(&host.vars, "ASR_LANG", "zh");
        let provider = env::string_or(&host.vars, "ASR_PROVIDER", "cpu");
        let threads: i32 = env::i32_clamped(&host.vars, "ASR_THREADS", 2, 1, 32);
        let infer_log = env::bool01(&host.vars, "ASR_INFER_LOG", false);
        let segment_queue: usize = env::usize_clamped(&host.vars, "ASR_SEGMENT_QUEUE", 8, 1, 128);
        let vad_chunk_ms: u64 = env::u64_clamped(&host.vars, "ASR_VAD_CHUNK_MS", 20, 5, 2000);
        let vad_dir = match models::vad_dir(host) {
            Some(dir) => dir,
            None => models_root.clone(),
        };
        match SherpaVadConfig::from_env(host, vad_dir.as_str()) {
            Ok(vad) => Ok(
                SherpaAsrConfig {
                    models_root,
                    model,
                    model_dtype,
                    lang,
                    provider,
                    threads,
                    infer_log,
                    segment_queue,
                    vad_chunk_ms,
                    vad,
                },
            ),
            Err(e) => Err(e),
        }
    }

    /// Finds the files of the model.
    pub fn resolve_model_paths(&self, disk: &PathTable) -> (r: Result<ModelPaths, AsrError>)
        ensures
            model_resolved(r, *disk, self.models_root@, self.model, self.model_dtype),
            self.model == SherpaAsrModel::ParaformerZhSmall ==> paraformer_resolved(
                r,
                *disk,
                disk.joined(self.models_root@, "sherpa-onnx-paraformer-zh-small-2024-03-09"@),
                self.model_dtype,
            ),
            self.model == SherpaAsrModel::ParaformerZh ==> paraformer_resolved(
                r,
                *disk,
                disk.joined(self.models_root@, "sherpa-onnx-paraformer-zh-2024-03-09"@),
                self.model_dtype,
            ),
            self.model == SherpaAsrModel::ParaformerZhInt8 ==> paraformer_resolved(
                r,
                *disk,
                disk.joined(self.models_root@, "sherpa-onnx-paraformer-zh-int8-2025-10-07"@),
                self.model_dtype,
            ),
            self.model == SherpaAsrModel::ParaformerTrilingual ==> paraformer_resolved(
                r,
                *disk,
                disk.joined(
                    self.models_root@,
                    "sherpa-onnx-paraformer-trilingual-zh-cantonese-en"@,
                ),
                self.model_dtype,
            ),
    {
        let root = self.models_root.as_str();
        match self.model {
            SherpaAsrModel::SenseVoice => {
                let dirs: Vec<&str> = vec!["sherpa-onnx-sense-voice-zh-en-ja-ko-yue-2024-07-17"];
                proof {
                    assert(dirs@ =~= sense_voice_dirs(self.model));
                }
                resolve_sense_voice(disk, root, &dirs, false)
            },
            SherpaAsrModel::SenseVoiceInt8 => {
                let dirs: Vec<&str> = vec!["sherpa-onnx-sense-voice-zh-en-ja-ko-yue-2024-07-17"];
                proof {
                    assert(dirs@ =~= sense_voice_dirs(self.model));
                }
                resolve_sense_voice(disk, root, &dirs, true)
            },
            SherpaAsrModel::SenseVoiceFunAsrNano => {
                let dirs: Vec<&str> = vec![
                    "sherpa-onnx-sense-voice-funasr-nano-2025-12-17",
                    "sherpa-onnx-sense-voice-funasr-nano-int8-2025-12-17",
                ];
                proof {
                    assert(dirs@ =~= sense_voice_dirs(self.model));
                }
                resolve_sense_voice(disk, root, &dirs, false)
            },
            SherpaAsrModel::SenseVoiceFunAsrNanoInt8 => {
                let dirs: Vec<&str> = vec![
                    "sherpa-onnx-sense-voice-funasr-nano-int8-2025-12-17",
                    "sherpa-onnx-sense-voice-funasr-nano-2025-12-17",
                ];
                proof {
                    assert(dirs@ =~= sense_voice_dirs(self.model));
                }
                resolve_sense_voice(disk, root, &dirs, true)
            },
            SherpaAsrModel::ParaformerZhSmall => resolve_paraformer_dir(
                disk,
                disk.join(root, "sherpa-onnx-paraformer-zh-small-2024-03-09").as_str(),
                self.model_dtype,
            ),
            SherpaAsrModel::ParaformerZh => resolve_paraformer_dir(
                disk,
                disk.join(root, "sherpa-onnx-paraformer-zh-2024-03-09").as_str(),
                self.model_dtype,
            ),
            SherpaAsrModel::ParaformerZhInt8 => resolve_paraformer_dir(
                disk,
                disk.join(root, "sherpa-onnx-paraformer-zh-int8-2025-10-07").as_str(),
                self.model_dtype,
            ),
            SherpaAsrModel::ParaformerTrilingual => resolve_paraformer_dir(
                disk,
                disk.join(root, "sherpa-onnx-paraformer-trilingual-zh-cantonese-en").as_str(),
                self.model_dtype,
            ),
            SherpaAsrModel::ParaformerEn => {
                // The archive is found under its own name and under a shorter one.
                let dirs: Vec<&str> = vec![
                    "sherpa-onnx-paraformer-en",
                    "sherpa-onnx-paraformer-en-2024-03-09",
                ];
                proof {
                    assert(dirs@ =~= paraformer_en_dirs());
                }
                match first_existing_dir(disk, root, "ASR model dir", &dirs) {
                    Ok(base) => resolve_paraformer_dir(disk, base.as_str(), self.model_dtype),
                    Err(e) => Err(AsrError::NotFound(e)),
                }
            },
        }
    }
}

/// The directory of a Paraformer model with one directory.
pub open spec fn paraformer_dir(model: SherpaAsrModel) -> Seq<char> {
    match model {
        SherpaAsrModel::ParaformerZhSmall => "sherpa-onnx-paraformer-zh-small-2024-03-09"@,
        SherpaAsrModel::ParaformerZh => "sherpa-onnx-paraformer-zh-2024-03-09"@,
        SherpaAsrModel::ParaformerZhInt8 => "sherpa-onnx-paraformer-zh-int8-2025-10-07"@,
        _ => "sherpa-onnx-paraformer-trilingual-zh-cantonese-en"@,
    }
}

/// The directories of the English Paraformer model.
pub open spec fn paraformer_en_dirs() -> Seq<&'static str> {
    seq!["sherpa-onnx-paraformer-en", "sherpa-onnx-paraformer-en-2024-03-09"]
}

/// Whether `r` is what a model resolves to.
pub open spec fn model_resolved(
    r: Result<ModelPaths, AsrError>,
    disk: PathTable,
    root: Seq<char>,
    model: SherpaAsrModel,
    dtype: AsrModelDtype,
) -> bool {
    if is_sense_voice(model) {
        sense_voice_resolved(
            r,
            disk,
            root,
            sense_voice_dirs(model),
            model == SherpaAsrModel::SenseVoiceInt8 || model
                == SherpaAsrModel::SenseVoiceFunAsrNanoInt8,
        )
    } else if model == SherpaAsrModel::ParaformerEn {
        match first_of_kind(disk, below(disk, root, paraformer_en_dirs()), PathKind::Directory) {
            Some(base) => paraformer_resolved(r, disk, base, dtype),
            None => r matches Err(AsrError::NotFound(e)) && located(
                Err(e),
                disk,
                root,
                "ASR model dir"@,
                paraformer_en_dirs(),
                PathKind::Directory,
            ),
        }
    } else {
        paraformer_resolved(r, disk, disk.joined(root, paraformer_dir(model)), dtype)
    }
}

/// How many samples voice activity detection looks at at once.
pub fn vad_chunk_samples(vad_chunk_ms: u64) -> (r: u64)
    requires
        vad_chunk_ms * TARGET_SAMPLE_RATE <= u64::MAX,
    ensures
        r == if vad_chunk_ms * 16_000 / 1000 < 1 {
            1
        } else {
            vad_chunk_ms * 16_000 / 1000
        },
{
    let samples: u64 = TARGET_SAMPLE_RATE as u64 * vad_chunk_ms / 1000;
    if samples < 1 {
        1
    } else {
        samples
    }
}

/// What a write to a stream comes to.
#[derive(Debug)]
pub struct WritePlan {
    /// One channel, in units of 1/65536 of full scale.
    pub mono: Vec<i32>,
    /// Whether it is to be brought to 16 kHz.
    pub resample: bool,
}

/// Checks audio that is written to a stream, and makes one channel of it. The first audio fixes
/// the stream's format.
pub fn plan_write(
    input_format: &mut Option<InputFormat>,
    pcm: &Vec<i16>,
    sample_rate: u32,
    channels: u16,
) -> (r: Result<WritePlan, AsrError>)
    ensures
        ({
            let given = InputFormat { sample_rate, channels };
            if sample_rate == 0 {
                &&& r == Err::<WritePlan, _>(AsrError::NoSampleRate)
                &&& *final(input_format) == *old(input_format)
            } else {
                let fixed = match *old(input_format) {
                    Some(f) => f,
                    None => given,
                };
                &&& *final(input_format) == Some(fixed)
                &&& if fixed != given {
                    r == Err::<WritePlan, _>(AsrError::FormatChanged { from: fixed, to: given })
                } else if channels == 0 {
                    r == Err::<WritePlan, _>(AsrError::Pcm(PcmError::NoChannels))
                } else if channels > 2 {
                    r == Err::<WritePlan, _>(
                        AsrError::Pcm(PcmError::UnsupportedChannels { channels }),
                    )
                } else {
                    r matches Ok(plan) && plan.resample == (sample_rate != 16_000)
                        && plan.mono@.map_values(|v: i32| v as int) == mono_of(
                        pcm@,
                        channels as nat,
                    )
                }
            }
        }),
{
    if sample_rate == 0 {
        return Err(AsrError::NoSampleRate);
    }
    let given = InputFormat { sample_rate, channels };
    let fixed = match *input_format {
        Some(f) => f,
        None => given,
    };
    *input_format = Some(fixed);
    if fixed.sample_rate != sample_rate || fixed.channels != channels {
        return Err(AsrError::FormatChanged { from: fixed, to: given });
    }
    match pcm_i16_to_mono(pcm, channels) {
        Ok(mono) => Ok(WritePlan { mono, resample: sample_rate != TARGET_SAMPLE_RATE }),
        Err(e) => Err(AsrError::Pcm(e)),
    }
}

/// Follows voice activity from chunk to chunk.
#[derive(Debug, Clone, Copy, PartialEq, Eq, Structural)]
pub struct VadTracker {
    pub was_speaking: bool,
    pub speech_start_ts: Option<Timestamp>,
    /// The state for whoever asks.
    pub state: VadState,
}

/// How long speech has gone on, in milliseconds modulo the number of `u32` values.
pub open spec fn speech_ms(start: Option<Timestamp>, now: Timestamp) -> u32 {
    match start {
        Some(ts) => (now.spec_millis_since(ts) % 0x1_0000_0000) as u32,
        None => 0,
    }
}

/// How long speech has gone on, in milliseconds modulo the number of `u32` values.
fn speech_duration(start: Option<Timestamp>, now: Timestamp) -> (r: u32)
    ensures
        r == speech_ms(start, now),
{
    match start {
        Some(ts) => (now.millis_since(ts) % 0x1_0000_0000) as u32,
        None => 0,
    }
}

impl VadTracker {
    /// Silence, from `now` on.
    pub fn new(now: Timestamp) -> (r: Self)
        ensures
            r == Self::start(now),
    {
        VadTracker { was_speaking: false, speech_start_ts: None, state: VadState::new(now) }
    }

    /// Silence, from `now` on.
    pub open spec fn start(now: Timestamp) -> Self {
        VadTracker {
            was_speaking: false,
            speech_start_ts: None,
            state: VadState { speaking: false, last_change_ts: now, seq: 0 },
        }
    }

    /// The edge between the last chunk and one with or without speech.
    pub open spec fn edge(self, is_speaking: bool, now: Timestamp) -> Option<VadEvent> {
        if is_speaking && !self.was_speaking {
            Some(VadEvent::SpeechStart { ts: now })
        } else if self.was_speaking && !is_speaking {
            Some(
                VadEvent::SpeechEnd {
                    ts: now,
                    duration_ms: speech_ms(self.speech_start_ts, now),
                },
            )
        } else {
            None
        }
    }

    /// The tracker after a chunk with or without speech.
    pub open spec fn after(self, is_speaking: bool, now: Timestamp) -> Self {
        if is_speaking == self.was_speaking {
            self
        } else {
            VadTracker {
                was_speaking: is_speaking,
                speech_start_ts: if is_speaking {
                    Some(now)
                } else {
                    None
                },
                state: self.state.changed(is_speaking, now),
            }
        }
    }

    /// Takes in whether a chunk holds speech.
    pub fn on_chunk(&mut self, is_speaking: bool, now: Timestamp) -> (r: Option<VadEvent>)
        ensures
            r == old(self).edge(is_speaking, now),
            *final(self) == old(self).after(is_speaking, now),
    {
        if is_speaking && !self.was_speaking {
            self.speech_start_ts = Some(now);
            self.note_change(true, now);
            self.was_speaking = true;
            return Some(VadEvent::SpeechStart { ts: now });
        }
        if self.was_speaking && !is_speaking {
            let duration_ms: u32 = speech_duration(self.speech_start_ts, now);
            self.note_change(false, now);
            self.was_speaking = false;
            self.speech_start_ts = None;
            return Some(VadEvent::SpeechEnd { ts: now, duration_ms });
        }
        None
    }

    /// Notes a change in the state for whoever asks.
    fn note_change(&mut self, speaking: bool, now: Timestamp)
        ensures
            *final(self) == (VadTracker {
                state: old(self).state.changed(speaking, now),
                ..*old(self)
            }),
    {
        self.state.speaking = speaking;
        self.state.last_change_ts = now;
        self.state.seq = self.state.seq.saturating_add(1);
    }

    /// The audio has ended: speech that goes on ends with it.
    pub fn on_end(&mut self, now: Timestamp) -> (r: Option<VadEvent>)
        ensures
            r == old(self).edge(false, now),
            *final(self) == old(self).after(false, now),
    {
        self.on_chunk(false, now)
    }
}

/// The edges that chunks give, from silence at `start` on.
pub open spec fn edges_of(start: Timestamp, chunks: Seq<(bool, Timestamp)>) -> Seq<VadEvent>
    decreases chunks.len(),
{
    if chunks.len() == 0 {
        Seq::empty()
    } else {
        let before = edges_of(start, chunks.drop_last());
        match tracker_after(start, chunks.drop_last()).edge(chunks.last().0, chunks.last().1) {
            Some(event) => before.push(event),
            None => before,
        }
    }
}

/// The tracker after chunks, from silence at `start` on.
pub open spec fn tracker_after(start: Timestamp, chunks: Seq<(bool, Timestamp)>) -> VadTracker
    decreases chunks.len(),
{
    if chunks.len() == 0 {
        VadTracker::start(start)
    } else {
        tracker_after(start, chunks.drop_last()).after(chunks.last().0, chunks.last().1)
    }
}

/// Edges alternate, a start first; and the state tells after each chunk whether it held speech
/// and how many edges there were.
pub proof fn law_edges_alternate(start: Timestamp, chunks: Seq<(bool, Timestamp)>)
    requires
        chunks.len() <= u64::MAX,
    ensures
        ({
            let edges = edges_of(start, chunks);
            let end = tracker_after(start, chunks);
            &&& forall|i: int|
                0 <= i < edges.len() ==> ((#[trigger] edges[i]) is SpeechStart <==> i % 2 == 0)
            &&& end.was_speaking == (edges.len() % 2 == 1)
            &&& end.state.speaking == end.was_speaking
            &&& end.state.seq == edges.len()
            &&& edges.len() <= chunks.len()
            &&& chunks.len() > 0 ==> end.was_speaking == chunks.last().0
        }),
    decreases chunks.len(),
{
    if chunks.len() > 0 {
        law_edges_alternate(start, chunks.drop_last());
    }
}

/// Where a stretch of speech lies, in samples; none where it is empty.
pub fn segment_bounds(start: i32, len: usize) -> (r: Option<(usize, usize)>)
    ensures
        r == if len == 0 {
            None
        } else {
            let from = if start < 0 {
                0
            } else {
                start as int
            };
            Some(
                (
                    from as usize,
                    if from + len > usize::MAX {
                        usize::MAX
                    } else {
                        (from + len) as usize
                    },
                ),
            )
        },
{
    if len == 0 {
        return None;
    }
    let from: usize = if start < 0 {
        0
    } else {
        start as usize
    };
    Some((from, from.saturating_add(len)))
}

/// Numbers what is recognized.
#[derive(Debug, Clone, Copy, PartialEq, Eq, Structural)]
pub struct InferenceSequencer {
    pub idx: usize,
}

impl InferenceSequencer {
    /// Nothing recognized yet.
    pub fn new() -> (r: Self)
        ensures
            r.idx == 0,
    {
        InferenceSequencer { idx: 0 }
    }

    /// Takes in what was recognized in a stretch of speech; a blank text is no segment.
    pub fn on_text(&mut self, text: &str, start: usize, end: usize) -> (r: Option<AsrSegment>)
        ensures
            if trimmed(text@).len() == 0 {
                r is None && *final(self) == *old(self)
            } else {
                &&& final(self).idx == if old(self).idx == usize::MAX {
                    usize::MAX
                } else {
                    (old(self).idx + 1) as usize
                }
                &&& r matches Some(seg)
                &&& seg.text@ == trimmed(text@)
                &&& seg.finished
                &&& seg.idx == old(self).idx
                &&& seg.start == start
                &&& seg.end == end
                &&& seg.channel is None
            },
    {
        let text = trim(text);
        if text.as_str().is_empty() {
            return None;
        }
        let idx: usize = self.idx;
        self.idx = idx.saturating_add(1);
        Some(AsrSegment { text, finished: true, idx, start, end, channel: None })
    }
}

/// The event of one inference, which belongs to no turn.
pub fn inference_event(infer_ms: u64, now: Timestamp) -> (r: MetricEvent)
    ensures
        r == (MetricEvent {
            turn_id: 0,
            kind: MetricEventKind::AsrInference { infer_ms },
            ts: now,
        }),
{
    MetricEvent { turn_id: 0, kind: MetricEventKind::AsrInference { infer_ms }, ts: now }
}

/// Each model has its own directory below the models, under the name of its archive.
pub proof fn law_models_have_their_directories(
    r: Result<ModelPaths, AsrError>,
    disk: PathTable,
    root: Seq<char>,
    model: SherpaAsrModel,
    dtype: AsrModelDtype,
)
    requires
        model_resolved(r, disk, root, model, dtype),
    ensures
        model == SherpaAsrModel::ParaformerZhSmall ==> paraformer_resolved(
            r,
            disk,
            disk.joined(root, "sherpa-onnx-paraformer-zh-small-2024-03-09"@),
            dtype,
        ),
        model == SherpaAsrModel::ParaformerZh ==> paraformer_resolved(
            r,
            disk,
            disk.joined(root, "sherpa-onnx-paraformer-zh-2024-03-09"@),
            dtype,
        ),
        model == SherpaAsrModel::ParaformerZhInt8 ==> paraformer_resolved(
            r,
            disk,
            disk.joined(root, "sherpa-onnx-paraformer-zh-int8-2025-10-07"@),
            dtype,
        ),
        model == SherpaAsrModel::ParaformerTrilingual ==> paraformer_resolved(
            r,
            disk,
            disk.joined(root, "sherpa-onnx-paraformer-trilingual-zh-cantonese-en"@),
            dtype,
        ),
        model == SherpaAsrModel::ParaformerEn ==> ({
            let short = disk.joined(root, "sherpa-onnx-paraformer-en"@);
            let long = disk.joined(root, "sherpa-onnx-paraformer-en-2024-03-09"@);
            &&& disk.at(short) == PathKind::Directory ==> paraformer_resolved(r, disk, short, dtype)
            &&& disk.at(short) != PathKind::Directory && disk.at(long) == PathKind::Directory
                ==> paraformer_resolved(r, disk, long, dtype)
            &&& disk.at(short) != PathKind::Directory && disk.at(long) != PathKind::Directory
                ==> r is Err
        }),
        model == SherpaAsrModel::SenseVoice ==> sense_voice_resolved(
            r,
            disk,
            root,
            seq!["sherpa-onnx-sense-voice-zh-en-ja-ko-yue-2024-07-17"],
            false,
        ),
        model == SherpaAsrModel::SenseVoiceInt8 ==> sense_voice_resolved(
            r,
            disk,
            root,
            seq!["sherpa-onnx-sense-voice-zh-en-ja-ko-yue-2024-07-17"],
            true,
        ),
        model == SherpaAsrModel::SenseVoiceFunAsrNano ==> sense_voice_resolved(
            r,
            disk,
            root,
            seq![
                "sherpa-onnx-sense-voice-funasr-nano-2025-12-17",
                "sherpa-onnx-sense-voice-funasr-nano-int8-2025-12-17",
            ],
            false,
        ),
        model == SherpaAsrModel::SenseVoiceFunAsrNanoInt8 ==> sense_voice_resolved(
            r,
            disk,
            root,
            seq![
                "sherpa-onnx-sense-voice-funasr-nano-int8-2025-12-17",
                "sherpa-onnx-sense-voice-funasr-nano-2025-12-17",
            ],
            true,
        ),
{
    if model == SherpaAsrModel::ParaformerEn {
        let paths = below(disk, root, paraformer_en_dirs());
        law_first_of_kind(disk, paths, PathKind::Directory);
        assert(paths[0] == disk.joined(root, "sherpa-onnx-paraformer-en"@));
        assert(paths[1] == disk.joined(root, "sherpa-onnx-paraformer-en-2024-03-09"@));
    }
}

/// No two Paraformer models are looked for in the same directory.
pub proof fn law_paraformer_directories_differ(a: SherpaAsrModel, b: SherpaAsrModel)
    requires
        !is_sense_voice(a) && a != SherpaAsrModel::ParaformerEn,
        !is_sense_voice(b) && b != SherpaAsrModel::ParaformerEn,
        a != b,
    ensures
        paraformer_dir(a) != paraformer_dir(b),
{
    reveal_strlit("sherpa-onnx-paraformer-zh-small-2024-03-09");
    reveal_strlit("sherpa-onnx-paraformer-zh-2024-03-09");
    reveal_strlit("sherpa-onnx-paraformer-zh-int8-2025-10-07");
    reveal_strlit("sherpa-onnx-paraformer-trilingual-zh-cantonese-en");
    assert(paraformer_dir(SherpaAsrModel::ParaformerZhSmall).len() == 42);
    assert(paraformer_dir(SherpaAsrModel::ParaformerZh).len() == 36);
    assert(paraformer_dir(SherpaAsrModel::ParaformerZhInt8).len() == 41);
    assert(paraformer_dir(SherpaAsrModel::ParaformerTrilingual).len() == 49);
}

/// A Paraformer model is found exactly where its directory, its tokens and a file of the type
/// asked for are there; without a type asked for, the one of 8 bits is taken where both are.
pub proof fn law_paraformer_files(
    r: Result<ModelPaths, AsrError>,
    disk: PathTable,
    base: Seq<char>,
    dtype: AsrModelDtype,
)
    requires
        paraformer_resolved(r, disk, base, dtype),
    ensures
        ({
            let tokens = disk.joined(base, "tokens.txt"@);
            let int8 = disk.joined(base, "model.int8.onnx"@);
            let fp32 = disk.joined(base, "model.onnx"@);
            let usable = match dtype {
                AsrModelDtype::Auto => disk.has(int8) || disk.has(fp32),
                AsrModelDtype::Int8 => disk.has(int8),
                AsrModelDtype::Fp32 => disk.has(fp32),
            };
            &&& r is Ok <==> disk.has(base) && disk.has(tokens) && usable
            &&& r matches Ok(p) ==> {
                &&& p.tokens@ == tokens
                &&& disk.has(p.model@)
                &&& p.model@ == int8 || p.model@ == fp32
                &&& dtype == AsrModelDtype::Int8 ==> p.model@ == int8
                &&& dtype == AsrModelDtype::Fp32 ==> p.model@ == fp32
                &&& dtype == AsrModelDtype::Auto && disk.has(int8) ==> p.model@ == int8
            }
            &&& !disk.has(base) ==> (r matches Err(AsrError::DirMissing { path }) && path@ == base)
            &&& disk.has(base) && !disk.has(tokens) ==> (r matches Err(
                AsrError::TokensMissing { path },
            ) && path@ == tokens)
        }),
{
}

/// A SenseVoice model is found exactly where the first of its directories that is there holds its
/// tokens and a model file; of two files the one of 8 bits is taken exactly where that is
/// preferred.
pub proof fn law_sense_voice_files(
    r: Result<ModelPaths, AsrError>,
    disk: PathTable,
    root: Seq<char>,
    dirs: Seq<&'static str>,
    prefer_int8: bool,
    k: int,
)
    requires
        sense_voice_resolved(r, disk, root, dirs, prefer_int8),
        0 <= k < dirs.len(),
        disk.at(disk.joined(root, dirs[k]@)) == PathKind::Directory,
        forall|i: int|
            0 <= i < k ==> disk.at(disk.joined(root, (#[trigger] dirs[i])@))
                != PathKind::Directory,
    ensures
        ({
            let base = disk.joined(root, dirs[k]@);
            let tokens = disk.joined(base, "tokens.txt"@);
            let int8 = disk.joined(base, "model.int8.onnx"@);
            let fp32 = disk.joined(base, "model.onnx"@);
            let is_file = |path: Seq<char>| disk.at(path) == PathKind::File;
            &&& r is Ok <==> is_file(tokens) && (is_file(int8) || is_file(fp32))
            &&& r matches Ok(p) ==> {
                &&& p.tokens@ == tokens
                &&& is_file(int8) && (prefer_int8 || !is_file(fp32)) ==> p.model@ == int8
                &&& is_file(fp32) && (!prefer_int8 || !is_file(int8)) ==> p.model@ == fp32
            }
        }),
{
    let paths = below(disk, root, dirs);
    law_first_of_kind(disk, paths, PathKind::Directory);
    let base = disk.joined(root, dirs[k]@);
    assert(paths[k] == base);
    let found = first_of_kind(disk, paths, PathKind::Directory);
    assert(found == Some(base)) by {
        assert forall|i: int| 0 <= i < k implies disk.at(#[trigger] paths[i])
            != PathKind::Directory by {
            assert(paths[i] == disk.joined(root, dirs[i]@));
        }
    }
    let token_paths = below(disk, base, seq!["tokens.txt"]);
    law_first_of_kind(disk, token_paths, PathKind::File);
    assert(token_paths[0] == disk.joined(base, "tokens.txt"@));
    let files = below(disk, base, sense_voice_files(prefer_int8));
    law_first_of_kind(disk, files, PathKind::File);
    if prefer_int8 {
        assert(files[0] == disk.joined(base, "model.int8.onnx"@));
        assert(files[1] == disk.joined(base, "model.onnx"@));
    } else {
        assert(files[0] == disk.joined(base, "model.onnx"@));
        assert(files[1] == disk.joined(base, "model.int8.onnx"@));
    }
}

/// Without a directory of its own, a SenseVoice model is not found.
pub proof fn law_sense_voice_needs_a_directory(
    r: Result<ModelPaths, AsrError>,
    disk: PathTable,
    root: Seq<char>,
    dirs: Seq<&'static str>,
    prefer_int8: bool,
)
    requires
        sense_voice_resolved(r, disk, root, dirs, prefer_int8),
        forall|i: int|
            0 <= i < dirs.len() ==> disk.at(disk.joined(root, (#[trigger] dirs[i])@))
                != PathKind::Directory,
    ensures
        r is Err,
{
    let paths = below(disk, root, dirs);
    law_first_of_kind(disk, paths, PathKind::Directory);
    assert forall|i: int| 0 <= i < paths.len() implies disk.at(#[trigger] paths[i])
        != PathKind::Directory by {
        assert(paths[i] == disk.joined(root, dirs[i]@));
    }
}

/// Speech that starts at one time and stops at another is one start and one end, which tells how
/// long it was; what lies between is no edge.
pub proof fn law_speech_is_measured(
    tracker: VadTracker,
    start: Timestamp,
    between: Timestamp,
    end: Timestamp,
)
    requires
        !tracker.was_speaking,
        start.nanos <= end.nanos,
        (end.nanos - start.nanos) / 1_000_000 <= u32::MAX,
    ensures
        ({
            let speaking = tracker.after(true, start);
            &&& tracker.edge(true, start) == Some(VadEvent::SpeechStart { ts: start })
            &&& tracker.edge(false, start) is None
            &&& tracker.after(false, start) == tracker
            &&& speaking.edge(true, between) is None
            &&& speaking.after(true, between) == speaking
            &&& speaking.edge(false, end) == Some(
                VadEvent::SpeechEnd {
                    ts: end,
                    duration_ms: ((end.nanos - start.nanos) / 1_000_000) as u32,
                },
            )
            &&& !speaking.after(false, end).was_speaking
            &&& speaking.state.speaking
            &&& !speaking.after(false, end).state.speaking
            &&& speaking.state.last_change_ts == start
            &&& speaking.after(false, end).state.last_change_ts == end
        }),
{
}

/// The words of the number types.
pub proof fn law_dtypes_by_word(key: Seq<char>)
    ensures
        AsrModelDtype::of_key(key) == Some(AsrModelDtype::Auto) <==> key == "auto"@,
        AsrModelDtype::of_key(key) == Some(AsrModelDtype::Int8) <==> key == "int8"@ || key == "i8"@,
        AsrModelDtype::of_key(key) == Some(AsrModelDtype::Fp32) <==> key == "fp32"@ || key == "f32"@
            || key == "float"@,
{
    reveal_strlit("auto");
    reveal_strlit("int8");
    reveal_strlit("i8");
    reveal_strlit("fp32");
    reveal_strlit("f32");
    reveal_strlit("float");
    assert("auto"@[0] == 'a' && "int8"@[0] == 'i' && "fp32"@[0] == 'f');
    assert("i8"@.len() == 2 && "f32"@.len() == 3 && "float"@.len() == 5 && "fp32"@.len() == 4
        && "auto"@.len() == 4 && "int8"@.len() == 4);
}

/// A prefix tells the characters at its places.
proof fn lemma_prefix_at(prefix: Seq<char>, key: Seq<char>, i: int)
    requires
        prefix.is_prefix_of(key),
        0 <= i < prefix.len(),
    ensures
        key[i] == prefix[i],
{
    assert(key.subrange(0, prefix.len() as int)[i] == key[i]);
}

/// Whether a name is that of a family of smaller SenseVoice models.
pub open spec fn names_nano(key: Seq<char>) -> bool {
    "sense-voice-funasr-nano"@.is_prefix_of(key) || "sensevoice-funasr-nano"@.is_prefix_of(key)
        || "funasr-nano"@.is_prefix_of(key)
}

/// Such a name starts with one of two letters, and holds another behind its first part.
proof fn lemma_names_nano(key: Seq<char>)
    requires
        names_nano(key) || "sense-voice-funasr-nano-int8"@.is_prefix_of(key)
            || "sensevoice-funasr-nano-int8"@.is_prefix_of(key)
            || "funasr-nano-int8"@.is_prefix_of(key),
    ensures
        key.len() >= 11,
        key[0] == 'f' || (key[0] == 's' && key[5] == '-' && key.len() >= 23 && key[12] == 'f') || (
        key[0] == 's' && key[5] == 'v' && key.len() >= 22 && key[11] == 'f'),
{
    reveal_strlit("sense-voice-funasr-nano-int8");
    reveal_strlit("sensevoice-funasr-nano-int8");
    reveal_strlit("funasr-nano-int8");
    reveal_strlit("sense-voice-funasr-nano");
    reveal_strlit("sensevoice-funasr-nano");
    reveal_strlit("funasr-nano");
    if "sense-voice-funasr-nano"@.is_prefix_of(key) {
        lemma_prefix_at("sense-voice-funasr-nano"@, key, 0);
        lemma_prefix_at("sense-voice-funasr-nano"@, key, 5);
        lemma_prefix_at("sense-voice-funasr-nano"@, key, 12);
    } else if "sensevoice-funasr-nano"@.is_prefix_of(key) {
        lemma_prefix_at("sensevoice-funasr-nano"@, key, 0);
        lemma_prefix_at("sensevoice-funasr-nano"@, key, 5);
        lemma_prefix_at("sensevoice-funasr-nano"@, key, 11);
    } else if "funasr-nano"@.is_prefix_of(key) {
        lemma_prefix_at("funasr-nano"@, key, 0);
    } else if "sense-voice-funasr-nano-int8"@.is_prefix_of(key) {
        lemma_prefix_at("sense-voice-funasr-nano-int8"@, key, 0);
        lemma_prefix_at("sense-voice-funasr-nano-int8"@, key, 5);
        lemma_prefix_at("sense-voice-funasr-nano-int8"@, key, 12);
    } else if "sensevoice-funasr-nano-int8"@.is_prefix_of(key) {
        lemma_prefix_at("sensevoice-funasr-nano-int8"@, key, 0);
        lemma_prefix_at("sensevoice-funasr-nano-int8"@, key, 5);
        lemma_prefix_at("sensevoice-funasr-nano-int8"@, key, 11);
    } else {
        lemma_prefix_at("funasr-nano-int8"@, key, 0);
    }
}

/// Each Paraformer model is found by the name of its archive, without the prefix that all have,
/// and by a shorter one, and by no other name.
pub proof fn law_paraformer_models_by_name(key: Seq<char>)
    ensures
        SherpaAsrModel::of_key(key) == Some(SherpaAsrModel::ParaformerZhSmall) <==> key
            == "paraformer-zh-small"@ || key == "paraformer-zh-small-2024-03-09"@,
        SherpaAsrModel::of_key(key) == Some(SherpaAsrModel::ParaformerZh) <==> key
            == "paraformer-zh"@ || key == "paraformer-zh-2024-03-09"@,
        SherpaAsrModel::of_key(key) == Some(SherpaAsrModel::ParaformerZhInt8) <==> key
            == "paraformer-zh-int8"@ || key == "paraformer-zh-int8-2025-10-07"@,
        SherpaAsrModel::of_key(key) == Some(SherpaAsrModel::ParaformerTrilingual) <==> key
            == "paraformer-trilingual"@ || key == "paraformer-trilingual-zh-cantonese-en"@,
        SherpaAsrModel::of_key(key) == Some(SherpaAsrModel::ParaformerEn) <==> key
            == "paraformer-en"@ || key == "paraformer-en-2024-03-09"@,
{
    reveal_strlit("paraformer-zh-small");
    reveal_strlit("paraformer-zh-small-2024-03-09");
    reveal_strlit("paraformer-zh");
    reveal_strlit("paraformer-zh-2024-03-09");
    reveal_strlit("paraformer-zh-int8");
    reveal_strlit("paraformer-zh-int8-2025-10-07");
    reveal_strlit("paraformer-trilingual");
    reveal_strlit("paraformer-trilingual-zh-cantonese-en");
    reveal_strlit("paraformer-en");
    reveal_strlit("paraformer-en-2024-03-09");
    if key.len() > 0 && key[0] == 'p' {
        if names_nano(key) || "sense-voice-funasr-nano-int8"@.is_prefix_of(key)
            || "sensevoice-funasr-nano-int8"@.is_prefix_of(key)
            || "funasr-nano-int8"@.is_prefix_of(key) {
            lemma_names_nano(key);
        }
    }
    assert("paraformer-zh-small"@.len() == 19);
    assert("paraformer-zh-small-2024-03-09"@.len() == 30);
    assert("paraformer-zh"@.len() == 13 && "paraformer-zh"@[11] == 'z');
    assert("paraformer-zh-2024-03-09"@.len() == 24 && "paraformer-zh-2024-03-09"@[11] == 'z');
    assert("paraformer-zh-int8"@.len() == 18);
    assert("paraformer-zh-int8-2025-10-07"@.len() == 29);
    assert("paraformer-trilingual"@.len() == 21);
    assert("paraformer-trilingual-zh-cantonese-en"@.len() == 37);
    assert("paraformer-en"@.len() == 13 && "paraformer-en"@[11] == 'e');
    assert("paraformer-en-2024-03-09"@.len() == 24 && "paraformer-en-2024-03-09"@[11] == 'e');
    assert("paraformer-zh-small"@[0] == 'p' && "paraformer-zh-small-2024-03-09"@[0] == 'p'
        && "paraformer-zh"@[0] == 'p' && "paraformer-zh-2024-03-09"@[0] == 'p'
        && "paraformer-zh-int8"@[0] == 'p' && "paraformer-zh-int8-2025-10-07"@[0] == 'p'
        && "paraformer-trilingual"@[0] == 'p' && "paraformer-trilingual-zh-cantonese-en"@[0] == 'p'
        && "paraformer-en"@[0] == 'p' && "paraformer-en-2024-03-09"@[0] == 'p');
}

/// The SenseVoice model of 8 bits is found by its two names alone; the other by its names and by
/// any longer one that starts with them, unless that names a smaller model.
pub proof fn law_sense_voice_models_by_name(key: Seq<char>)
    ensures
        SherpaAsrModel::of_key(key) == Some(SherpaAsrModel::SenseVoiceInt8) <==> key
            == "sensevoice-int8"@ || key == "sense-voice-int8"@,
        SherpaAsrModel::of_key(key) == Some(SherpaAsrModel::SenseVoice) <==> (key == "sensevoice"@
            || key == "sense-voice"@ || "sense-voice-"@.is_prefix_of(key)
            || "sensevoice-"@.is_prefix_of(key)) && key != "sensevoice-int8"@ && key
            != "sense-voice-int8"@ && !names_nano(key),
{
    reveal_strlit("paraformer-zh-small");
    reveal_strlit("paraformer-zh-small-2024-03-09");
    reveal_strlit("paraformer-zh");
    reveal_strlit("paraformer-zh-2024-03-09");
    reveal_strlit("paraformer-zh-int8");
    reveal_strlit("paraformer-zh-int8-2025-10-07");
    reveal_strlit("paraformer-trilingual");
    reveal_strlit("paraformer-trilingual-zh-cantonese-en");
    reveal_strlit("paraformer-en");
    reveal_strlit("paraformer-en-2024-03-09");
    reveal_strlit("sensevoice");
    reveal_strlit("sense-voice");
    reveal_strlit("sensevoice-int8");
    reveal_strlit("sense-voice-int8");
    reveal_strlit("sense-voice-");
    reveal_strlit("sensevoice-");
    assert("paraformer-zh-small"@[0] == 'p' && "paraformer-zh-small-2024-03-09"@[0] == 'p'
        && "paraformer-zh"@[0] == 'p' && "paraformer-zh-2024-03-09"@[0] == 'p'
        && "paraformer-zh-int8"@[0] == 'p' && "paraformer-zh-int8-2025-10-07"@[0] == 'p'
        && "paraformer-trilingual"@[0] == 'p' && "paraformer-trilingual-zh-cantonese-en"@[0] == 'p'
        && "paraformer-en"@[0] == 'p' && "paraformer-en-2024-03-09"@[0] == 'p');
    assert("sensevoice"@.len() == 10 && "sensevoice"@[0] == 's');
    assert("sense-voice"@.len() == 11 && "sense-voice"@[0] == 's');
    assert("sensevoice-int8"@.len() == 15 && "sensevoice-int8"@[0] == 's');
    assert("sense-voice-int8"@.len() == 16 && "sense-voice-int8"@[0] == 's');
    if "sense-voice-"@.is_prefix_of(key) {
        lemma_prefix_at("sense-voice-"@, key, 0);
    }
    if "sensevoice-"@.is_prefix_of(key) {
        lemma_prefix_at("sensevoice-"@, key, 0);
    }
    let nano8 = "sense-voice-funasr-nano-int8"@.is_prefix_of(key)
        || "sensevoice-funasr-nano-int8"@.is_prefix_of(key)
        || "funasr-nano-int8"@.is_prefix_of(key);
    if names_nano(key) || nano8 {
        lemma_names_nano(key);
    }
    if nano8 {
        reveal_strlit("sense-voice-funasr-nano-int8");
        reveal_strlit("sensevoice-funasr-nano-int8");
        reveal_strlit("funasr-nano-int8");
        reveal_strlit("sense-voice-funasr-nano");
        reveal_strlit("sensevoice-funasr-nano");
        reveal_strlit("funasr-nano");
        if "sense-voice-funasr-nano-int8"@.is_prefix_of(key) {
            assert("sense-voice-funasr-nano"@ =~= key.subrange(0, 23)) by {
                assert forall|i: int| 0 <= i < 23 implies key[i]
                    == "sense-voice-funasr-nano"@[i] by {
                    lemma_prefix_at("sense-voice-funasr-nano-int8"@, key, i);
                }
            }
        } else if "sensevoice-funasr-nano-int8"@.is_prefix_of(key) {
            assert("sensevoice-funasr-nano"@ =~= key.subrange(0, 22)) by {
                assert forall|i: int| 0 <= i < 22 implies key[i]
                    == "sensevoice-funasr-nano"@[i] by {
                    lemma_prefix_at("sensevoice-funasr-nano-int8"@, key, i);
                }
            }
        } else {
            assert("funasr-nano"@ =~= key.subrange(0, 11)) by {
                assert forall|i: int| 0 <= i < 11 implies key[i] == "funasr-nano"@[i] by {
                    lemma_prefix_at("funasr-nano-int8"@, key, i);
                }
            }
        }
        assert(names_nano(key));
    }
}

/// A name that starts with a family of SenseVoice models means that family; the one of 8 bits
/// counts first.
pub proof fn law_models_by_family(rest: Seq<char>)
    ensures
        SherpaAsrModel::of_key("sense-voice-funasr-nano-int8"@ + rest) == Some(
            SherpaAsrModel::SenseVoiceFunAsrNanoInt8,
        ),
        SherpaAsrModel::of_key("sensevoice-funasr-nano-int8"@ + rest) == Some(
            SherpaAsrModel::SenseVoiceFunAsrNanoInt8,
        ),
        SherpaAsrModel::of_key("funasr-nano-int8"@ + rest) == Some(
            SherpaAsrModel::SenseVoiceFunAsrNanoInt8,
        ),
        !("-int8"@.is_prefix_of(rest)) ==> SherpaAsrModel::of_key(
            "sense-voice-funasr-nano"@ + rest,
        ) == Some(SherpaAsrModel::SenseVoiceFunAsrNano),
        !("-int8"@.is_prefix_of(rest)) ==> SherpaAsrModel::of_key("funasr-nano"@ + rest) == Some(
            SherpaAsrModel::SenseVoiceFunAsrNano,
        ),
{
    reveal_strlit("sense-voice-funasr-nano-int8");
    reveal_strlit("sensevoice-funasr-nano-int8");
    reveal_strlit("funasr-nano-int8");
    reveal_strlit("sense-voice-funasr-nano");
    reveal_strlit("sensevoice-funasr-nano");
    reveal_strlit("funasr-nano");
    reveal_strlit("-int8");
    assert("sense-voice-funasr-nano-int8"@.is_prefix_of("sense-voice-funasr-nano-int8"@ + rest));
    assert("sensevoice-funasr-nano-int8"@.is_prefix_of("sensevoice-funasr-nano-int8"@ + rest));
    assert("funasr-nano-int8"@.is_prefix_of("funasr-nano-int8"@ + rest));
    let a = "sense-voice-funasr-nano"@ + rest;
    let b = "funasr-nano"@ + rest;
    assert("sense-voice-funasr-nano"@.is_prefix_of(a));
    assert("funasr-nano"@.is_prefix_of(b));
    assert(a[0] == 's' && a[5] == '-' && b[0] == 'f');
    if "sense-voice-funasr-nano-int8"@.is_prefix_of(a) {
        assert(a.len() >= 28);
        assert(a.take(28) =~= "sense-voice-funasr-nano-int8"@);
        assert forall|i: int| 0 <= i < 5 implies rest[i] == "-int8"@[i] by {
            assert(a[23 + i] == a.take(28)[23 + i]);
        }
        assert("-int8"@.is_prefix_of(rest));
    }
    if "funasr-nano-int8"@.is_prefix_of(b) {
        assert(b.len() >= 16);
        assert(b.take(16) =~= "funasr-nano-int8"@);
        assert forall|i: int| 0 <= i < 5 implies rest[i] == "-int8"@[i] by {
            assert(b[11 + i] == b.take(16)[11 + i]);
        }
        assert("-int8"@.is_prefix_of(rest));
    }
}

/// The small Chinese model is recognized with where none is set.
pub proof fn law_default_model(vars: Map<Seq<char>, Seq<char>>)
    ensures
        env::text_var(vars, "ASR_MODEL"@) is None ==> env_model(vars) == Some(
            SherpaAsrModel::ParaformerZhSmall,
        ),
        env::text_var(vars, "ASR_MODEL"@) matches Some(name) ==> env_model(vars)
            == SherpaAsrModel::of_key(model_key(lowercased(trimmed(name)))),
        env::text_var(vars, "ASR_MODEL_DTYPE"@) is None ==> env_dtype_key(vars) == "auto"@,
{
}

/// Models are looked for in the directory that is set, else in the one for recognition below the
/// models of all kinds, else in a directory of this name that is there, else in `models`; the
/// voice activity model in its own directory, else among them.
pub proof fn law_where_models_are_looked_for(host: Host)
    ensures
        ({
            let set = env::text_var(host.vars@, "ASR_MODELS_ROOT"@);
            let kept = models::category_or_root(host, "ASR"@);
            let kept_vad = models::category_or_root(host, "VAD"@);
            &&& set is Some ==> asr_root(host) == set->0
            &&& set is None && kept is Some ==> asr_root(host) == kept->0
            &&& set is None && kept is None && host.disk.has("asrmodel"@) ==> asr_root(host)
                == "asrmodel"@
            &&& set is None && kept is None && !host.disk.has("asrmodel"@) ==> asr_root(host)
                == "models"@
            &&& kept_vad is Some ==> vad_root(host) == kept_vad->0
            &&& kept_vad is None ==> vad_root(host) == asr_root(host)
        }),
{
}

/// The voice activity model is the one that is set, else `silero_vad.onnx` in a directory of its
/// own where it is there, else directly below the models.
pub proof fn law_where_the_vad_model_is(host: Host, root: Seq<char>)
    ensures
        ({
            let set = env::text_var(host.vars@, "ASR_VAD_PATH"@);
            let inner = host.disk.joined(
                host.disk.joined(root, "silero_vad"@),
                "silero_vad.onnx"@,
            );
            &&& set is Some ==> vad_model(host, root) == set->0
            &&& set is None && host.disk.has(inner) ==> vad_model(host, root) == inner
            &&& set is None && !host.disk.has(inner) ==> vad_model(host, root) == host.disk.joined(
                root,
                "silero_vad.onnx"@,
            )
        }),
{
}

/// The settings of recognition that the environment does not set, and those that it sets, where
/// they lie in their ranges.
pub proof fn law_recognition_settings_of_the_environment(c: SherpaAsrConfig, host: Host, n: nat)
    requires
        c.is_env_config(host),
    ensures
        ({
            let text = |key: Seq<char>| env::text_var(host.vars@, key);
            let signed = |key: Seq<char>|
                env::signed_var(host.vars@, key, i32::MIN as int, i32::MAX as int);
            let queue = env::unsigned_var(host.vars@, "ASR_SEGMENT_QUEUE"@, usize::MAX as nat);
            let chunk = env::unsigned_var(host.vars@, "ASR_VAD_CHUNK_MS"@, u64::MAX as nat);
            &&& text("ASR_LANG"@) is None ==> c.lang@ == "zh"@
            &&& text("ASR_LANG"@) matches Some(lang) ==> c.lang@ == lang
            &&& text("ASR_PROVIDER"@) is None ==> c.provider@ == "cpu"@
            &&& text("ASR_PROVIDER"@) matches Some(provider) ==> c.provider@ == provider
            &&& 1 <= c.threads <= 32
            &&& signed("ASR_THREADS"@) is None ==> c.threads == 2
            &&& signed("ASR_THREADS"@) == Some(n as int) && 1 <= n <= 32 ==> c.threads == n
            &&& c.infer_log == env::switch_setting(host.vars@, "ASR_INFER_LOG"@, false)
            &&& 1 <= c.segment_queue <= 128
            &&& queue is None ==> c.segment_queue == 8
            &&& queue == Some(n) && 1 <= n <= 128 ==> c.segment_queue == n
            &&& 5 <= c.vad_chunk_ms <= 2000
            &&& chunk is None ==> c.vad_chunk_ms == 20
            &&& chunk == Some(n) && 5 <= n <= 2000 ==> c.vad_chunk_ms == n
            &&& 128 <= c.vad.window_size <= 8192
            &&& signed("ASR_VAD_WINDOW"@) is None ==> c.vad.window_size == 512
            &&& signed("ASR_VAD_WINDOW"@) == Some(n as int) && 128 <= n <= 8192
                ==> c.vad.window_size == n
            &&& c.models_root@ == asr_root(host)
            &&& c.vad.model@ == vad_model(host, vad_root(host))
        }),
{
}

/// The model and the number type are those whose words are set; small Chinese and whatever is
/// there, where none is.
pub proof fn law_model_settings_of_the_environment(
    c: SherpaAsrConfig,
    host: Host,
    word: Seq<char>,
)
    requires
        c.is_env_config(host),
    ensures
        env::text_var(host.vars@, "ASR_MODEL"@) is None ==> c.model
            == SherpaAsrModel::ParaformerZhSmall,
        env::text_var(host.vars@, "ASR_MODEL"@) == Some(word) ==> SherpaAsrModel::of_key(
            model_key(lowercased(trimmed(word))),
        ) == Some(c.model),
        env::text_var(host.vars@, "ASR_MODEL_DTYPE"@) is None ==> c.model_dtype
            == AsrModelDtype::Auto,
        env::text_var(host.vars@, "ASR_MODEL_DTYPE"@) == Some(word) ==> AsrModelDtype::of_key(
            lowercased(trimmed(word)),
        ) == Some(c.model_dtype),
{
    law_dtypes_by_word("auto"@);
}

/// Where the English model has no directory, both that were tried are told.
pub proof fn law_english_model_is_missed(
    r: Result<ModelPaths, AsrError>,
    disk: PathTable,
    root: Seq<char>,
    dtype: AsrModelDtype,
)
    requires
        model_resolved(r, disk, root, SherpaAsrModel::ParaformerEn, dtype),
        disk.at(disk.joined(root, "sherpa-onnx-paraformer-en"@)) != PathKind::Directory,
        disk.at(disk.joined(root, "sherpa-onnx-paraformer-en-2024-03-09"@))
            != PathKind::Directory,
    ensures
        r matches Err(AsrError::NotFound(e)) && e.label@ == "ASR model dir"@ && e.tried@.len() == 2
            && e.tried@[0]@ == disk.joined(root, "sherpa-onnx-paraformer-en"@) && e.tried@[1]@
            == disk.joined(root, "sherpa-onnx-paraformer-en-2024-03-09"@),
{
    let dirs = paraformer_en_dirs();
    let paths = below(disk, root, dirs);
    law_first_of_kind(disk, paths, PathKind::Directory);
    assert(paths =~= seq![
        disk.joined(root, "sherpa-onnx-paraformer-en"@),
        disk.joined(root, "sherpa-onnx-paraformer-en-2024-03-09"@),
    ]);
    if let Err(AsrError::NotFound(e)) = r {
        let tried = crate::text::spelled(e.tried@);
        assert(tried == paths);
        assert(tried.len() == e.tried@.len());
        assert(tried[0] == e.tried@[0]@ && tried[1] == e.tried@[1]@);
    }
}

/// What is wrong with recognition is said in these words.
pub proof fn law_recognition_errors_in_words(text: String, int8: bool)
    ensures
        (AsrError::UnknownModel { key: text }).spec_message() == "Unknown ASR_MODEL: "@ + text@,
        (AsrError::UnknownDtype { value: text }).spec_message() == "Unknown ASR_MODEL_DTYPE: "@
            + text@ + " (expected auto|int8|fp32)"@,
        (AsrError::VadMissing { path: text }).spec_message() == "VAD model not found: "@ + text@
            + " (expected silero_vad.onnx under RCAT_MODELS_DIR/VAD or ASR_MODELS_ROOT, or set ASR_VAD_PATH)"@,
        (AsrError::DirMissing { path: text }).spec_message() == "ASR model dir not found: "@ + text@,
        (AsrError::TokensMissing { path: text }).spec_message() == "ASR tokens not found: "@ + text@,
        (AsrError::ModelMissing { path: text }).spec_message() == "ASR model file not found: "@
            + text@ + " (expected model.int8.onnx or model.onnx)"@,
        (AsrError::DtypeMissing { path: text, int8 }).spec_message()
            == "ASR model file not found: "@ + text@
            + " (set ASR_MODEL_DTYPE=auto or download "@ + (if int8 {
            "model.int8.onnx"@
        } else {
            "model.onnx"@
        }) + ")"@,
{
}

/// Neither the directory before a model's name nor the prefix of the archives tells the model, and
/// underscores are as good as hyphens.
pub proof fn law_what_tells_the_model(dir: Seq<char>, name: Seq<char>, i: int)
    requires
        !name.contains('/'),
        !name.contains('\\'),
    ensures
        model_key(dir + seq!['/'] + name) == model_key(name),
        model_key(name).len() <= name.len(),
        !"sherpa-onnx-"@.is_prefix_of(name) ==> model_key(name).len() == name.len(),
        !"sherpa-onnx-"@.is_prefix_of(name) && 0 <= i < name.len() ==> model_key(name)[i] == if name[i]
            == '_' {
            '-'
        } else {
            name[i]
        },
        !"sherpa-onnx-"@.is_prefix_of(name) ==> model_key("sherpa-onnx-"@ + name) == model_key(name),
{
    let prefix = "sherpa-onnx-"@;
    reveal_strlit("sherpa-onnx-");
    lemma_whole_behind(name, '/');
    lemma_whole_behind(name, '\\');
    lemma_behind_one(dir, name, '/');
    let long = prefix + name;
    assert(!long.contains('/') && !long.contains('\\')) by {
        assert forall|k: int| 0 <= k < long.len() implies long[k] != '/' && long[k] != '\\' by {
            if k >= prefix.len() {
                assert(name.contains(name[k - prefix.len()]));
            }
        }
    }
    lemma_whole_behind(long, '/');
    lemma_whole_behind(long, '\\');
    crate::text::law_prefix_is_taken_off(prefix, name, name);
}

/// A text without a character follows the last of it as a whole.
proof fn lemma_whole_behind(s: Seq<char>, c: char)
    requires
        !s.contains(c),
    ensures
        after_last(s, c) == s,
{
    crate::text::law_after_the_last(s, c);
    let tail = after_last(s, c);
    if tail.len() < s.len() {
        assert(s.contains(s[s.len() - tail.len() - 1]));
    }
    assert(s.skip(0) =~= s);
}

/// What holds no such character behind one is what follows the last of them.
proof fn lemma_behind_one(before: Seq<char>, s: Seq<char>, c: char)
    requires
        !s.contains(c),
    ensures
        after_last(before + seq![c] + s, c) == s,
{
    let all = before + seq![c] + s;
    crate::text::law_after_the_last(all, c);
    let tail = after_last(all, c);
    if tail.len() < s.len() {
        let at = all.len() - tail.len() - 1;
        assert(all[at] == s[at - before.len() - 1]);
        assert(s.contains(s[at - before.len() - 1]));
    }
    if tail.len() > s.len() {
        let at = before.len() as int;
        let k = at - (all.len() - tail.len());
        assert(tail[k] == all[at]);
        assert(tail.contains(tail[k]));
    }
    assert(all.skip(all.len() - s.len()) =~= s);
}

/// The files of a Paraformer model are looked for in the directory of its own archive.
pub proof fn law_where_the_files_of_a_model_are(
    config: &SherpaAsrConfig,
    disk: &PathTable,
    r: Result<ModelPaths, AsrError>,
)
    requires
        call_ensures(SherpaAsrConfig::resolve_model_paths, (config, disk), r),
        !is_sense_voice(config.model),
        config.model != SherpaAsrModel::ParaformerEn,
    ensures
        ({
            let dir = disk.joined(
                config.models_root@,
                match config.model {
                    SherpaAsrModel::ParaformerZhSmall =>
                        "sherpa-onnx-paraformer-zh-small-2024-03-09"@,
                    SherpaAsrModel::ParaformerZh => "sherpa-onnx-paraformer-zh-2024-03-09"@,
                    SherpaAsrModel::ParaformerZhInt8 => "sherpa-onnx-paraformer-zh-int8-2025-10-07"@,
                    _ => "sherpa-onnx-paraformer-trilingual-zh-cantonese-en"@,
                },
            );
            &&& !disk.has(dir) ==> (r matches Err(AsrError::DirMissing { path }) && path@ == dir)
            &&& r matches Ok(p) ==> p.tokens@ == disk.joined(dir, "tokens.txt"@) && (p.model@
                == disk.joined(dir, "model.int8.onnx"@) || p.model@ == disk.joined(
                dir,
                "model.onnx"@,
            ))
            &&& disk.has(dir) && disk.has(disk.joined(dir, "tokens.txt"@)) && disk.has(
                disk.joined(dir, "model.int8.onnx"@),
            ) && disk.has(disk.joined(dir, "model.onnx"@)) ==> r is Ok
        }),
{
}

/// The first audio fixes the format of a stream, and no other format is taken after it.
pub proof fn law_format_of_a_stream()
    ensures
        forall|
            f: &mut Option<InputFormat>,
            pcm: &Vec<i16>,
            rate: u32,
            channels: u16,
            r: Result<WritePlan, AsrError>,
        |
            #[trigger] call_ensures(plan_write, (f, pcm, rate, channels), r) ==> {
                let given = InputFormat { sample_rate: rate, channels };
                &&& rate == 0 ==> (r matches Err(AsrError::NoSampleRate)) && *final(f) == *f
                &&& rate > 0 && *f is None ==> *final(f) == Some(given)
                &&& *f is Some ==> *final(f) == *f
                &&& r is Ok <==> rate > 0 && 1 <= channels <= 2 && (*f is None || *f == Some(given))
                &&& r matches Ok(plan) ==> (plan.resample <==> rate != 16_000)
            },
{
}

/// A stretch of speech lies behind its start by its length, and one that starts before the audio
/// starts with it; an empty one is none.
pub proof fn law_bounds_of_speech(start: i32, len: usize, r: Option<(usize, usize)>)
    requires
        call_ensures(segment_bounds, (start, len), r),
    ensures
        r is Some <==> len > 0,
        r matches Some(bounds) ==> (start >= 0 ==> bounds.0 == start) && (start < 0 ==> bounds.0
            == 0) && (bounds.0 + len <= usize::MAX ==> bounds.1 - bounds.0 == len),
{
}

/// How many samples 16 kHz give in so many milliseconds, and at least one.
pub proof fn law_samples_of_a_chunk(ms: u64, r: u64)
    requires
        call_ensures(vad_chunk_samples, (ms,), r),
        1 <= ms <= 1_000_000,
    ensures
        r == 16 * ms,
{
}

/// A text that is recognized is numbered and trimmed; a blank one is no segment, and takes no
/// number.
pub proof fn law_recognized_texts_are_numbered()
    ensures
        forall|q: &mut InferenceSequencer, text: &str, from: usize, to: usize, r: Option<AsrSegment>|
            #[trigger] call_ensures(InferenceSequencer::on_text, (q, text, from, to), r) ==> {
                &&& r is Some <==> trimmed(text@).len() > 0
                &&& r is None ==> (*final(q)).idx == (*q).idx
                &&& r matches Some(seg) ==> seg.text@ == trimmed(text@) && seg.idx == (*q).idx
                    && seg.start == from && seg.end == to && seg.finished
                &&& r is Some && (*q).idx < usize::MAX ==> (*final(q)).idx == (*q).idx + 1
            },
{
}

} // verus!
