//! The GPT-SoVITS engine on the ONNX runtime: its models and settings.

use super::gpt_sovits::clean_text;
use crate::internal::disk::{Host, MissingPath, PathKind, PathTable};
use crate::internal::env;
use crate::internal::model_locator::{
    below, below_all, file_located, first_existing_file_rel, first_of_kind, is_first,
    law_first_of_kind, optional_existing_file_rel, quoted, NotFound,
};
use crate::internal::models::opt_text;
use crate::number::{append_number, decimal};
use crate::text::{
    drop_leading, lowercase, same, spelled, trim, trimmed, lowercased,
};
use vstd::prelude::*;
use vstd::string::*;

verus! {

/// Where the models are looked for.
pub const DEFAULT_MODEL_DIR: &'static str = "onnx";

/// The name under which models are exported.
pub const DEFAULT_EXPORT_NAME: &'static str = "custom";

/// How many samples are played at once.
pub const DEFAULT_CHUNK_SAMPLES: usize = 2048;

/// How many candidates decoding chooses from.
pub const DEFAULT_TOP_K: usize = 4;

/// The language of a text.
#[derive(Debug, Clone, Copy, PartialEq, Eq, Structural)]
pub enum LangId {
    Auto,
    /// Chinese is read as Cantonese.
    AutoYue,
}

/// The language of a lower-case word.
pub open spec fn lang_of(key: Seq<char>) -> LangId {
    if key == "yue"@ || key == "cantonese"@ || key == "auto-yue"@ || key == "autoyue"@ {
        LangId::AutoYue
    } else {
        LangId::Auto
    }
}

/// The language of a lower-case word.
pub fn lang_from_key(key: &str) -> (r: LangId)
    ensures
        r == lang_of(key@),
{
    if same(key, "yue") || same(key, "cantonese") || same(key, "auto-yue") || same(
        key,
        "autoyue",
    ) {
        LangId::AutoYue
    } else {
        LangId::Auto
    }
}

/// The language of a word, whatever its case and the white space round it.
pub fn parse_lang_id(raw: &str) -> (r: LangId)
    ensures
        r == lang_of(lowercased(trimmed(raw@))),
{
    lang_from_key(lowercase(trim(raw).as_str()).as_str())
}

/// Why there is no engine.
#[derive(Debug)]
pub enum OnnxError {
    MissingPath(MissingPath),
    G2pEnIncomplete { path: String },
    DirMissing { path: String },
    NotFound(NotFound),
    ReadFailed { path: String },
    EmptyRefText,
    /// The model's audio is not what the output takes.
    OutputMismatch { sample_rate: u32, channels: u16, out_rate: u32, out_channels: u16 },
}

impl OnnxError {
    /// The error in words.
    pub open spec fn spec_message(&self) -> Seq<char> {
        match self {
            OnnxError::MissingPath(e) => e.key@ + " not found: "@ + e.path@,
            OnnxError::G2pEnIncomplete { path } =>
                "g2p_en dir missing encoder_model.onnx or decoder_model.onnx: "@ + path@,
            OnnxError::DirMissing { path } => "GPT-SoVITS ONNX model dir not found: "@ + path@,
            OnnxError::NotFound(e) => e.label@ + " not found (tried: "@ + quoted(spelled(e.tried@))
                + ")"@,
            OnnxError::ReadFailed { path } => "Failed to read reference text: "@ + path@,
            OnnxError::EmptyRefText => "Reference text is empty"@,
            OnnxError::OutputMismatch { sample_rate, channels, out_rate, out_channels } =>
                "gpt-sovits-onnx output "@ + decimal(*sample_rate as nat) + "Hz/"@ + decimal(
                *channels as nat,
            ) + "ch does not match audio backend "@ + decimal(*out_rate as nat) + "Hz/"@ + decimal(
                *out_channels as nat,
            ) + "ch"@,
        }
    }

    /// The error in words.
    pub fn message(&self) -> (r: String)
        ensures
            r@ == self.spec_message(),
    {
        let mut out = String::new();
        match self {
            OnnxError::MissingPath(e) => {
                out = e.message();
            },
            OnnxError::G2pEnIncomplete { path } => {
                out = "g2p_en dir missing encoder_model.onnx or decoder_model.onnx: ".to_string();
                out.append(path.as_str());
            },
            OnnxError::DirMissing { path } => {
                out = "GPT-SoVITS ONNX model dir not found: ".to_string();
                out.append(path.as_str());
            },
            OnnxError::NotFound(e) => {
                out = e.message();
            },
            OnnxError::ReadFailed { path } => {
                out = "Failed to read reference text: ".to_string();
                out.append(path.as_str());
            },
            OnnxError::EmptyRefText => {
                out = "Reference text is empty".to_string();
            },
            OnnxError::OutputMismatch { sample_rate, channels, out_rate, out_channels } => {
                out = "gpt-sovits-onnx output ".to_string();
                append_number(&mut out, *sample_rate as u64);
                out.append("Hz/");
                append_number(&mut out, *channels as u64);
                out.append("ch does not match audio backend ");
                append_number(&mut out, *out_rate as u64);
                out.append("Hz/");
                append_number(&mut out, *out_channels as u64);
                out.append("ch");
            },
        }
        out
    }
}

/// GPT-SoVITS ONNX backend configuration, but for the decoding temperature and penalties.
#[derive(Debug)]
pub struct GptSovitsOnnxConfig {
    pub model_dir: String,
    pub export_name: String,
    pub bert_path: Option<String>,
    pub g2pw_path: Option<String>,
    pub g2p_en_path: Option<String>,
    pub sv_path: Option<String>,
    pub ref_wav_path: Option<String>,
    pub ref_text: Option<String>,
    pub lang: LangId,
    /// How many candidates decoding chooses from; 0 for all.
    pub top_k: usize,
    /// How many samples are played at once.
    pub chunk_samples: usize,
}

/// Whether a directory holds both halves of the English pronunciation model.
pub open spec fn is_g2p_en_dir(disk: PathTable, dir: Seq<char>) -> bool {
    disk.has(disk.joined(dir, "encoder_model.onnx"@)) && disk.has(
        disk.joined(dir, "decoder_model.onnx"@),
    )
}

/// Whether a directory holds both halves of the English pronunciation model.
fn g2p_en_complete(disk: &PathTable, dir: &str) -> (r: bool)
    ensures
        r == is_g2p_en_dir(*disk, dir@),
{
    disk.holds(disk.join(dir, "encoder_model.onnx").as_str()) && disk.holds(
        disk.join(dir, "decoder_model.onnx").as_str(),
    )
}

/// The directory of the English pronunciation model below `base`, if there is one.
pub open spec fn detected_g2p_en(disk: PathTable, base: Seq<char>) -> Option<Seq<char>> {
    if is_g2p_en_dir(disk, disk.joined(base, "g2p_en"@)) {
        Some(disk.joined(base, "g2p_en"@))
    } else {
        None
    }
}

/// The directory of the English pronunciation model below `base`, if there is one.
pub fn detect_g2p_en_dir(disk: &PathTable, base_dir: &str) -> (r: Option<String>)
    ensures
        opt_text(r) == detected_g2p_en(*disk, base_dir@),
{
    let candidate = disk.join(base_dir, "g2p_en");
    if g2p_en_complete(disk, candidate.as_str()) {
        Some(candidate)
    } else {
        None
    }
}

/// Checks that a directory holds both halves of the English pronunciation model.
pub fn validate_g2p_en_dir(disk: &PathTable, path: &str) -> (r: Result<(), OnnxError>)
    ensures
        if is_g2p_en_dir(*disk, path@) {
            r == Ok::<(), OnnxError>(())
        } else {
            r matches Err(OnnxError::G2pEnIncomplete { path: p }) && p@ == path@
        },
{
    if g2p_en_complete(disk, path) {
        Ok(())
    } else {
        Err(OnnxError::G2pEnIncomplete { path: path.to_string() })
    }
}

/// Whether a variable names a path at which nothing stands.
pub open spec fn dangling(host: Host, key: Seq<char>) -> bool {
    match env::text_var(host.vars@, key) {
        Some(path) => !host.disk.has(path),
        None => false,
    }
}

/// Whether `r` is the error for a variable that names a path at which nothing stands.
pub open spec fn dangling_error<T>(r: Result<T, OnnxError>, host: Host, key: Seq<char>) -> bool {
    r matches Err(OnnxError::MissingPath(e)) && e.key@ == key && Some(e.path@) == env::text_var(
        host.vars@,
        key,
    )
}

impl GptSovitsOnnxConfig {
    /// The default configuration for a directory.
    pub fn from_dir(base_dir: &str) -> (r: Self)
        ensures
            r.model_dir@ == base_dir@,
            r.export_name@ == "custom"@,
            r.bert_path is None,
            r.g2pw_path is None,
            r.g2p_en_path is None,
            r.sv_path is None,
            r.ref_wav_path is None,
            r.ref_text is None,
            r.lang == LangId::Auto,
            r.top_k == 4,
            r.chunk_samples == 2048,
    {
        GptSovitsOnnxConfig {
            model_dir: base_dir.to_string(),
            export_name: DEFAULT_EXPORT_NAME.to_string(),
            bert_path: None,
            g2pw_path: None,
            g2p_en_path: None,
            sv_path: None,
            ref_wav_path: None,
            ref_text: None,
            lang: LangId::Auto,
            top_k: DEFAULT_TOP_K,
            chunk_samples: DEFAULT_CHUNK_SAMPLES,
        }
    }

    /// Whether `self` is what the environment sets.
    pub open spec fn is_env_config(self, vars: Map<Seq<char>, Seq<char>>) -> bool {
        &&& self.model_dir@ == env::text_setting(vars, "GSV_ONNX_MODEL_DIR"@, "onnx"@)
        &&& self.export_name@ == env::text_setting(vars, "GSV_ONNX_EXPORT_NAME"@, "custom"@)
        &&& opt_text(self.bert_path) == env::text_var(vars, "GSV_ONNX_BERT_PATH"@)
        &&& opt_text(self.g2pw_path) == env::text_var(vars, "GSV_ONNX_G2PW_PATH"@)
        &&& opt_text(self.g2p_en_path) == env::text_var(vars, "GSV_ONNX_G2P_EN_PATH"@)
        &&& opt_text(self.sv_path) == env::text_var(vars, "GSV_ONNX_SV_PATH"@)
        &&& opt_text(self.ref_wav_path) == env::text_var(vars, "GSV_ONNX_REF_WAV"@)
        &&& opt_text(self.ref_text) == env::text_var(vars, "GSV_ONNX_REF_TEXT"@)
        &&& self.lang == match env::text_var(vars, "GSV_ONNX_LANG"@) {
            Some(word) => lang_of(lowercased(trimmed(word))),
            None => LangId::Auto,
        }
        &&& self.top_k == match env::unsigned_var(vars, "GSV_ONNX_TOP_K"@, usize::MAX as nat) {
            Some(k) => k,
            None => 4,
        }
        &&& self.chunk_samples == env::unsigned_setting(
            vars,
            "GSV_ONNX_CHUNK_SAMPLES"@,
            usize::MAX as nat,
            2048,
            256,
            16384,
        )
    }

    /// Reads the configuration from the environment; a path that is set must exist, and that of
    /// the English pronunciation model must be complete.
    pub fn from_env(host: &Host) -> (r: Result<Self, OnnxError>)
        ensures
            ({
                let g2p_en = env::text_var(host.vars@, "GSV_ONNX_G2P_EN_PATH"@);
                if dangling(*host, "GSV_ONNX_BERT_PATH"@) {
                    dangling_error(r, *host, "GSV_ONNX_BERT_PATH"@)
                } else if dangling(*host, "GSV_ONNX_G2PW_PATH"@) {
                    dangling_error(r, *host, "GSV_ONNX_G2PW_PATH"@)
                } else if dangling(*host, "GSV_ONNX_G2P_EN_PATH"@) {
                    dangling_error(r, *host, "GSV_ONNX_G2P_EN_PATH"@)
                } else if g2p_en is Some && !is_g2p_en_dir(host.disk, g2p_en->0) {
                    r matches Err(OnnxError::G2pEnIncomplete { path }) && Some(path@) == g2p_en
                } else if dangling(*host, "GSV_ONNX_SV_PATH"@) {
                    dangling_error(r, *host, "GSV_ONNX_SV_PATH"@)
                } else if dangling(*host, "GSV_ONNX_REF_WAV"@) {
                    dangling_error(r, *host, "GSV_ONNX_REF_WAV"@)
                } else {
                    r matches Ok(c) && c.is_env_config(host.vars@)
                }
            }),
    {
        let vars = &host.vars;
        let model_dir = env::string_or(vars, "GSV_ONNX_MODEL_DIR", DEFAULT_MODEL_DIR);
        let export_name = env::string_or(vars, "GSV_ONNX_EXPORT_NAME", DEFAULT_EXPORT_NAME);
        let bert_path = match host.path_opt("GSV_ONNX_BERT_PATH") {
            Ok(path) => path,
            Err(e) => {
                return Err(OnnxError::MissingPath(e));
            },
        };
        let g2pw_path = match host.path_opt("GSV_ONNX_G2PW_PATH") {
            Ok(path) => path,
            Err(e) => {
                return Err(OnnxError::MissingPath(e));
            },
        };
        let g2p_en_path = match host.path_opt("GSV_ONNX_G2P_EN_PATH") {
            Ok(path) => path,
            Err(e) => {
                return Err(OnnxError::MissingPath(e));
            },
        };
        if let Some(path) = &g2p_en_path {
            if let Err(e) = validate_g2p_en_dir(&host.disk, path.as_str()) {
                return Err(e);
            }
        }
        let sv_path = match host.path_opt("GSV_ONNX_SV_PATH") {
            Ok(path) => path,
            Err(e) => {
                return Err(OnnxError::MissingPath(e));
            },
        };
        let ref_wav_path = match host.path_opt("GSV_ONNX_REF_WAV") {
            Ok(path) => path,
            Err(e) => {
                return Err(OnnxError::MissingPath(e));
            },
        };
        let ref_text = env::string(vars, "GSV_ONNX_REF_TEXT");
        let lang = match env::string(vars, "GSV_ONNX_LANG") {
            Some(word) => parse_lang_id(word.as_str()),
            None => LangId::Auto,
        };
        let top_k: usize = match env::get_usize(vars, "GSV_ONNX_TOP_K") {
            Some(k) => k,
            None => DEFAULT_TOP_K,
        };
        let chunk_samples: usize = env::usize_clamped(
            vars,
            "GSV_ONNX_CHUNK_SAMPLES",
            DEFAULT_CHUNK_SAMPLES,
            256,
            16384,
        );
        Ok(
            GptSovitsOnnxConfig {
                model_dir,
                export_name,
                bert_path,
                g2pw_path,
                g2p_en_path,
                sv_path,
                ref_wav_path,
                ref_text,
                lang,
                top_k,
                chunk_samples,
            },
        )
    }
}

/// A model file that the engine needs.
#[derive(Debug, Clone, Copy, PartialEq, Eq, Structural)]
pub enum OnnxFile {
    Sovits,
    Ssl,
    T2sEncoder,
    T2sFsDecoder,
    T2sSDecoder,
}

impl OnnxFile {
    /// What the file is called where it is missing.
    pub open spec fn label(self) -> Seq<char> {
        match self {
            OnnxFile::Sovits => "SoVITS model"@,
            OnnxFile::Ssl => "SSL model"@,
            OnnxFile::T2sEncoder => "T2S encoder model"@,
            OnnxFile::T2sFsDecoder => "T2S FS decoder model"@,
            OnnxFile::T2sSDecoder => "T2S S decoder model"@,
        }
    }

    /// The end of the file's name.
    pub open spec fn ending(self) -> Seq<char> {
        match self {
            OnnxFile::Sovits => "vits.onnx"@,
            OnnxFile::Ssl => "ssl.onnx"@,
            OnnxFile::T2sEncoder => "t2s_encoder.onnx"@,
            OnnxFile::T2sFsDecoder => "t2s_fs_decoder.onnx"@,
            OnnxFile::T2sSDecoder => "t2s_s_decoder.onnx"@,
        }
    }

    /// The names under which the file is looked for.
    pub open spec fn names(self, export_name: Seq<char>) -> Seq<Seq<char>> {
        if self == OnnxFile::Ssl {
            seq![self.ending(), export_name + "_"@ + self.ending()]
        } else {
            seq![
                export_name + "_"@ + self.ending(),
                "custom_"@ + self.ending(),
                self.ending(),
            ]
        }
    }

    /// Where the file stands.
    pub open spec fn path(self, disk: PathTable, base: Seq<char>, export_name: Seq<char>) -> Option<
        Seq<char>,
    > {
        first_of_kind(disk, below_all(disk, base, self.names(export_name)), PathKind::File)
    }

    /// Whether `e` is the error for this file.
    pub open spec fn missing(
        self,
        e: NotFound,
        disk: PathTable,
        base: Seq<char>,
        export_name: Seq<char>,
    ) -> bool {
        file_located(Err(e), disk, base, self.label(), self.names(export_name))
    }

    /// Finds the file.
    pub fn locate(self, disk: &PathTable, base: &str, export_name: &str) -> (r: Result<
        String,
        NotFound,
    >)
        ensures
            match self.path(*disk, base@, export_name@) {
                Some(path) => r matches Ok(p) && p@ == path,
                None => r matches Err(e) && self.missing(e, *disk, base@, export_name@),
            },
    {
        let (label, ending) = match self {
            OnnxFile::Sovits => ("SoVITS model", "vits.onnx"),
            OnnxFile::Ssl => ("SSL model", "ssl.onnx"),
            OnnxFile::T2sEncoder => ("T2S encoder model", "t2s_encoder.onnx"),
            OnnxFile::T2sFsDecoder => ("T2S FS decoder model", "t2s_fs_decoder.onnx"),
            OnnxFile::T2sSDecoder => ("T2S S decoder model", "t2s_s_decoder.onnx"),
        };
        let exported = export_name.to_string().concat("_").concat(ending);
        let mut names: Vec<String> = Vec::new();
        if self == OnnxFile::Ssl {
            names.push(ending.to_string());
            names.push(exported);
        } else {
            names.push(exported);
            names.push("custom_".to_string().concat(ending));
            names.push(ending.to_string());
        }
        proof {
            assert(spelled(names@) =~= self.names(export_name@));
        }
        first_existing_file_rel(disk, base, label, &names)
    }
}

/// The files and texts that the engine is loaded with.
#[derive(Debug)]
pub struct OnnxAssets {
    pub sovits: String,
    pub ssl: String,
    pub t2s_encoder: String,
    pub t2s_fs_decoder: String,
    pub t2s_s_decoder: String,
    /// Without it, zero embeddings are used.
    pub bert: Option<String>,
    /// Without it, simple pinyin is used.
    pub g2pw: Option<String>,
    /// Without it, ARPAbet is used.
    pub g2p_en: Option<String>,
    /// Without it, there is no speaker embedding.
    pub sv: Option<String>,
    pub ref_wav: String,
    pub ref_text: String,
}

/// The first model file that is missing, in the order in which they are looked for.
pub open spec fn first_missing(disk: PathTable, base: Seq<char>, name: Seq<char>) -> Option<
    OnnxFile,
> {
    if OnnxFile::Sovits.path(disk, base, name) is None {
        Some(OnnxFile::Sovits)
    } else if OnnxFile::Ssl.path(disk, base, name) is None {
        Some(OnnxFile::Ssl)
    } else if OnnxFile::T2sEncoder.path(disk, base, name) is None {
        Some(OnnxFile::T2sEncoder)
    } else if OnnxFile::T2sFsDecoder.path(disk, base, name) is None {
        Some(OnnxFile::T2sFsDecoder)
    } else if OnnxFile::T2sSDecoder.path(disk, base, name) is None {
        Some(OnnxFile::T2sSDecoder)
    } else {
        None
    }
}

/// The path that is set, else the first candidate below `base`.
pub open spec fn set_or_found(
    set: Option<String>,
    disk: PathTable,
    base: Seq<char>,
    candidates: Seq<&str>,
) -> Option<Seq<char>> {
    match set {
        Some(path) => Some(path@),
        None => first_of_kind(disk, below(disk, base, candidates), PathKind::File),
    }
}

/// The path that is set, else the first candidate below `base`.
fn set_or_find(
    set: &Option<String>,
    disk: &PathTable,
    base: &str,
    candidates: &Vec<&str>,
) -> (r: Option<String>)
    ensures
        opt_text(r) == set_or_found(*set, *disk, base@, candidates@),
{
    match set {
        Some(path) => Some(path.clone()),
        None => optional_existing_file_rel(disk, base, candidates),
    }
}

/// The names of the reference audio.
pub open spec fn ref_wav_names() -> Seq<Seq<char>> {
    seq!["ref.wav"@, "ref_16k.wav"@, "ref16k.wav"@]
}

impl GptSovitsOnnxConfig {
    /// The directory of the English pronunciation model: the one that is set, else the one found.
    pub open spec fn g2p_en_dir(self, disk: PathTable) -> Option<Seq<char>> {
        match self.g2p_en_path {
            Some(path) => Some(path@),
            None => detected_g2p_en(disk, self.model_dir@),
        }
    }

    /// The reference audio: the one that is set, else the one found.
    pub open spec fn ref_wav(self, disk: PathTable) -> Option<Seq<char>> {
        match self.ref_wav_path {
            Some(path) => Some(path@),
            None => first_of_kind(
                disk,
                below_all(disk, self.model_dir@, ref_wav_names()),
                PathKind::File,
            ),
        }
    }

    /// The reference text as it stands: the one that is set, else that of the file.
    pub open spec fn raw_ref_text(self, disk: PathTable) -> Option<Seq<char>> {
        match self.ref_text {
            Some(text) => Some(text@),
            None => disk.text(disk.joined(self.model_dir@, "ref.txt"@)),
        }
    }

    /// Whether `assets` is what the configuration resolves to.
    pub open spec fn resolves_to(self, assets: OnnxAssets, disk: PathTable) -> bool {
        let base = self.model_dir@;
        let name = self.export_name@;
        &&& OnnxFile::Sovits.path(disk, base, name) == Some(assets.sovits@)
        &&& OnnxFile::Ssl.path(disk, base, name) == Some(assets.ssl@)
        &&& OnnxFile::T2sEncoder.path(disk, base, name) == Some(assets.t2s_encoder@)
        &&& OnnxFile::T2sFsDecoder.path(disk, base, name) == Some(assets.t2s_fs_decoder@)
        &&& OnnxFile::T2sSDecoder.path(disk, base, name) == Some(assets.t2s_s_decoder@)
        &&& opt_text(assets.bert) == set_or_found(self.bert_path, disk, base, seq!["bert.onnx"])
        &&& opt_text(assets.g2pw) == set_or_found(
            self.g2pw_path,
            disk,
            base,
            seq!["g2pW.onnx", "g2pw.onnx"],
        )
        &&& opt_text(assets.g2p_en) == self.g2p_en_dir(disk)
        &&& opt_text(assets.sv) == set_or_found(self.sv_path, disk, base, seq!["sv.onnx"])
        &&& self.ref_wav(disk) == Some(assets.ref_wav@)
        &&& self.raw_ref_text(disk) is Some
        &&& assets.ref_text@ == clean_text(self.raw_ref_text(disk)->0)
        &&& assets.ref_text@.len() > 0
    }

    /// Finds everything that the engine is loaded with. What is missing is looked for in this
    /// order: the directory, the model files, the English pronunciation model where it is set,
    /// the reference audio and the reference text.
    pub fn resolve(&self, disk: &PathTable) -> (r: Result<OnnxAssets, OnnxError>)
        ensures
            ({
                let base = self.model_dir@;
                let name = self.export_name@;
                let missing = first_missing(*disk, base, name);
                if disk.at(base) != PathKind::Directory {
                    r matches Err(OnnxError::DirMissing { path }) && path@ == base
                } else if missing is Some {
                    r matches Err(OnnxError::NotFound(e)) && missing->0.missing(
                        e,
                        *disk,
                        base,
                        name,
                    )
                } else if self.g2p_en_path is Some && !is_g2p_en_dir(
                    *disk,
                    self.g2p_en_path->0@,
                ) {
                    r matches Err(OnnxError::G2pEnIncomplete { path }) && path@
                        == self.g2p_en_path->0@
                } else if self.ref_wav(*disk) is None {
                    r matches Err(OnnxError::NotFound(e)) && file_located(
                        Err(e),
                        *disk,
                        base,
                        "Reference wav"@,
                        ref_wav_names(),
                    )
                } else if self.raw_ref_text(*disk) is None {
                    r matches Err(OnnxError::ReadFailed { path }) && path@ == disk.joined(
                        base,
                        "ref.txt"@,
                    )
                } else if clean_text(self.raw_ref_text(*disk)->0).len() == 0 {
                    r == Err::<OnnxAssets, _>(OnnxError::EmptyRefText)
                } else {
                    r matches Ok(assets) && self.resolves_to(assets, *disk)
                }
            }),
    {
        let base = self.model_dir.as_str();
        let name = self.export_name.as_str();
        if !disk.is_dir(base) {
            return Err(OnnxError::DirMissing { path: self.model_dir.clone() });
        }
        let sovits = match OnnxFile::Sovits.locate(disk, base, name) {
            Ok(path) => path,
            Err(e) => {
                return Err(OnnxError::NotFound(e));
            },
        };
        let ssl = match OnnxFile::Ssl.locate(disk, base, name) {
            Ok(path) => path,
            Err(e) => {
                return Err(OnnxError::NotFound(e));
            },
        };
        let t2s_encoder = match OnnxFile::T2sEncoder.locate(disk, base, name) {
            Ok(path) => path,
            Err(e) => {
                return Err(OnnxError::NotFound(e));
            },
        };
        let t2s_fs_decoder = match OnnxFile::T2sFsDecoder.locate(disk, base, name) {
            Ok(path) => path,
            Err(e) => {
                return Err(OnnxError::NotFound(e));
            },
        };
        let t2s_s_decoder = match OnnxFile::T2sSDecoder.locate(disk, base, name) {
            Ok(path) => path,
            Err(e) => {
                return Err(OnnxError::NotFound(e));
            },
        };
        let bert_names: Vec<&str> = vec!["bert.onnx"];
        let g2pw_names: Vec<&str> = vec!["g2pW.onnx", "g2pw.onnx"];
        let sv_names: Vec<&str> = vec!["sv.onnx"];
        proof {
            assert(bert_names@ =~= seq!["bert.onnx"]);
            assert(g2pw_names@ =~= seq!["g2pW.onnx", "g2pw.onnx"]);
            assert(sv_names@ =~= seq!["sv.onnx"]);
        }
        let bert = set_or_find(&self.bert_path, disk, base, &bert_names);
        let g2pw = set_or_find(&self.g2pw_path, disk, base, &g2pw_names);
        let g2p_en = match &self.g2p_en_path {
            Some(path) => {
                if let Err(e) = validate_g2p_en_dir(disk, path.as_str()) {
                    return Err(e);
                }
                Some(path.clone())
            },
            None => detect_g2p_en_dir(disk, base),
        };
        let sv = set_or_find(&self.sv_path, disk, base, &sv_names);
        let ref_wav = match &self.ref_wav_path {
            Some(path) => path.clone(),
            None => {
                let mut wav_names: Vec<String> = Vec::new();
                wav_names.push("ref.wav".to_string());
                wav_names.push("ref_16k.wav".to_string());
                wav_names.push("ref16k.wav".to_string());
                proof {
                    assert(spelled(wav_names@) =~= ref_wav_names());
                }
                match first_existing_file_rel(disk, base, "Reference wav", &wav_names) {
                    Ok(path) => path,
                    Err(e) => {
                        return Err(OnnxError::NotFound(e));
                    },
                }
            },
        };
        let raw = match &self.ref_text {
            Some(text) => text.clone(),
            None => {
                let path = disk.join(base, "ref.txt");
                match disk.read(path.as_str()) {
                    Some(text) => text,
                    None => {
                        return Err(OnnxError::ReadFailed { path });
                    },
                }
            },
        };
        let ref_text = trim(drop_leading(raw.as_str(), '\u{feff}').as_str());
        if ref_text.as_str().is_empty() {
            return Err(OnnxError::EmptyRefText);
        }
        Ok(
            OnnxAssets {
                sovits,
                ssl,
                t2s_encoder,
                t2s_fs_decoder,
                t2s_s_decoder,
                bert,
                g2pw,
                g2p_en,
                sv,
                ref_wav,
                ref_text,
            },
        )
    }
}

/// Checks that the model's audio is what the output takes.
pub fn check_output(sample_rate: u32, channels: u16, out_rate: u32, out_channels: u16) -> (r: Result<
    (),
    OnnxError,
>)
    ensures
        r == if sample_rate != out_rate || channels != out_channels {
            Err(OnnxError::OutputMismatch { sample_rate, channels, out_rate, out_channels })
        } else {
            Ok(())
        },
{
    if sample_rate != out_rate || channels != out_channels {
        return Err(OnnxError::OutputMismatch { sample_rate, channels, out_rate, out_channels });
    }
    Ok(())
}

/// Whether ranges cut `0..len` into pieces of `size`, the last one as long as it comes out.
pub open spec fn cuts(ranges: Seq<(usize, usize)>, len: nat, size: nat) -> bool {
    &&& ranges.len() == 0 <==> len == 0
    &&& forall|i: int|
        0 <= i < ranges.len() ==> {
            &&& (#[trigger] ranges[i]).0 == if i == 0 {
                0
            } else {
                ranges[i - 1].1
            }
            &&& ranges[i].1 == if i == ranges.len() - 1 {
                len as int
            } else {
                ranges[i].0 + size
            }
            &&& 0 < ranges[i].1 - ranges[i].0 <= size
        }
}

/// The pieces in which `len` samples are played.
pub fn play_ranges(len: usize, size: usize) -> (r: Vec<(usize, usize)>)
    requires
        size > 0,
    ensures
        cuts(r@, len as nat, size as nat),
{
    let mut out: Vec<(usize, usize)> = Vec::new();
    let mut at: usize = 0;
    while at < len
        invariant
            size > 0,
            at <= len,
            out@.len() == 0 <==> at == 0,
            out@.len() > 0 ==> out@.last().1 == at,
            forall|i: int|
                0 <= i < out@.len() ==> {
                    &&& (#[trigger] out@[i]).0 == if i == 0 {
                        0
                    } else {
                        out@[i - 1].1
                    }
                    &&& out@[i].1 == if i == out@.len() - 1 && at == len {
                        len as int
                    } else {
                        out@[i].0 + size
                    }
                    &&& 0 < out@[i].1 - out@[i].0 <= size
                },
        decreases len - at,
    {
        let end: usize = if len - at > size {
            at + size
        } else {
            len
        };
        out.push((at, end));
        at = end;
    }
    out
}

/// Four words ask for Cantonese; no other does.
pub proof fn law_languages_by_word(word: Seq<char>)
    ensures
        lang_of(word) == LangId::AutoYue <==> word == "yue"@ || word == "cantonese"@ || word
            == "auto-yue"@ || word == "autoyue"@,
        lang_of(word) == LangId::Auto <==> word != "yue"@ && word != "cantonese"@ && word
            != "auto-yue"@ && word != "autoyue"@,
{
}

/// Each model file is looked for under the name that was exported, then under the usual one, then
/// under none; the SSL model under none first. It is the first of them that is a file.
pub proof fn law_where_the_model_files_are(disk: PathTable, base: Seq<char>, name: Seq<char>)
    ensures
        ({
            let tried = |ending: Seq<char>|
                seq![
                    disk.joined(base, name + "_"@ + ending),
                    disk.joined(base, "custom_"@ + ending),
                    disk.joined(base, ending),
                ];
            &&& is_first(
                OnnxFile::Sovits.path(disk, base, name),
                disk,
                tried("vits.onnx"@),
                PathKind::File,
            )
            &&& is_first(
                OnnxFile::T2sEncoder.path(disk, base, name),
                disk,
                tried("t2s_encoder.onnx"@),
                PathKind::File,
            )
            &&& is_first(
                OnnxFile::T2sFsDecoder.path(disk, base, name),
                disk,
                tried("t2s_fs_decoder.onnx"@),
                PathKind::File,
            )
            &&& is_first(
                OnnxFile::T2sSDecoder.path(disk, base, name),
                disk,
                tried("t2s_s_decoder.onnx"@),
                PathKind::File,
            )
            &&& is_first(
                OnnxFile::Ssl.path(disk, base, name),
                disk,
                seq![
                    disk.joined(base, "ssl.onnx"@),
                    disk.joined(base, name + "_"@ + "ssl.onnx"@),
                ],
                PathKind::File,
            )
        }),
{
    let tried = |ending: Seq<char>|
        seq![
            disk.joined(base, name + "_"@ + ending),
            disk.joined(base, "custom_"@ + ending),
            disk.joined(base, ending),
        ];
    law_first_of_kind(disk, below_all(disk, base, OnnxFile::Sovits.names(name)), PathKind::File);
    law_first_of_kind(disk, below_all(disk, base, OnnxFile::Ssl.names(name)), PathKind::File);
    law_first_of_kind(disk, below_all(disk, base, OnnxFile::T2sEncoder.names(name)), PathKind::File);
    law_first_of_kind(
        disk,
        below_all(disk, base, OnnxFile::T2sFsDecoder.names(name)),
        PathKind::File,
    );
    law_first_of_kind(
        disk,
        below_all(disk, base, OnnxFile::T2sSDecoder.names(name)),
        PathKind::File,
    );
    assert(below_all(disk, base, OnnxFile::Sovits.names(name)) =~= tried("vits.onnx"@));
    assert(below_all(disk, base, OnnxFile::T2sEncoder.names(name)) =~= tried("t2s_encoder.onnx"@));
    assert(below_all(disk, base, OnnxFile::T2sFsDecoder.names(name)) =~= tried(
        "t2s_fs_decoder.onnx"@,
    ));
    assert(below_all(disk, base, OnnxFile::T2sSDecoder.names(name)) =~= tried(
        "t2s_s_decoder.onnx"@,
    ));
    assert(below_all(disk, base, OnnxFile::Ssl.names(name)) =~= seq![
        disk.joined(base, "ssl.onnx"@),
        disk.joined(base, name + "_"@ + "ssl.onnx"@),
    ]);
}

/// The order in which the model files are looked for.
pub open spec fn model_files_in_order() -> Seq<OnnxFile> {
    seq![
        OnnxFile::Sovits,
        OnnxFile::Ssl,
        OnnxFile::T2sEncoder,
        OnnxFile::T2sFsDecoder,
        OnnxFile::T2sSDecoder,
    ]
}

/// Nothing is missing exactly where every model file is there; else the first that is not there
/// is told, by its own words: every file before it is there.
pub proof fn law_first_missing_model_file(
    disk: PathTable,
    base: Seq<char>,
    name: Seq<char>,
    k: int,
    e: NotFound,
)
    requires
        0 <= k < model_files_in_order().len(),
    ensures
        first_missing(disk, base, name) is None <==> forall|i: int|
            0 <= i < model_files_in_order().len() ==> (#[trigger] model_files_in_order()[i]).path(
                disk,
                base,
                name,
            ) is Some,
        first_missing(disk, base, name) == Some(model_files_in_order()[k])
            <==> model_files_in_order()[k].path(disk, base, name) is None && forall|i: int|
            0 <= i < k ==> (#[trigger] model_files_in_order()[i]).path(disk, base, name) is Some,
        ({
            let file = model_files_in_order()[k];
            file.path(disk, base, name) is None && file.missing(e, disk, base, name) ==> e.label@
                == match file {
                OnnxFile::Sovits => "SoVITS model"@,
                OnnxFile::Ssl => "SSL model"@,
                OnnxFile::T2sEncoder => "T2S encoder model"@,
                OnnxFile::T2sFsDecoder => "T2S FS decoder model"@,
                OnnxFile::T2sSDecoder => "T2S S decoder model"@,
            }
        }),
{
    let all = model_files_in_order();
    assert(all[0] == OnnxFile::Sovits && all[1] == OnnxFile::Ssl && all[2] == OnnxFile::T2sEncoder
        && all[3] == OnnxFile::T2sFsDecoder && all[4] == OnnxFile::T2sSDecoder);
}

/// The English pronunciation model is a directory with two files in it; where none is set, it is
/// `g2p_en` below the models, if that is complete.
pub proof fn law_english_pronunciation(c: GptSovitsOnnxConfig, disk: PathTable)
    ensures
        ({
            let dir = disk.joined(c.model_dir@, "g2p_en"@);
            let complete = disk.has(disk.joined(dir, "encoder_model.onnx"@)) && disk.has(
                disk.joined(dir, "decoder_model.onnx"@),
            );
            &&& c.g2p_en_path matches Some(path) ==> c.g2p_en_dir(disk) == Some(path@)
            &&& c.g2p_en_path is None && complete ==> c.g2p_en_dir(disk) == Some(dir)
            &&& c.g2p_en_path is None && !complete ==> c.g2p_en_dir(disk) is None
        }),
{
}

/// What a configuration resolves to: each optional model is the one that is set, else the one that
/// is found, and so are the reference audio and the reference text, which is not empty.
pub proof fn law_what_is_loaded(c: GptSovitsOnnxConfig, assets: OnnxAssets, disk: PathTable)
    requires
        c.resolves_to(assets, disk),
    ensures
        ({
            let at = |name: Seq<char>| disk.joined(c.model_dir@, name);
            let is_file = |path: Seq<char>| disk.at(path) == PathKind::File;
            &&& c.bert_path matches Some(set) ==> opt_text(assets.bert) == Some(set@)
            &&& c.bert_path is None ==> is_first(
                opt_text(assets.bert),
                disk,
                seq![at("bert.onnx"@)],
                PathKind::File,
            )
            &&& c.g2pw_path matches Some(set) ==> opt_text(assets.g2pw) == Some(set@)
            &&& c.g2pw_path is None ==> is_first(
                opt_text(assets.g2pw),
                disk,
                seq![at("g2pW.onnx"@), at("g2pw.onnx"@)],
                PathKind::File,
            )
            &&& c.sv_path matches Some(set) ==> opt_text(assets.sv) == Some(set@)
            &&& c.sv_path is None ==> is_first(
                opt_text(assets.sv),
                disk,
                seq![at("sv.onnx"@)],
                PathKind::File,
            )
            &&& c.ref_wav_path matches Some(set) ==> assets.ref_wav@ == set@
            &&& c.ref_wav_path is None ==> is_first(
                Some(assets.ref_wav@),
                disk,
                seq![at("ref.wav"@), at("ref_16k.wav"@), at("ref16k.wav"@)],
                PathKind::File,
            )
            &&& c.ref_text matches Some(set) ==> assets.ref_text@ == clean_text(set@)
            &&& c.ref_text is None ==> disk.text(at("ref.txt"@)) is Some && assets.ref_text@
                == clean_text(disk.text(at("ref.txt"@))->0)
            &&& assets.ref_text@.len() > 0
        }),
{
    let base = c.model_dir@;
    let at = |name: Seq<char>| disk.joined(base, name);
    let bert: Seq<&str> = seq!["bert.onnx"];
    let g2pw: Seq<&str> = seq!["g2pW.onnx", "g2pw.onnx"];
    let sv: Seq<&str> = seq!["sv.onnx"];
    law_first_of_kind(disk, below(disk, base, bert), PathKind::File);
    law_first_of_kind(disk, below(disk, base, g2pw), PathKind::File);
    law_first_of_kind(disk, below(disk, base, sv), PathKind::File);
    law_first_of_kind(disk, below_all(disk, base, ref_wav_names()), PathKind::File);
    assert(below(disk, base, bert) =~= seq![at("bert.onnx"@)]);
    assert(below(disk, base, g2pw) =~= seq![at("g2pW.onnx"@), at("g2pw.onnx"@)]);
    assert(below(disk, base, sv) =~= seq![at("sv.onnx"@)]);
    assert(below_all(disk, base, ref_wav_names()) =~= seq![
        at("ref.wav"@),
        at("ref_16k.wav"@),
        at("ref16k.wav"@),
    ]);
}

/// What the environment sets counts; what it does not set is the default.
pub proof fn law_onnx_settings_of_the_environment(
    c: GptSovitsOnnxConfig,
    vars: Map<Seq<char>, Seq<char>>,
    n: nat,
    word: Seq<char>,
)
    requires
        c.is_env_config(vars),
    ensures
        ({
            let text = |key: Seq<char>| env::text_var(vars, key);
            let number = |key: Seq<char>| env::unsigned_var(vars, key, usize::MAX as nat);
            &&& text("GSV_ONNX_MODEL_DIR"@) is None ==> c.model_dir@ == "onnx"@
            &&& text("GSV_ONNX_MODEL_DIR"@) == Some(word) ==> c.model_dir@ == word
            &&& text("GSV_ONNX_EXPORT_NAME"@) is None ==> c.export_name@ == "custom"@
            &&& text("GSV_ONNX_EXPORT_NAME"@) == Some(word) ==> c.export_name@ == word
            &&& text("GSV_ONNX_BERT_PATH"@) == opt_text(c.bert_path)
            &&& text("GSV_ONNX_G2PW_PATH"@) == opt_text(c.g2pw_path)
            &&& text("GSV_ONNX_G2P_EN_PATH"@) == opt_text(c.g2p_en_path)
            &&& text("GSV_ONNX_SV_PATH"@) == opt_text(c.sv_path)
            &&& text("GSV_ONNX_REF_WAV"@) == opt_text(c.ref_wav_path)
            &&& text("GSV_ONNX_REF_TEXT"@) == opt_text(c.ref_text)
            &&& text("GSV_ONNX_LANG"@) is None ==> c.lang == LangId::Auto
            &&& text("GSV_ONNX_LANG"@) == Some(word) ==> c.lang == lang_of(
                lowercased(trimmed(word)),
            )
            &&& number("GSV_ONNX_TOP_K"@) is None ==> c.top_k == 4
            &&& number("GSV_ONNX_TOP_K"@) == Some(n) ==> c.top_k == n
            &&& number("GSV_ONNX_CHUNK_SAMPLES"@) is None ==> c.chunk_samples == 2048
            &&& number("GSV_ONNX_CHUNK_SAMPLES"@) == Some(n) && 256 <= n <= 16384
                ==> c.chunk_samples == n
            &&& 256 <= c.chunk_samples <= 16384
        }),
{
}

/// A path that is set and at which nothing stands is told, with its variable.
pub proof fn law_paths_must_exist(
    r: Result<GptSovitsOnnxConfig, OnnxError>,
    host: Host,
    key: Seq<char>,
    path: Seq<char>,
)
    ensures
        dangling(host, key) <==> env::text_var(host.vars@, key) is Some && !host.disk.has(
            env::text_var(host.vars@, key)->0,
        ),
        env::text_var(host.vars@, key) == Some(path) && dangling_error(r, host, key) ==> (r matches Err(
            OnnxError::MissingPath(e),
        ) && e.key@ == key && e.path@ == path),
{
}

/// The pieces in which samples are played follow each other from the first sample to the last,
/// and each but the last is of the full size.
pub proof fn law_pieces_cover_the_samples(ranges: Seq<(usize, usize)>, len: nat, size: nat, k: int)
    requires
        cuts(ranges, len, size),
        size > 0,
        0 <= k < ranges.len(),
    ensures
        ranges[k].0 == k * size,
        k + 1 < ranges.len() ==> ranges[k].1 == ranges[k + 1].0 && ranges[k].1 - ranges[k].0
            == size,
        k + 1 == ranges.len() ==> ranges[k].1 == len,
        ranges[k].0 < ranges[k].1 <= ranges[k].0 + size,
    decreases k,
{
    if k > 0 {
        law_pieces_cover_the_samples(ranges, len, size, k - 1);
        assert(ranges[k].0 == ranges[k - 1].1);
        assert((k - 1) * size + size == k * size) by (nonlinear_arith);
    }
    if k + 1 < ranges.len() {
        assert(ranges[k + 1].0 == ranges[k].1);
    }
}

/// Why there is no ONNX engine is said in these words.
pub proof fn law_onnx_errors_in_words(text: String)
    ensures
        (OnnxError::G2pEnIncomplete { path: text }).spec_message()
            == "g2p_en dir missing encoder_model.onnx or decoder_model.onnx: "@ + text@,
        (OnnxError::DirMissing { path: text }).spec_message()
            == "GPT-SoVITS ONNX model dir not found: "@ + text@,
        (OnnxError::ReadFailed { path: text }).spec_message() == "Failed to read reference text: "@
            + text@,
        OnnxError::EmptyRefText.spec_message() == "Reference text is empty"@,
{
}

/// What a configuration that nobody has changed is made of.
pub proof fn law_onnx_defaults()
    ensures
        DEFAULT_MODEL_DIR@ == "onnx"@,
        DEFAULT_EXPORT_NAME@ == "custom"@,
        DEFAULT_CHUNK_SAMPLES == 2048,
        DEFAULT_TOP_K == 4,
{
}

/// There are pieces exactly where there are samples, and the last of them ends with the samples.
pub proof fn law_pieces_of_some_samples(len: usize, size: usize, r: Vec<(usize, usize)>)
    requires
        call_ensures(play_ranges, (len, size), r),
        size > 0,
    ensures
        r@.len() == 0 <==> len == 0,
        r@.len() > 0 ==> r@[0].0 == 0 && r@.last().1 == len,
        0 < len <= size ==> r@.len() == 1,
{
    if r@.len() > 0 {
        law_pieces_cover_the_samples(r@, len as nat, size as nat, 0);
        law_pieces_cover_the_samples(r@, len as nat, size as nat, r@.len() - 1);
    }
    if r@.len() > 1 {
        assert(r@[1].0 == r@[0].1);
        assert(r@[0].1 == r@[0].0 + size);
        law_pieces_cover_the_samples(r@, len as nat, size as nat, 1);
        law_starts_before_the_end(r@, len as nat, size as nat, 1);
    }
}

/// Every piece starts before the samples end.
pub proof fn law_starts_before_the_end(ranges: Seq<(usize, usize)>, len: nat, size: nat, k: int)
    requires
        cuts(ranges, len, size),
        size > 0,
        0 <= k < ranges.len(),
    ensures
        ranges[k].0 < len,
    decreases ranges.len() - k,
{
    law_pieces_cover_the_samples(ranges, len, size, k);
    if k + 1 < ranges.len() {
        law_starts_before_the_end(ranges, len, size, k + 1);
    }
}

} // verus!
