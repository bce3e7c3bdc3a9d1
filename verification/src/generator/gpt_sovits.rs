//! The GPT-SoVITS engine: its models, its settings and its stream of audio chunks.

use crate::internal::disk::{Host, PathKind, PathTable};
use crate::internal::env::{self, EnvVars};
use crate::internal::model_locator::{
    below, first_existing_file, first_of_kind, is_first, law_first_of_kind, located, quoted,
    NotFound,
};
use crate::number::capped_sum;
use crate::text::{drop_leading, spelled, trim, trimmed, without_leading};
use crate::time::Timestamp;
use vstd::prelude::*;
use vstd::string::*;

verus! {

/// How many samples are played at once.
pub const DEFAULT_PLAY_CHUNK_SAMPLES: usize = 2048;

/// Where the models are looked for.
pub const DEFAULT_BASE_DIR: &'static str = "v2pro";

/// Dynamic first-chunk token policy.
#[derive(Debug, Clone, Copy, PartialEq, Eq, Structural)]
pub struct GptSovitsChunkPolicy {
    /// Whether the first chunk of a short text is made shorter.
    pub dynamic: bool,
    pub short_chars: usize,
    pub mid_chars: usize,
    pub short_tokens: i64,
    pub mid_tokens: i64,
}

impl Default for GptSovitsChunkPolicy {
    fn default() -> (r: Self)
        ensures
            r == (GptSovitsChunkPolicy {
                dynamic: true,
                short_chars: 12,
                mid_chars: 24,
                short_tokens: 6,
                mid_tokens: 8,
            }),
    {
        GptSovitsChunkPolicy {
            dynamic: true,
            short_chars: 12,
            mid_chars: 24,
            short_tokens: 6,
            mid_tokens: 8,
        }
    }
}

impl GptSovitsChunkPolicy {
    /// The policy that the environment sets.
    pub open spec fn env_policy(vars: Map<Seq<char>, Seq<char>>) -> Self {
        let short_chars = env::unsigned_setting(
            vars,
            "GSV_FIRST_CHUNK_SHORT_CHARS"@,
            usize::MAX as nat,
            12,
            1,
            200,
        );
        GptSovitsChunkPolicy {
            dynamic: env::switch_setting(vars, "GSV_FIRST_CHUNK_DYNAMIC"@, true),
            short_chars: short_chars as usize,
            mid_chars: match env::unsigned_var(
                vars,
                "GSV_FIRST_CHUNK_MID_CHARS"@,
                usize::MAX as nat,
            ) {
                Some(n) => env::clamped(n as int, short_chars as int, 400) as usize,
                None => 24,
            },
            short_tokens: env::signed_setting(
                vars,
                "GSV_FIRST_CHUNK_SHORT_TOKENS"@,
                i64::MIN as int,
                i64::MAX as int,
                6,
                3,
                25,
            ) as i64,
            mid_tokens: env::signed_setting(
                vars,
                "GSV_FIRST_CHUNK_MID_TOKENS"@,
                i64::MIN as int,
                i64::MAX as int,
                8,
                3,
                25,
            ) as i64,
        }
    }

    /// Reads the policy from the environment.
    pub fn from_env(vars: &EnvVars) -> (r: Self)
        ensures
            r == Self::env_policy(vars@),
    {
        let mut cfg = GptSovitsChunkPolicy::default();
        cfg.dynamic = env::bool01(vars, "GSV_FIRST_CHUNK_DYNAMIC", cfg.dynamic);
        if let Some(parsed) = env::get_usize(vars, "GSV_FIRST_CHUNK_SHORT_CHARS") {
            cfg.short_chars = env::clamp_u64(parsed as u64, 1, 200) as usize;
        }
        if let Some(parsed) = env::get_usize(vars, "GSV_FIRST_CHUNK_MID_CHARS") {
            cfg.mid_chars = env::clamp_u64(parsed as u64, cfg.short_chars as u64, 400) as usize;
        }
        cfg.short_tokens =
        env::i64_clamped(vars, "GSV_FIRST_CHUNK_SHORT_TOKENS", cfg.short_tokens, 3, 25);
        cfg.mid_tokens =
        env::i64_clamped(vars, "GSV_FIRST_CHUNK_MID_TOKENS", cfg.mid_tokens, 3, 25);
        cfg
    }
}

/// Why there is no engine.
#[derive(Debug)]
pub enum GptSovitsError {
    NotFound(NotFound),
    ReadFailed { path: String },
    WrongOutput,
}

impl GptSovitsError {
    /// The error in words.
    pub open spec fn spec_message(&self) -> Seq<char> {
        match self {
            GptSovitsError::NotFound(e) => e.label@ + " not found (tried: "@ + quoted(
                spelled(e.tried@),
            ) + ")"@,
            GptSovitsError::ReadFailed { path } => "Failed to read reference text: "@ + path@,
            GptSovitsError::WrongOutput =>
                "GPT-SoVITS expects 32000Hz mono output; set AUDIO_SAMPLE_RATE=32000 and AUDIO_CHANNELS=1"@,
        }
    }

    /// The error in words.
    pub fn message(&self) -> (r: String)
        ensures
            r@ == self.spec_message(),
    {
        match self {
            GptSovitsError::NotFound(e) => e.message(),
            GptSovitsError::ReadFailed { path } => {
                let mut out = "Failed to read reference text: ".to_string();
                out.append(path.as_str());
                out
            },
            GptSovitsError::WrongOutput =>
                "GPT-SoVITS expects 32000Hz mono output; set AUDIO_SAMPLE_RATE=32000 and AUDIO_CHANNELS=1".to_string(),
        }
    }
}

/// A file that the engine needs.
#[derive(Debug, Clone, Copy, PartialEq, Eq, Structural)]
pub enum GsvFile {
    G2pEn,
    G2pw,
    CnBert,
    Ssl,
    T2s,
    Vits,
    RefWav,
    RefText,
}

impl GsvFile {
    /// What the file is called where it is missing.
    pub open spec fn label(self) -> Seq<char> {
        match self {
            GsvFile::G2pEn => "g2p_en model (mini-bart-g2p)"@,
            GsvFile::G2pw => "g2pw model"@,
            GsvFile::CnBert => "cn_bert model"@,
            GsvFile::Ssl => "ssl model"@,
            GsvFile::T2s => "t2s model"@,
            GsvFile::Vits => "vits model"@,
            GsvFile::RefWav => "ref.wav"@,
            GsvFile::RefText => "ref.txt"@,
        }
    }

    /// The names under which the file is looked for.
    pub open spec fn names(self) -> Seq<&'static str> {
        match self {
            GsvFile::G2pEn => seq!["mini-bart-g2p.pt", "resource/mini-bart-g2p.pt"],
            GsvFile::G2pw => seq!["g2pw_model.pt", "g2pw.pt"],
            GsvFile::CnBert => seq!["bert_model.pt", "bert.pt"],
            GsvFile::Ssl => seq!["ssl_model.pt", "ssl.pt", "resource/ssl_model.pt"],
            GsvFile::T2s => seq!["t2s.pt", "t2s.cpu.pt"],
            GsvFile::Vits => seq!["vits.pt", "vits.cpu.pt"],
            GsvFile::RefWav => seq!["ref.wav", "ref_32k.wav", "ref32k.wav"],
            GsvFile::RefText => seq!["ref.txt"],
        }
    }

    /// Where the file stands below `base`; the two halves of the voice model may stand in one
    /// combined file.
    pub open spec fn path(self, disk: PathTable, base: Seq<char>) -> Option<Seq<char>> {
        let combined = disk.joined(base, "gpt_sovits_v2pro.cuda.pt"@);
        let first = disk.joined(base, self.names()[0]@);
        if (self == GsvFile::T2s || self == GsvFile::Vits) && disk.has(first) {
            Some(first)
        } else if (self == GsvFile::T2s || self == GsvFile::Vits) && disk.has(combined) {
            Some(combined)
        } else {
            first_of_kind(disk, below(disk, base, self.names()), PathKind::File)
        }
    }

    /// Whether `e` is the error for this file.
    pub open spec fn missing(self, e: NotFound, disk: PathTable, base: Seq<char>) -> bool {
        located(Err(e), disk, base, self.label(), self.names(), PathKind::File)
    }

    /// Finds the file below `base`.
    pub fn locate(self, disk: &PathTable, base: &str) -> (r: Result<String, NotFound>)
        ensures
            match self.path(*disk, base@) {
                Some(path) => r matches Ok(p) && p@ == path,
                None => r matches Err(e) && self.missing(e, *disk, base@),
            },
    {
        let (label, names) = match self {
            GsvFile::G2pEn => (
                "g2p_en model (mini-bart-g2p)",
                vec!["mini-bart-g2p.pt", "resource/mini-bart-g2p.pt"],
            ),
            GsvFile::G2pw => ("g2pw model", vec!["g2pw_model.pt", "g2pw.pt"]),
            GsvFile::CnBert => ("cn_bert model", vec!["bert_model.pt", "bert.pt"]),
            GsvFile::Ssl => (
                "ssl model",
                vec!["ssl_model.pt", "ssl.pt", "resource/ssl_model.pt"],
            ),
            GsvFile::T2s => ("t2s model", vec!["t2s.pt", "t2s.cpu.pt"]),
            GsvFile::Vits => ("vits model", vec!["vits.pt", "vits.cpu.pt"]),
            GsvFile::RefWav => ("ref.wav", vec!["ref.wav", "ref_32k.wav", "ref32k.wav"]),
            GsvFile::RefText => ("ref.txt", vec!["ref.txt"]),
        };
        proof {
            assert(names@ =~= self.names());
        }
        if self == GsvFile::T2s || self == GsvFile::Vits {
            let first = disk.join(base, names[0]);
            if disk.holds(first.as_str()) {
                return Ok(first);
            }
            let combined = disk.join(base, "gpt_sovits_v2pro.cuda.pt");
            if disk.holds(combined.as_str()) {
                return Ok(combined);
            }
        }
        first_existing_file(disk, base, label, &names)
    }
}

/// GPT-SoVITS CUDA backend configuration.
#[derive(Debug)]
pub struct GptSovitsConfig {
    pub g2p_en_path: String,
    pub g2pw_path: String,
    pub cn_bert_path: String,
    pub ssl_model_path: String,
    pub t2s_model_path: String,
    pub vits_model_path: String,
    pub ref_wav_path: String,
    pub ref_text: String,
    pub fp16: bool,
    pub top_k: i64,
    pub top_k_first: i64,
    pub max_cut_token: i64,
    pub chunk_token_nums: Vec<i64>,
    pub chunk_policy: GptSovitsChunkPolicy,
    pub log_text_metrics: bool,
    pub jieba_bench: bool,
}

/// The first file that is missing below `base`, in the order in which they are looked for.
pub open spec fn first_missing(disk: PathTable, base: Seq<char>) -> Option<GsvFile> {
    if GsvFile::G2pEn.path(disk, base) is None {
        Some(GsvFile::G2pEn)
    } else if GsvFile::G2pw.path(disk, base) is None {
        Some(GsvFile::G2pw)
    } else if GsvFile::CnBert.path(disk, base) is None {
        Some(GsvFile::CnBert)
    } else if GsvFile::Ssl.path(disk, base) is None {
        Some(GsvFile::Ssl)
    } else if GsvFile::T2s.path(disk, base) is None {
        Some(GsvFile::T2s)
    } else if GsvFile::Vits.path(disk, base) is None {
        Some(GsvFile::Vits)
    } else if GsvFile::RefWav.path(disk, base) is None {
        Some(GsvFile::RefWav)
    } else if GsvFile::RefText.path(disk, base) is None {
        Some(GsvFile::RefText)
    } else {
        None
    }
}

/// A reference text without byte order marks and white space round it.
pub open spec fn clean_text(raw: Seq<char>) -> Seq<char> {
    trimmed(without_leading(raw, '\u{feff}'))
}

impl GptSovitsConfig {
    /// Whether the files are those below `base`.
    pub open spec fn has_files(self, disk: PathTable, base: Seq<char>) -> bool {
        &&& GsvFile::G2pEn.path(disk, base) == Some(self.g2p_en_path@)
        &&& GsvFile::G2pw.path(disk, base) == Some(self.g2pw_path@)
        &&& GsvFile::CnBert.path(disk, base) == Some(self.cn_bert_path@)
        &&& GsvFile::Ssl.path(disk, base) == Some(self.ssl_model_path@)
        &&& GsvFile::T2s.path(disk, base) == Some(self.t2s_model_path@)
        &&& GsvFile::Vits.path(disk, base) == Some(self.vits_model_path@)
        &&& GsvFile::RefWav.path(disk, base) == Some(self.ref_wav_path@)
        &&& match GsvFile::RefText.path(disk, base) {
            Some(path) => disk.text(path) is Some && self.ref_text@ == clean_text(
                disk.text(path)->0,
            ),
            None => false,
        }
    }

    /// Whether the settings are the default ones.
    pub open spec fn has_defaults(self) -> bool {
        &&& self.fp16
        &&& self.top_k == 15
        &&& self.top_k_first == 12
        &&& self.max_cut_token == 25
        &&& self.chunk_token_nums@ == seq![10i64, 25, 50, 100]
        &&& self.chunk_policy == (GptSovitsChunkPolicy {
            dynamic: true,
            short_chars: 12,
            mid_chars: 24,
            short_tokens: 6,
            mid_tokens: 8,
        })
        &&& !self.log_text_metrics
        &&& !self.jieba_bench
    }

    /// Finds all files below a directory; the settings are the default ones.
    pub fn from_dir(disk: &PathTable, base_dir: &str) -> (r: Result<Self, GptSovitsError>)
        ensures
            match first_missing(*disk, base_dir@) {
                Some(file) => r matches Err(GptSovitsError::NotFound(e)) && file.missing(
                    e,
                    *disk,
                    base_dir@,
                ),
                None => {
                    let text_path = GsvFile::RefText.path(*disk, base_dir@)->0;
                    if disk.text(text_path) is None {
                        r matches Err(GptSovitsError::ReadFailed { path }) && path@ == text_path
                    } else {
                        r matches Ok(c) && c.has_files(*disk, base_dir@) && c.has_defaults()
                    }
                },
            },
    {
        let g2p_en_path = match GsvFile::G2pEn.locate(disk, base_dir) {
            Ok(path) => path,
            Err(e) => {
                return Err(GptSovitsError::NotFound(e));
            },
        };
        let g2pw_path = match GsvFile::G2pw.locate(disk, base_dir) {
            Ok(path) => path,
            Err(e) => {
                return Err(GptSovitsError::NotFound(e));
            },
        };
        let cn_bert_path = match GsvFile::CnBert.locate(disk, base_dir) {
            Ok(path) => path,
            Err(e) => {
                return Err(GptSovitsError::NotFound(e));
            },
        };
        let ssl_model_path = match GsvFile::Ssl.locate(disk, base_dir) {
            Ok(path) => path,
            Err(e) => {
                return Err(GptSovitsError::NotFound(e));
            },
        };
        let t2s_model_path = match GsvFile::T2s.locate(disk, base_dir) {
            Ok(path) => path,
            Err(e) => {
                return Err(GptSovitsError::NotFound(e));
            },
        };
        let vits_model_path = match GsvFile::Vits.locate(disk, base_dir) {
            Ok(path) => path,
            Err(e) => {
                return Err(GptSovitsError::NotFound(e));
            },
        };
        let ref_wav_path = match GsvFile::RefWav.locate(disk, base_dir) {
            Ok(path) => path,
            Err(e) => {
                return Err(GptSovitsError::NotFound(e));
            },
        };
        let ref_text_path = match GsvFile::RefText.locate(disk, base_dir) {
            Ok(path) => path,
            Err(e) => {
                return Err(GptSovitsError::NotFound(e));
            },
        };
        let raw = match disk.read(ref_text_path.as_str()) {
            Some(raw) => raw,
            None => {
                return Err(GptSovitsError::ReadFailed { path: ref_text_path });
            },
        };
        let ref_text = trim(drop_leading(raw.as_str(), '\u{feff}').as_str());
        // The first chunk is short for fast audio, the later ones grow for throughput.
        let chunk_token_nums: Vec<i64> = vec![10, 25, 50, 100];
        proof {
            assert(chunk_token_nums@ =~= seq![10i64, 25, 50, 100]);
        }
        Ok(
            GptSovitsConfig {
                g2p_en_path,
                g2pw_path,
                cn_bert_path,
                ssl_model_path,
                t2s_model_path,
                vits_model_path,
                ref_wav_path,
                ref_text,
                fp16: true,
                top_k: 15,
                top_k_first: 12,
                max_cut_token: 25,
                chunk_token_nums,
                chunk_policy: GptSovitsChunkPolicy::default(),
                log_text_metrics: false,
                jieba_bench: false,
            },
        )
    }

    /// Whether `self` is `before` with what the environment sets.
    pub open spec fn overridden(self, before: Self, vars: Map<Seq<char>, Seq<char>>) -> bool {
        &&& self.g2p_en_path == before.g2p_en_path
        &&& self.g2pw_path == before.g2pw_path
        &&& self.cn_bert_path == before.cn_bert_path
        &&& self.ssl_model_path == before.ssl_model_path
        &&& self.t2s_model_path == before.t2s_model_path
        &&& self.vits_model_path == before.vits_model_path
        &&& self.ref_wav_path == before.ref_wav_path
        &&& self.ref_text == before.ref_text
        &&& self.fp16 == env::switch_setting(vars, "GSV_FP16"@, before.fp16)
        &&& self.top_k == match env::signed_var(
            vars,
            "GSV_TOP_K"@,
            i64::MIN as int,
            i64::MAX as int,
        ) {
            Some(k) => env::clamped(k, 1, 50),
            None => before.top_k as int,
        }
        &&& self.top_k_first == match env::signed_var(
            vars,
            "GSV_FIRST_TOP_K"@,
            i64::MIN as int,
            i64::MAX as int,
        ) {
            Some(k) => env::clamped(k, 1, self.top_k as int),
            None => before.top_k_first as int,
        }
        &&& self.chunk_token_nums@ == match env::signed_var(
            vars,
            "GSV_FIRST_CHUNK_TOKENS"@,
            i64::MIN as int,
            i64::MAX as int,
        ) {
            Some(n) => with_first(before.chunk_token_nums@, env::clamped(n, 3, 25) as i64),
            None => before.chunk_token_nums@,
        }
        &&& self.max_cut_token == env::signed_setting(
            vars,
            "GSV_MAX_CUT_TOKEN"@,
            i64::MIN as int,
            i64::MAX as int,
            before.max_cut_token as int,
            25,
            1024,
        )
        &&& self.log_text_metrics == (env::switch_setting(vars, "GSV_TEXT_METRICS"@, false)
            || env::switch_setting(vars, "VOICE_TTS_METRICS"@, false) || env::switch_setting(
            vars,
            "TTS_WORKER_METRICS"@,
            false,
        ))
        &&& self.jieba_bench == env::switch_setting(vars, "GSV_JIEBA_BENCH"@, false)
        &&& self.chunk_policy == GptSovitsChunkPolicy::env_policy(vars)
    }

    /// Applies what the environment sets. A first `top_k` is brought under the usual one, which
    /// then has to be positive.
    pub fn apply_env_overrides(&mut self, vars: &EnvVars)
        requires
            env::signed_var(vars@, "GSV_FIRST_TOP_K"@, i64::MIN as int, i64::MAX as int) is Some
                && env::signed_var(vars@, "GSV_TOP_K"@, i64::MIN as int, i64::MAX as int) is None
                ==> old(self).top_k >= 1,
        ensures
            final(self).overridden(*old(self), vars@),
    {
        self.fp16 = env::bool01(vars, "GSV_FP16", self.fp16);
        if let Some(parsed) = env::get_i64(vars, "GSV_TOP_K") {
            self.top_k = env::clamp_i64(parsed, 1, 50);
        }
        if let Some(parsed) = env::get_i64(vars, "GSV_FIRST_TOP_K") {
            self.top_k_first = env::clamp_i64(parsed, 1, self.top_k);
        }
        if let Some(parsed) = env::get_i64(vars, "GSV_FIRST_CHUNK_TOKENS") {
            let first: i64 = env::clamp_i64(parsed, 3, 25);
            if self.chunk_token_nums.len() == 0 {
                self.chunk_token_nums.push(first);
                proof {
                    assert(self.chunk_token_nums@ =~= seq![first]);
                }
            } else {
                self.chunk_token_nums.set(0, first);
            }
        }
        self.max_cut_token =
        env::i64_clamped(vars, "GSV_MAX_CUT_TOKEN", self.max_cut_token, 25, 1024);
        let text_metrics = env::bool01(vars, "GSV_TEXT_METRICS", false);
        let voice_metrics = env::bool01(vars, "VOICE_TTS_METRICS", false);
        let worker_metrics = env::bool01(vars, "TTS_WORKER_METRICS", false);
        self.log_text_metrics = text_metrics || voice_metrics || worker_metrics;
        self.jieba_bench = env::bool01(vars, "GSV_JIEBA_BENCH", false);
        self.chunk_policy = GptSovitsChunkPolicy::from_env(vars);
    }

    /// The configuration that the environment sets.
    pub fn from_env(host: &Host) -> (r: Result<Self, GptSovitsError>)
        ensures
            ({
                let base = env::text_setting(host.vars@, "GSV_MODEL_DIR"@, "v2pro"@);
                match first_missing(host.disk, base) {
                    Some(file) => r matches Err(GptSovitsError::NotFound(e)) && file.missing(
                        e,
                        host.disk,
                        base,
                    ),
                    None => {
                        let text_path = GsvFile::RefText.path(host.disk, base)->0;
                        if host.disk.text(text_path) is None {
                            r matches Err(GptSovitsError::ReadFailed { path }) && path@ == text_path
                        } else {
                            r matches Ok(c) && c.has_files(host.disk, base) && exists|d: Self|
                                #![trigger c.overridden(d, host.vars@)]
                                d.has_defaults() && c.overridden(d, host.vars@)
                        }
                    },
                }
            }),
    {
        let base_dir = env::string_or(&host.vars, "GSV_MODEL_DIR", DEFAULT_BASE_DIR);
        match Self::from_dir(&host.disk, base_dir.as_str()) {
            Ok(config) => {
                let mut cfg = config;
                let ghost before = cfg;
                cfg.apply_env_overrides(&host.vars);
                proof {
                    assert(cfg.overridden(before, host.vars@));
                }
                Ok(cfg)
            },
            Err(e) => Err(e),
        }
    }
}

/// Whether no text was spoken yet since the start or the last stop.
#[derive(Debug, PartialEq, Eq, Structural)]
pub struct FirstCall {
    pub first: bool,
}

impl FirstCall {
    /// Before the first text.
    pub fn new() -> (r: Self)
        ensures
            r.first,
    {
        FirstCall { first: true }
    }

    /// Whether the text that is spoken now is the first one; the next is not.
    pub fn take(&mut self) -> (r: bool)
        ensures
            r == old(self).first,
            !final(self).first,
    {
        let first = self.first;
        self.first = false;
        first
    }

    /// Stops: the next text is the first one again.
    pub fn reset(&mut self)
        ensures
            final(self).first,
    {
        self.first = true;
    }
}

/// A list with another first number.
pub open spec fn with_first(nums: Seq<i64>, first: i64) -> Seq<i64> {
    if nums.len() == 0 {
        seq![first]
    } else {
        nums.update(0, first)
    }
}

/// The smaller of two numbers.
pub open spec fn smaller(a: int, b: int) -> int {
    if a < b {
        a
    } else {
        b
    }
}

/// The first chunk's length for a text: the usual one brought into `3..=25`, and no longer than
/// the policy allows for a short or a medium text.
pub open spec fn first_tokens(text_chars: nat, first: i64, policy: GptSovitsChunkPolicy) -> int {
    let usual = env::clamped(first as int, 3, 25);
    if text_chars <= policy.short_chars {
        smaller(usual, policy.short_tokens as int)
    } else if text_chars <= policy.mid_chars {
        smaller(usual, policy.mid_tokens as int)
    } else {
        usual
    }
}

/// The chunk lengths for a text.
pub open spec fn chunk_plan(text_chars: nat, base: Seq<i64>, policy: GptSovitsChunkPolicy) -> Seq<
    i64,
> {
    if base.len() == 0 || !policy.dynamic || first_tokens(text_chars, base[0], policy)
        == env::clamped(base[0] as int, 3, 25) {
        base
    } else {
        base.update(0, first_tokens(text_chars, base[0], policy) as i64)
    }
}

/// The chunk lengths for a text.
pub fn dynamic_chunk_token_nums(
    text_chars: usize,
    base: &Vec<i64>,
    policy: &GptSovitsChunkPolicy,
) -> (r: Vec<i64>)
    ensures
        r@ == chunk_plan(text_chars as nat, base@, *policy),
{
    let mut updated: Vec<i64> = Vec::new();
    let mut i: usize = 0;
    while i < base.len()
        invariant
            i <= base@.len(),
            updated@ =~= base@.take(i as int),
        decreases base@.len() - i,
    {
        updated.push(base[i]);
        i += 1;
    }
    proof {
        assert(base@.take(i as int) =~= base@);
    }
    if base.len() == 0 || !policy.dynamic {
        return updated;
    }
    let base_first: i64 = env::clamp_i64(base[0], 3, 25);
    let limit: i64 = if text_chars <= policy.short_chars {
        policy.short_tokens
    } else if text_chars <= policy.mid_chars {
        policy.mid_tokens
    } else {
        base_first
    };
    let adjusted: i64 = if base_first < limit {
        base_first
    } else {
        limit
    };
    if adjusted != base_first {
        updated.set(0, adjusted);
    }
    updated
}

/// A plan changes nothing but the first chunk, and makes that no longer than the usual one.
pub proof fn law_plan_shortens_the_first_chunk(
    text_chars: nat,
    base: Seq<i64>,
    policy: GptSovitsChunkPolicy,
)
    ensures
        ({
            let plan = chunk_plan(text_chars, base, policy);
            &&& plan.len() == base.len()
            &&& forall|i: int| 1 <= i < base.len() ==> #[trigger] plan[i] == base[i]
            &&& base.len() > 0 && 3 <= base[0] <= 25 ==> plan[0] <= base[0]
        }),
{
}

/// What a stream of audio chunks does next.
#[derive(Debug, Clone, Copy, PartialEq, Eq, Structural)]
pub enum InferStep {
    /// Ask the model for the next chunk.
    NextChunk,
    /// Hand the chunk on.
    Deliver,
    /// The stream is over.
    Stop,
}

/// A stream of audio chunks, from the model to whoever takes them.
#[derive(Debug, Clone, Copy, PartialEq, Eq, Structural)]
pub struct InferLoop {
    /// Whether times are measured.
    pub log_metrics: bool,
    /// Whether the first chunk was timed.
    pub first_chunk_gen_logged: bool,
    /// Whether the hand-over of the first chunk was timed.
    pub first_chunk_io_logged: bool,
}

impl InferLoop {
    /// A stream before its first chunk.
    pub fn new(log_metrics: bool) -> (r: Self)
        ensures
            r == (InferLoop {
                log_metrics,
                first_chunk_gen_logged: false,
                first_chunk_io_logged: false,
            }),
    {
        InferLoop { log_metrics, first_chunk_gen_logged: false, first_chunk_io_logged: false }
    }

    /// Whether to go on: not once it is cancelled.
    pub fn begin(&self, cancelled: bool) -> (r: InferStep)
        ensures
            r == if cancelled {
                InferStep::Stop
            } else {
                InferStep::NextChunk
            },
    {
        if cancelled {
            InferStep::Stop
        } else {
            InferStep::NextChunk
        }
    }

    /// Takes in the length of the chunk that the model gave, or its end; says what to do, and
    /// whether the time it took is to be logged. Empty chunks are passed over.
    pub fn on_chunk(&mut self, len: Option<usize>) -> (r: (InferStep, bool))
        ensures
            r.0 == match len {
                None => InferStep::Stop,
                Some(0) => InferStep::NextChunk,
                Some(_) => InferStep::Deliver,
            },
            r.1 == (len is Some && old(self).log_metrics && !old(self).first_chunk_gen_logged),
            *final(self) == (InferLoop {
                first_chunk_gen_logged: old(self).first_chunk_gen_logged || r.1,
                ..*old(self)
            }),
    {
        match len {
            None => (InferStep::Stop, false),
            Some(n) => {
                let log = self.log_metrics && !self.first_chunk_gen_logged;
                if log {
                    self.first_chunk_gen_logged = true;
                }
                if n == 0 {
                    (InferStep::NextChunk, log)
                } else {
                    (InferStep::Deliver, log)
                }
            },
        }
    }

    /// Takes in whether the chunk was accepted; says what to do, and whether the time it took is
    /// to be logged.
    pub fn on_delivered(&mut self, accepted: bool) -> (r: (InferStep, bool))
        ensures
            r.0 == if accepted {
                InferStep::NextChunk
            } else {
                InferStep::Stop
            },
            r.1 == (accepted && old(self).log_metrics && !old(self).first_chunk_io_logged),
            *final(self) == (InferLoop {
                first_chunk_io_logged: old(self).first_chunk_io_logged || r.1,
                ..*old(self)
            }),
    {
        if !accepted {
            return (InferStep::Stop, false);
        }
        let log = self.log_metrics && !self.first_chunk_io_logged;
        if log {
            self.first_chunk_io_logged = true;
        }
        (InferStep::NextChunk, log)
    }
}

/// How many candidates the model chooses from: fewer for the first text.
pub fn top_k_for(config: &GptSovitsConfig, is_first: bool) -> (r: i64)
    ensures
        r == if is_first {
            config.top_k_first
        } else {
            config.top_k
        },
{
    if is_first {
        config.top_k_first
    } else {
        config.top_k
    }
}

/// What was sent of a stream.
#[derive(Debug, Clone, Copy, PartialEq, Eq, Structural)]
pub struct Pcm16StreamStats {
    pub first_audio_ts: Option<Timestamp>,
    pub chunks: u64,
    pub samples: u64,
    pub bytes: u64,
}

impl Pcm16StreamStats {
    /// Nothing sent.
    pub fn new() -> (r: Self)
        ensures
            r == (Pcm16StreamStats { first_audio_ts: None, chunks: 0, samples: 0, bytes: 0 }),
    {
        Pcm16StreamStats { first_audio_ts: None, chunks: 0, samples: 0, bytes: 0 }
    }

    /// Counts a chunk of samples that was sent, two bytes for each.
    pub fn on_sent(&mut self, samples: u64, bytes: u64, now: Timestamp)
        ensures
            *final(self) == (Pcm16StreamStats {
                first_audio_ts: if old(self).first_audio_ts is Some {
                    old(self).first_audio_ts
                } else {
                    Some(now)
                },
                chunks: capped_sum(old(self).chunks, 1),
                samples: capped_sum(old(self).samples, samples),
                bytes: capped_sum(old(self).bytes, bytes),
            }),
    {
        self.chunks = self.chunks.saturating_add(1);
        self.samples = self.samples.saturating_add(samples);
        self.bytes = self.bytes.saturating_add(bytes);
        if self.first_audio_ts.is_none() {
            self.first_audio_ts = Some(now);
        }
    }
}

/// What a sink does with a chunk.
#[derive(Debug, Clone, Copy, PartialEq, Eq, Structural)]
pub enum SinkStep {
    /// The stream was cancelled.
    Refuse,
    /// There is nothing to send.
    Skip,
    Send,
}

/// Decides what a sink does with a chunk.
pub fn sink_step(samples: usize, cancelled: bool) -> (r: SinkStep)
    ensures
        r == if cancelled {
            SinkStep::Refuse
        } else if samples == 0 {
            SinkStep::Skip
        } else {
            SinkStep::Send
        },
{
    if cancelled {
        SinkStep::Refuse
    } else if samples == 0 {
        SinkStep::Skip
    } else {
        SinkStep::Send
    }
}

/// Whether the audio output fits the engine: 32 kHz, one channel.
pub fn check_output(sample_rate: u32, channels: u16) -> (r: Result<(), GptSovitsError>)
    ensures
        r == if sample_rate != 32_000 || channels != 1 {
            Err(GptSovitsError::WrongOutput)
        } else {
            Ok(())
        },
{
    if sample_rate != 32_000 || channels != 1 {
        return Err(GptSovitsError::WrongOutput);
    }
    Ok(())
}

/// Each file is looked for under its names, in their order, and is the first of them that is a
/// file. The two halves of the voice model are taken as soon as their first name or, after it, the
/// combined file is there.
pub proof fn law_where_the_files_are(disk: PathTable, base: Seq<char>)
    ensures
        ({
            let at = |name: Seq<char>| disk.joined(base, name);
            let combined = at("gpt_sovits_v2pro.cuda.pt"@);
            let t2s = GsvFile::T2s.path(disk, base);
            let vits = GsvFile::Vits.path(disk, base);
            &&& is_first(
                GsvFile::G2pEn.path(disk, base),
                disk,
                seq![at("mini-bart-g2p.pt"@), at("resource/mini-bart-g2p.pt"@)],
                PathKind::File,
            )
            &&& is_first(
                GsvFile::G2pw.path(disk, base),
                disk,
                seq![at("g2pw_model.pt"@), at("g2pw.pt"@)],
                PathKind::File,
            )
            &&& is_first(
                GsvFile::CnBert.path(disk, base),
                disk,
                seq![at("bert_model.pt"@), at("bert.pt"@)],
                PathKind::File,
            )
            &&& is_first(
                GsvFile::Ssl.path(disk, base),
                disk,
                seq![at("ssl_model.pt"@), at("ssl.pt"@), at("resource/ssl_model.pt"@)],
                PathKind::File,
            )
            &&& is_first(
                GsvFile::RefWav.path(disk, base),
                disk,
                seq![at("ref.wav"@), at("ref_32k.wav"@), at("ref32k.wav"@)],
                PathKind::File,
            )
            &&& is_first(
                GsvFile::RefText.path(disk, base),
                disk,
                seq![at("ref.txt"@)],
                PathKind::File,
            )
            &&& disk.has(at("t2s.pt"@)) ==> t2s == Some(at("t2s.pt"@))
            &&& !disk.has(at("t2s.pt"@)) && disk.has(combined) ==> t2s == Some(combined)
            &&& !disk.has(at("t2s.pt"@)) && !disk.has(combined) ==> is_first(
                t2s,
                disk,
                seq![at("t2s.pt"@), at("t2s.cpu.pt"@)],
                PathKind::File,
            )
            &&& disk.has(at("vits.pt"@)) ==> vits == Some(at("vits.pt"@))
            &&& !disk.has(at("vits.pt"@)) && disk.has(combined) ==> vits == Some(combined)
            &&& !disk.has(at("vits.pt"@)) && !disk.has(combined) ==> is_first(
                vits,
                disk,
                seq![at("vits.pt"@), at("vits.cpu.pt"@)],
                PathKind::File,
            )
        }),
{
    let at = |name: Seq<char>| disk.joined(base, name);
    law_first_of_kind(disk, below(disk, base, GsvFile::G2pEn.names()), PathKind::File);
    law_first_of_kind(disk, below(disk, base, GsvFile::G2pw.names()), PathKind::File);
    law_first_of_kind(disk, below(disk, base, GsvFile::CnBert.names()), PathKind::File);
    law_first_of_kind(disk, below(disk, base, GsvFile::Ssl.names()), PathKind::File);
    law_first_of_kind(disk, below(disk, base, GsvFile::RefWav.names()), PathKind::File);
    law_first_of_kind(disk, below(disk, base, GsvFile::RefText.names()), PathKind::File);
    law_first_of_kind(disk, below(disk, base, GsvFile::T2s.names()), PathKind::File);
    law_first_of_kind(disk, below(disk, base, GsvFile::Vits.names()), PathKind::File);
    assert(below(disk, base, GsvFile::G2pEn.names()) =~= seq![
        at("mini-bart-g2p.pt"@),
        at("resource/mini-bart-g2p.pt"@),
    ]);
    assert(below(disk, base, GsvFile::G2pw.names()) =~= seq![at("g2pw_model.pt"@), at("g2pw.pt"@)]);
    assert(below(disk, base, GsvFile::CnBert.names()) =~= seq![at("bert_model.pt"@), at("bert.pt"@)]);
    assert(below(disk, base, GsvFile::Ssl.names()) =~= seq![
        at("ssl_model.pt"@),
        at("ssl.pt"@),
        at("resource/ssl_model.pt"@),
    ]);
    assert(below(disk, base, GsvFile::RefWav.names()) =~= seq![
        at("ref.wav"@),
        at("ref_32k.wav"@),
        at("ref32k.wav"@),
    ]);
    assert(below(disk, base, GsvFile::RefText.names()) =~= seq![at("ref.txt"@)]);
    assert(below(disk, base, GsvFile::T2s.names()) =~= seq![at("t2s.pt"@), at("t2s.cpu.pt"@)]);
    assert(below(disk, base, GsvFile::Vits.names()) =~= seq![at("vits.pt"@), at("vits.cpu.pt"@)]);
}

/// The order in which the files are looked for.
pub open spec fn files_in_order() -> Seq<GsvFile> {
    seq![
        GsvFile::G2pEn,
        GsvFile::G2pw,
        GsvFile::CnBert,
        GsvFile::Ssl,
        GsvFile::T2s,
        GsvFile::Vits,
        GsvFile::RefWav,
        GsvFile::RefText,
    ]
}

/// Nothing is missing exactly where every file is there; else the first that is not there is
/// told: every file before it is.
pub proof fn law_first_missing_file(disk: PathTable, base: Seq<char>, k: int)
    requires
        0 <= k < files_in_order().len(),
    ensures
        first_missing(disk, base) is None <==> forall|i: int|
            0 <= i < files_in_order().len() ==> (#[trigger] files_in_order()[i]).path(disk, base)
                is Some,
        first_missing(disk, base) == Some(files_in_order()[k]) <==> files_in_order()[k].path(
            disk,
            base,
        ) is None && forall|i: int|
            0 <= i < k ==> (#[trigger] files_in_order()[i]).path(disk, base) is Some,
{
    let all = files_in_order();
    assert(all[0] == GsvFile::G2pEn && all[1] == GsvFile::G2pw && all[2] == GsvFile::CnBert
        && all[3] == GsvFile::Ssl && all[4] == GsvFile::T2s && all[5] == GsvFile::Vits && all[6]
        == GsvFile::RefWav && all[7] == GsvFile::RefText);
}

/// Each file that is missing is told by its own words.
pub proof fn law_missing_files_by_name(file: GsvFile, e: NotFound, disk: PathTable, base: Seq<char>)
    requires
        file.path(disk, base) is None,
        file.missing(e, disk, base),
    ensures
        e.label@ == match file {
            GsvFile::G2pEn => "g2p_en model (mini-bart-g2p)"@,
            GsvFile::G2pw => "g2pw model"@,
            GsvFile::CnBert => "cn_bert model"@,
            GsvFile::Ssl => "ssl model"@,
            GsvFile::T2s => "t2s model"@,
            GsvFile::Vits => "vits model"@,
            GsvFile::RefWav => "ref.wav"@,
            GsvFile::RefText => "ref.txt"@,
        },
        e.tried@.len() >= 1,
        file == GsvFile::T2s ==> e.tried@.len() == 2 && e.tried@[0]@ == disk.joined(base, "t2s.pt"@),
        file == GsvFile::Vits ==> e.tried@.len() == 2 && e.tried@[0]@ == disk.joined(
            base,
            "vits.pt"@,
        ),
{
    let names = file.names();
    assert(spelled(e.tried@).len() == e.tried@.len());
    assert(spelled(e.tried@)[0] == e.tried@[0]@);
    assert(below(disk, base, names)[0] == disk.joined(base, names[0]@));
}

/// A reference text starts behind its byte order marks, and has no white space round it.
pub proof fn law_reference_text_is_clean(rest: Seq<char>, marks: nat)
    requires
        rest.len() == 0 || rest[0] != '\u{feff}',
    ensures
        clean_text(Seq::new(marks, |i: int| '\u{feff}') + rest) == trimmed(rest),
    decreases marks,
{
    let mark = '\u{feff}';
    let all = Seq::new(marks, |i: int| '\u{feff}') + rest;
    if marks == 0 {
        assert(all =~= rest);
    } else {
        let fewer = (marks - 1) as nat;
        law_reference_text_is_clean(rest, fewer);
        assert(all.skip(1) =~= Seq::new(fewer, |i: int| '\u{feff}') + rest);
        assert(all[0] == mark);
    }
}

/// The settings of a configuration that nobody has changed.
pub proof fn law_default_settings(c: GptSovitsConfig)
    requires
        c.has_defaults(),
    ensures
        c.fp16 && !c.log_text_metrics && !c.jieba_bench,
        c.top_k == 15 && c.top_k_first == 12 && c.max_cut_token == 25,
        c.chunk_token_nums@.len() == 4,
        c.chunk_token_nums@[0] == 10 && c.chunk_token_nums@[1] == 25 && c.chunk_token_nums@[2] == 50
            && c.chunk_token_nums@[3] == 100,
        c.chunk_policy.dynamic,
        c.chunk_policy.short_chars == 12 && c.chunk_policy.mid_chars == 24,
        c.chunk_policy.short_tokens == 6 && c.chunk_policy.mid_tokens == 8,
        c.top_k_first <= c.top_k,
{
}

/// What the environment sets counts, brought into its range; what it does not set stays. The files
/// and the reference text are not touched.
pub proof fn law_settings_of_the_environment(
    c: GptSovitsConfig,
    before: GptSovitsConfig,
    vars: Map<Seq<char>, Seq<char>>,
    n: int,
)
    requires
        c.overridden(before, vars),
    ensures
        ({
            let number = |key: Seq<char>|
                env::signed_var(vars, key, i64::MIN as int, i64::MAX as int);
            &&& number("GSV_TOP_K"@) is None ==> c.top_k == before.top_k
            &&& number("GSV_TOP_K"@) == Some(n) ==> 1 <= c.top_k <= 50 && (1 <= n <= 50 ==> c.top_k
                == n)
            &&& number("GSV_FIRST_TOP_K"@) is None ==> c.top_k_first == before.top_k_first
            &&& number("GSV_FIRST_TOP_K"@) == Some(n) && c.top_k >= 1 ==> 1 <= c.top_k_first
                <= c.top_k && (1 <= n <= c.top_k ==> c.top_k_first == n)
            &&& number("GSV_FIRST_CHUNK_TOKENS"@) is None ==> c.chunk_token_nums@
                == before.chunk_token_nums@
            &&& number("GSV_FIRST_CHUNK_TOKENS"@) == Some(n) ==> c.chunk_token_nums@.len() >= 1
                && 3 <= c.chunk_token_nums@[0] <= 25 && (3 <= n <= 25 ==> c.chunk_token_nums@[0]
                == n) && forall|i: int|
                1 <= i < before.chunk_token_nums@.len() ==> #[trigger] c.chunk_token_nums@[i]
                    == before.chunk_token_nums@[i]
            &&& 25 <= c.max_cut_token <= 1024
            &&& number("GSV_MAX_CUT_TOKEN"@) == Some(n) && 25 <= n <= 1024 ==> c.max_cut_token == n
            &&& number("GSV_MAX_CUT_TOKEN"@) is None && 25 <= before.max_cut_token <= 1024
                ==> c.max_cut_token == before.max_cut_token
        }),
        c.fp16 == env::switch_setting(vars, "GSV_FP16"@, before.fp16),
        !c.log_text_metrics <==> !env::switch_setting(vars, "GSV_TEXT_METRICS"@, false)
            && !env::switch_setting(vars, "VOICE_TTS_METRICS"@, false) && !env::switch_setting(
            vars,
            "TTS_WORKER_METRICS"@,
            false,
        ),
        c.jieba_bench == env::switch_setting(vars, "GSV_JIEBA_BENCH"@, false),
        c.ref_wav_path == before.ref_wav_path,
        c.ref_text == before.ref_text,
        c.t2s_model_path == before.t2s_model_path,
        c.vits_model_path == before.vits_model_path,
        c.ssl_model_path == before.ssl_model_path,
        c.cn_bert_path == before.cn_bert_path,
        c.g2pw_path == before.g2pw_path,
        c.g2p_en_path == before.g2p_en_path,
{
}

/// The policy of the environment: what is not set is the default, a short text is no longer than
/// one in the middle as far as both are set, and first chunks have 3 to 25 tokens.
pub proof fn law_chunk_policy_of_the_environment(vars: Map<Seq<char>, Seq<char>>, n: nat)
    ensures
        ({
            let p = GptSovitsChunkPolicy::env_policy(vars);
            let number = |key: Seq<char>| env::unsigned_var(vars, key, usize::MAX as nat);
            let signed = |key: Seq<char>|
                env::signed_var(vars, key, i64::MIN as int, i64::MAX as int);
            &&& p.dynamic == env::switch_setting(vars, "GSV_FIRST_CHUNK_DYNAMIC"@, true)
            &&& number("GSV_FIRST_CHUNK_SHORT_CHARS"@) is None ==> p.short_chars == 12
            &&& number("GSV_FIRST_CHUNK_SHORT_CHARS"@) == Some(n) && 1 <= n <= 200 ==> p.short_chars
                == n
            &&& 1 <= p.short_chars <= 200
            &&& number("GSV_FIRST_CHUNK_MID_CHARS"@) is None ==> p.mid_chars == 24
            &&& number("GSV_FIRST_CHUNK_MID_CHARS"@) == Some(n) ==> p.short_chars <= p.mid_chars
                <= 400 && (p.short_chars <= n <= 400 ==> p.mid_chars == n)
            &&& signed("GSV_FIRST_CHUNK_SHORT_TOKENS"@) is None ==> p.short_tokens == 6
            &&& signed("GSV_FIRST_CHUNK_SHORT_TOKENS"@) == Some(n as int) && 3 <= n <= 25
                ==> p.short_tokens == n
            &&& 3 <= p.short_tokens <= 25
            &&& signed("GSV_FIRST_CHUNK_MID_TOKENS"@) is None ==> p.mid_tokens == 8
            &&& signed("GSV_FIRST_CHUNK_MID_TOKENS"@) == Some(n as int) && 3 <= n <= 25
                ==> p.mid_tokens == n
            &&& 3 <= p.mid_tokens <= 25
        }),
{
}

/// The first chunk of a text is as long as usual, unless the text is short or in the middle and
/// the policy allows fewer tokens for it: then it has as many. Without the policy nothing changes.
pub proof fn law_first_chunk_of_a_text(
    text_chars: nat,
    base: Seq<i64>,
    policy: GptSovitsChunkPolicy,
)
    requires
        base.len() > 0,
        3 <= base[0] <= 25,
    ensures
        ({
            let first = chunk_plan(text_chars, base, policy)[0];
            let short = text_chars <= policy.short_chars;
            let middle = !short && text_chars <= policy.mid_chars;
            &&& !policy.dynamic || (!short && !middle) ==> first == base[0]
            &&& policy.dynamic && short && policy.short_tokens < base[0] ==> first
                == policy.short_tokens
            &&& policy.dynamic && short && policy.short_tokens >= base[0] ==> first == base[0]
            &&& policy.dynamic && middle && policy.mid_tokens < base[0] ==> first
                == policy.mid_tokens
            &&& policy.dynamic && middle && policy.mid_tokens >= base[0] ==> first == base[0]
        }),
{
}

/// A list with another first number has that number first, and the others where they were.
pub proof fn law_other_first_number(nums: Seq<i64>, first: i64)
    ensures
        with_first(nums, first).len() >= 1,
        with_first(nums, first)[0] == first,
        nums.len() >= 1 ==> with_first(nums, first).len() == nums.len(),
        nums.len() == 0 ==> with_first(nums, first).len() == 1,
        forall|i: int| 1 <= i < nums.len() ==> #[trigger] with_first(nums, first)[i] == nums[i],
{
}

/// Why there is no GPT-SoVITS engine is said in these words.
pub proof fn law_gpt_sovits_errors_in_words(text: String)
    ensures
        (GptSovitsError::ReadFailed { path: text }).spec_message()
            == "Failed to read reference text: "@ + text@,
        GptSovitsError::WrongOutput.spec_message()
            == "GPT-SoVITS expects 32000Hz mono output; set AUDIO_SAMPLE_RATE=32000 and AUDIO_CHANNELS=1"@,
{
}

/// How much is played at once, and where the models are looked for, where nothing else is set.
pub proof fn law_gpt_sovits_defaults()
    ensures
        DEFAULT_PLAY_CHUNK_SAMPLES == 2048,
        DEFAULT_BASE_DIR@ == "v2pro"@,
{
}

/// A usual length out of its range counts as the nearest in it when it is held against what the
/// policy allows, and stays as it is where the policy allows as much.
pub proof fn law_unusual_first_chunk(
    text_chars: nat,
    base: Seq<i64>,
    policy: GptSovitsChunkPolicy,
)
    requires
        base.len() > 0,
        text_chars <= policy.short_chars,
        policy.dynamic,
    ensures
        ({
            let first = chunk_plan(text_chars, base, policy)[0];
            &&& base[0] > 25 && policy.short_tokens < 25 ==> first == policy.short_tokens
            &&& base[0] > 25 && policy.short_tokens >= 25 ==> first == base[0]
            &&& base[0] < 3 && policy.short_tokens < 3 ==> first == policy.short_tokens
            &&& base[0] < 3 && policy.short_tokens >= 3 ==> first == base[0]
        }),
{
}

/// Without numbers there is no plan, and without the policy none changes.
pub proof fn law_plan_that_nothing_changes(
    text_chars: nat,
    base: Seq<i64>,
    policy: GptSovitsChunkPolicy,
)
    ensures
        base.len() == 0 || !policy.dynamic ==> chunk_plan(text_chars, base, policy) == base,
        text_chars > policy.short_chars && text_chars > policy.mid_chars ==> chunk_plan(
            text_chars,
            base,
            policy,
        ) == base,
{
}

/// A stream asks for chunks until it is cancelled or they end; empty ones are passed over, and any
/// other is handed on; one that nobody takes is the last. The first of each is timed, once.
pub proof fn law_stream_of_chunks(stream: &InferLoop, cancelled: bool, step: InferStep)
    requires
        call_ensures(InferLoop::begin, (stream, cancelled), step),
    ensures
        step == InferStep::Stop <==> cancelled,
        step == InferStep::NextChunk <==> !cancelled,
        forall|l: &mut InferLoop, len: Option<usize>, r: (InferStep, bool)|
            #[trigger] call_ensures(InferLoop::on_chunk, (l, len), r) ==> {
                &&& r.0 == InferStep::Stop <==> len is None
                &&& r.0 == InferStep::NextChunk <==> len == Some(0usize)
                &&& r.0 == InferStep::Deliver <==> len is Some && len->0 > 0
                &&& r.1 <==> len is Some && (*l).log_metrics && !(*l).first_chunk_gen_logged
                &&& r.1 ==> (*final(l)).first_chunk_gen_logged
                &&& !r.1 ==> *final(l) == *l
                &&& (*final(l)).first_chunk_io_logged == (*l).first_chunk_io_logged
            },
        forall|l: &mut InferLoop, accepted: bool, r: (InferStep, bool)|
            #[trigger] call_ensures(InferLoop::on_delivered, (l, accepted), r) ==> {
                &&& r.0 == InferStep::NextChunk <==> accepted
                &&& r.0 == InferStep::Stop <==> !accepted
                &&& r.1 <==> accepted && (*l).log_metrics && !(*l).first_chunk_io_logged
                &&& r.1 ==> (*final(l)).first_chunk_io_logged
                &&& !r.1 ==> *final(l) == *l
                &&& (*final(l)).first_chunk_gen_logged == (*l).first_chunk_gen_logged
            },
{
}

/// The first text since the start or the last stop is told as such, once.
pub proof fn law_first_text_is_told_once()
    ensures
        forall|f: &mut FirstCall, r: bool|
            #[trigger] call_ensures(FirstCall::take, (f,), r) ==> r == (*f).first && !(*final(f)).first,
        forall|f: &mut FirstCall, r: ()|
            #[trigger] call_ensures(FirstCall::reset, (f,), r) ==> (*final(f)).first,
{
}

/// The first text is decoded with its own number of candidates, every other with the usual one.
pub proof fn law_candidates_of_a_text(config: &GptSovitsConfig, is_first: bool, r: i64)
    requires
        call_ensures(top_k_for, (config, is_first), r),
    ensures
        is_first ==> r == config.top_k_first,
        !is_first ==> r == config.top_k,
{
}

/// A cancelled stream takes nothing, an empty chunk is not sent, and every other is.
pub proof fn law_what_a_sink_does(samples: usize, cancelled: bool, r: SinkStep)
    requires
        call_ensures(sink_step, (samples, cancelled), r),
    ensures
        r == SinkStep::Refuse <==> cancelled,
        r == SinkStep::Skip <==> !cancelled && samples == 0,
        r == SinkStep::Send <==> !cancelled && samples > 0,
{
}

/// Only an output of 32 kHz and one channel fits.
pub proof fn law_output_that_fits(sample_rate: u32, channels: u16, r: Result<(), GptSovitsError>)
    requires
        call_ensures(check_output, (sample_rate, channels), r),
    ensures
        r is Ok <==> sample_rate == 32_000 && channels == 1,
        r is Err ==> r matches Err(GptSovitsError::WrongOutput),
{
}

/// Every chunk that is sent is counted, and the time of the first one stays.
pub proof fn law_what_was_sent_is_counted()
    ensures
        forall|s: &mut Pcm16StreamStats, samples: u64, bytes: u64, now: Timestamp, r: ()|
            #[trigger] call_ensures(Pcm16StreamStats::on_sent, (s, samples, bytes, now), r) ==> {
                &&& (*s).chunks < u64::MAX ==> (*final(s)).chunks == (*s).chunks + 1
                &&& (*s).samples + samples <= u64::MAX ==> (*final(s)).samples == (*s).samples
                    + samples
                &&& (*s).bytes + bytes <= u64::MAX ==> (*final(s)).bytes == (*s).bytes + bytes
                &&& (*s).first_audio_ts is Some ==> (*final(s)).first_audio_ts
                    == (*s).first_audio_ts
                &&& (*s).first_audio_ts is None ==> (*final(s)).first_audio_ts == Some(now)
            },
{
}

/// A configuration of a directory has each file in its place, and the text of the reference file
/// without its byte order marks and the white space round it.
pub proof fn law_files_of_a_configuration(c: GptSovitsConfig, disk: PathTable, base: Seq<char>)
    requires
        c.has_files(disk, base),
    ensures
        first_missing(disk, base) is None,
        GsvFile::G2pEn.path(disk, base) == Some(c.g2p_en_path@),
        GsvFile::G2pw.path(disk, base) == Some(c.g2pw_path@),
        GsvFile::CnBert.path(disk, base) == Some(c.cn_bert_path@),
        GsvFile::Ssl.path(disk, base) == Some(c.ssl_model_path@),
        GsvFile::T2s.path(disk, base) == Some(c.t2s_model_path@),
        GsvFile::Vits.path(disk, base) == Some(c.vits_model_path@),
        GsvFile::RefWav.path(disk, base) == Some(c.ref_wav_path@),
        GsvFile::RefText.path(disk, base) is Some,
        ({
            let text = disk.text(GsvFile::RefText.path(disk, base)->0);
            text is Some && c.ref_text@ == clean_text(text->0)
        }),
{
}

} // verus!
