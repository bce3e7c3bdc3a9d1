//! Text-to-speech engines.

use crate::internal::env::{self, EnvVars};
use crate::text::{lowercase, same, lowercased};
use crate::time::Timestamp;
use vstd::prelude::*;
use vstd::string::*;

pub mod gpt_sovits;
pub mod gpt_sovits_onnx;
pub mod os;
pub mod remote;

verus! {

/// When one piece of speech was generated and played.
#[derive(Debug, Clone, Copy, PartialEq, Eq, Structural)]
pub struct TtsMetrics {
    /// When generation started.
    pub start_ts: Timestamp,
    /// When the first audio sample was there, where the engine streams.
    pub first_audio_ts: Option<Timestamp>,
    /// When generation was done.
    pub gen_done_ts: Timestamp,
    /// When playback is done, as far as known by now.
    pub play_done_ts: Timestamp,
    /// Whether the actual end of playback is reported later.
    pub play_done_reported: bool,
}

/// Audio synthesized ahead of its playback, in samples of type `S`.
#[derive(Debug)]
pub struct SynthesizedAudio<S> {
    pub samples: Vec<S>,
    pub start_ts: Timestamp,
    pub gen_done_ts: Timestamp,
}

/// An engine that can be asked for by name.
#[derive(Debug, Clone, Copy, PartialEq, Eq, Structural)]
pub enum EngineKind {
    Os,
    GptSovits,
    GptSovitsOnnx,
    Remote,
}

/// The engine of a lower-case name.
pub open spec fn engine_of(key: Seq<char>) -> Option<EngineKind> {
    if key == "os"@ {
        Some(EngineKind::Os)
    } else if key == "gpt-sovits"@ {
        Some(EngineKind::GptSovits)
    } else if key == "gpt-sovits-onnx"@ {
        Some(EngineKind::GptSovitsOnnx)
    } else if key == "remote"@ {
        Some(EngineKind::Remote)
    } else {
        None
    }
}

/// The engine of a lower-case name.
pub fn engine_from_key(key: &str) -> (r: Option<EngineKind>)
    ensures
        r == engine_of(key@),
{
    if same(key, "os") {
        Some(EngineKind::Os)
    } else if same(key, "gpt-sovits") {
        Some(EngineKind::GptSovits)
    } else if same(key, "gpt-sovits-onnx") {
        Some(EngineKind::GptSovitsOnnx)
    } else if same(key, "remote") {
        Some(EngineKind::Remote)
    } else {
        None
    }
}

/// Which engines this build holds.
#[derive(Debug, Clone, Copy, PartialEq, Eq, Structural)]
pub struct BuiltIn {
    pub gpt_sovits: bool,
    pub gpt_sovits_onnx: bool,
    pub remote: bool,
}

/// Why there is no engine.
#[derive(Debug)]
pub enum EngineError {
    Unknown { name: String },
    /// The engine was left out of this build.
    GptSovitsMissing,
    GptSovitsOnnxMissing,
    RemoteMissing,
    /// The engine needs an audio output.
    GptSovitsNeedsAudio,
    GptSovitsOnnxNeedsAudio,
}

impl EngineError {
    /// The error in words.
    pub open spec fn spec_message(&self) -> Seq<char> {
        match self {
            EngineError::Unknown { name } => "Unknown TTS_BACKEND: "@ + name@,
            EngineError::GptSovitsMissing =>
                "TTS_BACKEND=gpt-sovits requires Windows and the `gpt-sovits` feature (use `--features gpt-sovits` or `--all-features`)"@,
            EngineError::GptSovitsOnnxMissing =>
                "TTS_BACKEND=gpt-sovits-onnx requires the `gpt-sovits-onnx` feature (use `--features gpt-sovits-onnx` or `--all-features`)"@,
            EngineError::RemoteMissing =>
                "TTS_BACKEND=remote requires the `tts-remote` feature (enable `--features tts-remote`)"@,
            EngineError::GptSovitsNeedsAudio => "GptSovits backend requires an AudioBackend"@,
            EngineError::GptSovitsOnnxNeedsAudio =>
                "GptSovitsOnnx backend requires an AudioBackend"@,
        }
    }

    /// The error in words.
    pub fn message(&self) -> (r: String)
        ensures
            r@ == self.spec_message(),
    {
        match self {
            EngineError::Unknown { name } => {
                let mut out = "Unknown TTS_BACKEND: ".to_string();
                out.append(name.as_str());
                out
            },
            EngineError::GptSovitsMissing =>
                "TTS_BACKEND=gpt-sovits requires Windows and the `gpt-sovits` feature (use `--features gpt-sovits` or `--all-features`)".to_string(),
            EngineError::GptSovitsOnnxMissing =>
                "TTS_BACKEND=gpt-sovits-onnx requires the `gpt-sovits-onnx` feature (use `--features gpt-sovits-onnx` or `--all-features`)".to_string(),
            EngineError::RemoteMissing =>
                "TTS_BACKEND=remote requires the `tts-remote` feature (enable `--features tts-remote`)".to_string(),
            EngineError::GptSovitsNeedsAudio =>
                "GptSovits backend requires an AudioBackend".to_string(),
            EngineError::GptSovitsOnnxNeedsAudio =>
                "GptSovitsOnnx backend requires an AudioBackend".to_string(),
        }
    }
}

/// The engine where none is set.
pub open spec fn default_name(built_in: BuiltIn) -> Seq<char> {
    if built_in.gpt_sovits {
        "gpt-sovits"@
    } else {
        "os"@
    }
}

/// The engine where none is set.
pub fn default_backend(built_in: BuiltIn) -> (r: &'static str)
    ensures
        r@ == default_name(built_in),
{
    if built_in.gpt_sovits {
        "gpt-sovits"
    } else {
        "os"
    }
}

/// Whether this build holds an engine.
pub open spec fn available(kind: EngineKind, built_in: BuiltIn) -> Result<EngineKind, EngineError> {
    match kind {
        EngineKind::Os => Ok(kind),
        EngineKind::GptSovits => if built_in.gpt_sovits {
            Ok(kind)
        } else {
            Err(EngineError::GptSovitsMissing)
        },
        EngineKind::GptSovitsOnnx => if built_in.gpt_sovits_onnx {
            Ok(kind)
        } else {
            Err(EngineError::GptSovitsOnnxMissing)
        },
        EngineKind::Remote => if built_in.remote {
            Ok(kind)
        } else {
            Err(EngineError::RemoteMissing)
        },
    }
}

/// Whether this build holds an engine.
pub fn check_available(kind: EngineKind, built_in: BuiltIn) -> (r: Result<EngineKind, EngineError>)
    ensures
        r == available(kind, built_in),
{
    match kind {
        EngineKind::Os => Ok(kind),
        EngineKind::GptSovits => if built_in.gpt_sovits {
            Ok(kind)
        } else {
            Err(EngineError::GptSovitsMissing)
        },
        EngineKind::GptSovitsOnnx => if built_in.gpt_sovits_onnx {
            Ok(kind)
        } else {
            Err(EngineError::GptSovitsOnnxMissing)
        },
        EngineKind::Remote => if built_in.remote {
            Ok(kind)
        } else {
            Err(EngineError::RemoteMissing)
        },
    }
}

/// The lower-case name under `TTS_BACKEND`, or that of the default engine.
pub open spec fn env_engine_key(vars: Map<Seq<char>, Seq<char>>, built_in: BuiltIn) -> Seq<char> {
    match env::var_of(vars, "TTS_BACKEND"@) {
        Some(name) => lowercased(name),
        None => default_name(built_in),
    }
}

/// Decides which engine the environment asks for.
pub fn build_from_env(vars: &EnvVars, built_in: BuiltIn) -> (r: Result<EngineKind, EngineError>)
    ensures
        ({
            let key = env_engine_key(vars@, built_in);
            match engine_of(key) {
                Some(kind) => r == available(kind, built_in),
                None => r matches Err(EngineError::Unknown { name }) && name@ == key,
            }
        }),
{
    let key = match vars.get("TTS_BACKEND") {
        Some(name) => lowercase(name.as_str()),
        None => default_backend(built_in).to_string(),
    };
    match engine_from_key(key.as_str()) {
        Some(kind) => check_available(kind, built_in),
        None => Err(EngineError::Unknown { name: key }),
    }
}

/// TTS backend selection for the builder API.
#[derive(Debug)]
pub enum TtsBackend {
    Os,
    Remote,
    GptSovits(gpt_sovits::GptSovitsConfig),
    GptSovitsOnnx(gpt_sovits_onnx::GptSovitsOnnxConfig),
}

/// The engine of a backend.
pub open spec fn kind_of(backend: TtsBackend) -> EngineKind {
    match backend {
        TtsBackend::Os => EngineKind::Os,
        TtsBackend::Remote => EngineKind::Remote,
        TtsBackend::GptSovits(_) => EngineKind::GptSovits,
        TtsBackend::GptSovitsOnnx(_) => EngineKind::GptSovitsOnnx,
    }
}

/// Builder for an engine, with its backend and whether it has an audio output.
#[derive(Debug)]
pub struct TtsEngineBuilder {
    backend: TtsBackend,
    audio: bool,
}

impl TtsEngineBuilder {
    /// The backend to build.
    pub closed spec fn spec_backend(&self) -> TtsBackend {
        self.backend
    }

    /// Whether there is an audio output.
    pub closed spec fn has_audio(&self) -> bool {
        self.audio
    }

    /// A builder without an audio output.
    pub fn new(backend: TtsBackend) -> (r: Self)
        ensures
            r.spec_backend() == backend,
            !r.has_audio(),
    {
        TtsEngineBuilder { backend, audio: false }
    }

    /// Gives the engine an audio output.
    pub fn audio_backend(self) -> (r: Self)
        ensures
            r.spec_backend() == self.spec_backend(),
            r.has_audio(),
    {
        TtsEngineBuilder { backend: self.backend, audio: true }
    }

    /// The backend to build, which this build has to hold; the two that play audio themselves
    /// need an output.
    pub fn build(self, built_in: BuiltIn) -> (r: Result<TtsBackend, EngineError>)
        ensures
            r == match available(kind_of(self.spec_backend()), built_in) {
                Err(e) => Err(e),
                Ok(_) => match self.spec_backend() {
                    TtsBackend::GptSovits(_) if !self.has_audio() => Err(
                        EngineError::GptSovitsNeedsAudio,
                    ),
                    TtsBackend::GptSovitsOnnx(_) if !self.has_audio() => Err(
                        EngineError::GptSovitsOnnxNeedsAudio,
                    ),
                    backend => Ok(backend),
                },
            },
    {
        match self.backend {
            TtsBackend::Os => Ok(TtsBackend::Os),
            TtsBackend::Remote => match check_available(EngineKind::Remote, built_in) {
                Ok(_) => Ok(TtsBackend::Remote),
                Err(e) => Err(e),
            },
            TtsBackend::GptSovits(config) => match check_available(
                EngineKind::GptSovits,
                built_in,
            ) {
                Ok(_) => if self.audio {
                    Ok(TtsBackend::GptSovits(config))
                } else {
                    Err(EngineError::GptSovitsNeedsAudio)
                },
                Err(e) => Err(e),
            },
            TtsBackend::GptSovitsOnnx(config) => match check_available(
                EngineKind::GptSovitsOnnx,
                built_in,
            ) {
                Ok(_) => if self.audio {
                    Ok(TtsBackend::GptSovitsOnnx(config))
                } else {
                    Err(EngineError::GptSovitsOnnxNeedsAudio)
                },
                Err(e) => Err(e),
            },
        }
    }
}

/// Each engine has its name, and no other word names one.
pub proof fn law_engines_by_name(word: Seq<char>)
    ensures
        engine_of(word) == Some(EngineKind::Os) <==> word == "os"@,
        engine_of(word) == Some(EngineKind::GptSovits) <==> word == "gpt-sovits"@,
        engine_of(word) == Some(EngineKind::GptSovitsOnnx) <==> word == "gpt-sovits-onnx"@,
        engine_of(word) == Some(EngineKind::Remote) <==> word == "remote"@,
{
    reveal_strlit("os");
    reveal_strlit("gpt-sovits");
    reveal_strlit("gpt-sovits-onnx");
    reveal_strlit("remote");
    assert("os"@.len() == 2 && "gpt-sovits"@.len() == 10 && "gpt-sovits-onnx"@.len() == 15
        && "remote"@.len() == 6);
}

/// The engine of the operating system is always there; any other is there exactly where the build
/// holds it, and its own error says so where not.
pub proof fn law_engines_that_are_there(kind: EngineKind, built_in: BuiltIn)
    ensures
        available(kind, built_in) is Ok <==> match kind {
            EngineKind::Os => true,
            EngineKind::GptSovits => built_in.gpt_sovits,
            EngineKind::GptSovitsOnnx => built_in.gpt_sovits_onnx,
            EngineKind::Remote => built_in.remote,
        },
        available(kind, built_in) matches Ok(k) ==> k == kind,
        available(kind, built_in) matches Err(EngineError::GptSovitsMissing) <==> kind
            == EngineKind::GptSovits && !built_in.gpt_sovits,
        available(kind, built_in) matches Err(EngineError::GptSovitsOnnxMissing) <==> kind
            == EngineKind::GptSovitsOnnx && !built_in.gpt_sovits_onnx,
        available(kind, built_in) matches Err(EngineError::RemoteMissing) <==> kind
            == EngineKind::Remote && !built_in.remote,
{
}

/// The engine where none is set is one that the build holds: GPT-SoVITS where it is there, else
/// that of the operating system. A name that is set counts instead, whatever its case.
pub proof fn law_default_engine(vars: Map<Seq<char>, Seq<char>>, built_in: BuiltIn)
    ensures
        built_in.gpt_sovits ==> engine_of(default_name(built_in)) == Some(EngineKind::GptSovits),
        !built_in.gpt_sovits ==> engine_of(default_name(built_in)) == Some(EngineKind::Os),
        available(engine_of(default_name(built_in))->0, built_in) is Ok,
        !vars.dom().contains("TTS_BACKEND"@) ==> env_engine_key(vars, built_in) == default_name(
            built_in,
        ),
        vars.dom().contains("TTS_BACKEND"@) ==> env_engine_key(vars, built_in) == lowercased(
            vars["TTS_BACKEND"@],
        ),
{
    law_engines_by_name(default_name(built_in));
}

/// A backend is built by the engine of its name.
pub proof fn law_engine_of_a_backend(backend: TtsBackend)
    ensures
        kind_of(backend) == EngineKind::Os <==> backend is Os,
        kind_of(backend) == EngineKind::Remote <==> backend is Remote,
        kind_of(backend) == EngineKind::GptSovits <==> backend is GptSovits,
        kind_of(backend) == EngineKind::GptSovitsOnnx <==> backend is GptSovitsOnnx,
{
}

/// Why there is no engine is said in these words.
pub proof fn law_engine_errors_in_words(text: String)
    ensures
        (EngineError::Unknown { name: text }).spec_message() == "Unknown TTS_BACKEND: "@ + text@,
        EngineError::GptSovitsMissing.spec_message()
            == "TTS_BACKEND=gpt-sovits requires Windows and the `gpt-sovits` feature (use `--features gpt-sovits` or `--all-features`)"@,
        EngineError::GptSovitsOnnxMissing.spec_message()
            == "TTS_BACKEND=gpt-sovits-onnx requires the `gpt-sovits-onnx` feature (use `--features gpt-sovits-onnx` or `--all-features`)"@,
        EngineError::RemoteMissing.spec_message()
            == "TTS_BACKEND=remote requires the `tts-remote` feature (enable `--features tts-remote`)"@,
        EngineError::GptSovitsNeedsAudio.spec_message()
            == "GptSovits backend requires an AudioBackend"@,
        EngineError::GptSovitsOnnxNeedsAudio.spec_message()
            == "GptSovitsOnnx backend requires an AudioBackend"@,
{
}

/// A backend is built exactly where the build holds its engine and it has the audio output that it
/// needs: the two GPT-SoVITS engines need one.
pub proof fn law_backends_that_are_built(
    builder: TtsEngineBuilder,
    built_in: BuiltIn,
    r: Result<TtsBackend, EngineError>,
)
    requires
        call_ensures(TtsEngineBuilder::build, (builder, built_in), r),
    ensures
        ({
            let backend = builder.spec_backend();
            &&& r matches Ok(b) ==> b == backend
            &&& backend is Os ==> r is Ok
            &&& backend is Remote ==> (r is Ok <==> built_in.remote)
            &&& backend is GptSovits ==> (r is Ok <==> built_in.gpt_sovits && builder.has_audio())
            &&& backend is GptSovitsOnnx ==> (r is Ok <==> built_in.gpt_sovits_onnx
                && builder.has_audio())
            &&& (r matches Err(EngineError::GptSovitsNeedsAudio)) <==> backend is GptSovits
                && built_in.gpt_sovits && !builder.has_audio()
            &&& (r matches Err(EngineError::GptSovitsOnnxNeedsAudio)) <==> backend is GptSovitsOnnx
                && built_in.gpt_sovits_onnx && !builder.has_audio()
        }),
{
}

/// The engine that the environment asks for is the one of its name, or of the default one; a name
/// that is none is told.
pub proof fn law_engine_of_the_environment(
    vars: &EnvVars,
    built_in: BuiltIn,
    r: Result<EngineKind, EngineError>,
)
    requires
        call_ensures(build_from_env, (vars, built_in), r),
    ensures
        !vars@.dom().contains("TTS_BACKEND"@) && built_in.gpt_sovits ==> r matches Ok(
            EngineKind::GptSovits,
        ),
        !vars@.dom().contains("TTS_BACKEND"@) && !built_in.gpt_sovits ==> r matches Ok(
            EngineKind::Os,
        ),
        vars@.dom().contains("TTS_BACKEND"@) ==> {
            let name = lowercased(vars@["TTS_BACKEND"@]);
            &&& name == "os"@ ==> (r matches Ok(EngineKind::Os))
            &&& name == "gpt-sovits"@ && built_in.gpt_sovits ==> (r matches Ok(
                EngineKind::GptSovits,
            ))
            &&& name == "gpt-sovits-onnx"@ && built_in.gpt_sovits_onnx ==> (r matches Ok(
                EngineKind::GptSovitsOnnx,
            ))
            &&& name == "remote"@ && built_in.remote ==> (r matches Ok(EngineKind::Remote))
            &&& name != "os"@ && name != "gpt-sovits"@ && name != "gpt-sovits-onnx"@ && name
                != "remote"@ ==> (r matches Err(EngineError::Unknown { name: n }) && n@ == name)
        },
{
    law_default_engine(vars@, built_in);
    law_engines_by_name(env_engine_key(vars@, built_in));
}

} // verus!
