//! Speech from a server.

use crate::asr::utils::{sample_from_le, sample_of, samples_of};
use crate::internal::env::{self, EnvVars};
use crate::internal::models::opt_text;
use crate::number::{append_number, decimal};
use crate::remote_tts_protocol::SpeechRequest;
use crate::text::{drop_trailing, ends_with, trim, trimmed, without_trailing};
use vstd::prelude::*;
use vstd::slice::*;
use vstd::string::*;

verus! {

/// The value of the first of two variables that is set and not blank.
pub open spec fn either_text(
    vars: Map<Seq<char>, Seq<char>>,
    key: Seq<char>,
    other: Seq<char>,
) -> Option<Seq<char>> {
    match env::text_var(vars, key) {
        Some(value) => Some(value),
        None => env::text_var(vars, other),
    }
}

/// The value of the first of two variables that is set and not blank.
fn either_string(vars: &EnvVars, key: &str, other: &str) -> (r: Option<String>)
    ensures
        opt_text(r) == either_text(vars@, key@, other@),
{
    match env::string(vars, key) {
        Some(value) => Some(value),
        None => env::string(vars, other),
    }
}

/// The value, or a default.
pub open spec fn text_or(value: Option<Seq<char>>, default: Seq<char>) -> Seq<char> {
    match value {
        Some(v) => v,
        None => default,
    }
}

/// Where a server takes requests, given its address with or without the path.
pub open spec fn endpoint_of(base_url: Seq<char>) -> Seq<char> {
    let base = without_trailing(base_url, '/');
    if "/v1/audio/speech"@.is_suffix_of(base) {
        trimmed(base_url)
    } else {
        base + "/v1/audio/speech"@
    }
}

/// Where a server takes requests, given its address with or without the path.
pub fn speech_endpoint(base_url: &str) -> (r: String)
    ensures
        r@ == endpoint_of(base_url@),
{
    let base = drop_trailing(base_url, '/');
    if ends_with(base.as_str(), "/v1/audio/speech") {
        trim(base_url)
    } else {
        base.concat("/v1/audio/speech")
    }
}

/// How a server is reached.
#[derive(Debug)]
pub struct RemoteSettings {
    pub endpoint: String,
    pub api_key: Option<String>,
    pub model: String,
    pub voice: String,
}

/// Why there is no remote speech.
#[derive(Debug)]
pub enum RemoteError {
    /// The output is not 32 kHz mono.
    WrongOutput,
    /// The server refused.
    Status { status: u16, body: String },
}

impl RemoteError {
    /// The error in words.
    pub open spec fn spec_message(&self) -> Seq<char> {
        match self {
            RemoteError::WrongOutput =>
                "Remote TTS currently expects 32000Hz mono output; set AUDIO_SAMPLE_RATE=32000 and AUDIO_CHANNELS=1"@,
            RemoteError::Status { status, body } => "Remote TTS failed (status="@ + decimal(
                *status as nat,
            ) + "): "@ + body@,
        }
    }

    /// The error in words.
    pub fn message(&self) -> (r: String)
        ensures
            r@ == self.spec_message(),
    {
        match self {
            RemoteError::WrongOutput =>
                "Remote TTS currently expects 32000Hz mono output; set AUDIO_SAMPLE_RATE=32000 and AUDIO_CHANNELS=1".to_string(),
            RemoteError::Status { status, body } => {
                let mut out = "Remote TTS failed (status=".to_string();
                append_number(&mut out, *status as u64);
                out.append("): ");
                out.append(body.as_str());
                out
            },
        }
    }
}

impl RemoteSettings {
    /// Reads the settings from the environment.
    pub fn from_env(vars: &EnvVars) -> (r: Self)
        ensures
            r.endpoint@ == endpoint_of(
                text_or(
                    either_text(vars@, "TTS_REMOTE_BASE_URL"@, "TTS_REMOTE_URL"@),
                    "http://127.0.0.1:7878"@,
                ),
            ),
            opt_text(r.api_key) == either_text(vars@, "TTS_REMOTE_API_KEY"@, "TTS_API_KEY"@),
            r.model@ == text_or(
                either_text(vars@, "TTS_REMOTE_MODEL"@, "TTS_MODEL"@),
                "gpt-sovits"@,
            ),
            r.voice@ == text_or(
                either_text(vars@, "TTS_REMOTE_VOICE"@, "TTS_VOICE"@),
                "default"@,
            ),
    {
        let base_url = match either_string(vars, "TTS_REMOTE_BASE_URL", "TTS_REMOTE_URL") {
            Some(url) => url,
            None => "http://127.0.0.1:7878".to_string(),
        };
        let endpoint = speech_endpoint(base_url.as_str());
        let api_key = either_string(vars, "TTS_REMOTE_API_KEY", "TTS_API_KEY");
        let model = match either_string(vars, "TTS_REMOTE_MODEL", "TTS_MODEL") {
            Some(model) => model,
            None => "gpt-sovits".to_string(),
        };
        let voice = match either_string(vars, "TTS_REMOTE_VOICE", "TTS_VOICE") {
            Some(voice) => voice,
            None => "default".to_string(),
        };
        RemoteSettings { endpoint, api_key, model, voice }
    }

    /// The request for a text, for an output of 32 kHz and one channel.
    pub fn request(&self, text: &str, sample_rate: u32, channels: u16) -> (r: Result<
        SpeechRequest,
        RemoteError,
    >)
        ensures
            if sample_rate != 32_000 || channels != 1 {
                r == Err::<SpeechRequest, _>(RemoteError::WrongOutput)
            } else {
                &&& r matches Ok(q)
                &&& q.model == self.model
                &&& q.input@ == text@
                &&& q.voice == self.voice
                &&& q.response_format@ == "pcm16"@
                &&& q.stream
                &&& q.sample_rate == Some(sample_rate)
                &&& q.channels == Some(channels)
            },
    {
        if sample_rate != 32_000 || channels != 1 {
            return Err(RemoteError::WrongOutput);
        }
        Ok(
            SpeechRequest {
                model: self.model.clone(),
                input: text.to_string(),
                voice: self.voice.clone(),
                response_format: "pcm16".to_string(),
                stream: true,
                sample_rate: Some(sample_rate),
                channels: Some(channels),
            },
        )
    }
}

/// Whether a reply brings audio; else its body is the error.
pub fn check_status(status: u16, body: String) -> (r: Result<(), RemoteError>)
    ensures
        r == if 200 <= status < 300 {
            Ok(())
        } else {
            Err(RemoteError::Status { status, body })
        },
{
    if 200 <= status && status < 300 {
        Ok(())
    } else {
        Err(RemoteError::Status { status, body })
    }
}

/// A byte that waits for its partner, and bytes behind it.
pub open spec fn behind(pending: Option<u8>, bytes: Seq<u8>) -> Seq<u8> {
    match pending {
        Some(low) => seq![low] + bytes,
        None => bytes,
    }
}

/// The byte without a partner, if there is one.
pub open spec fn left_over(bytes: Seq<u8>) -> Option<u8> {
    if bytes.len() % 2 == 1 {
        Some(bytes.last())
    } else {
        None
    }
}

/// Decodes bytes to samples; the first half of a sample waits in `pending_lo` for the second.
pub fn decode_pcm16le(input: &[u8], pending_lo: &mut Option<u8>, out: &mut Vec<i16>)
    ensures
        final(out)@ == old(out)@ + samples_of(behind(*old(pending_lo), input@)),
        *final(pending_lo) == left_over(behind(*old(pending_lo), input@)),
{
    let ghost all = behind(*pending_lo, input@);
    let ghost had = out@;
    let ghost shift: int = if *pending_lo is Some {
        1
    } else {
        0
    };
    let len: usize = input.len();
    let mut i: usize = 0;
    if let Some(lo) = *pending_lo {
        if len == 0 {
            proof {
                assert(had + samples_of(all) =~= had);
            }
            return ;
        }
        *pending_lo = None;
        out.push(sample_from_le(lo, input[0]));
        i = 1;
        proof {
            assert(all[0] == lo && all[1] == input@[0]);
        }
    }
    while i < len && len - i >= 2
        invariant
            shift == 0 || shift == 1,
            len == input@.len(),
            i <= len,
            all.len() == len + shift,
            forall|k: int| 0 <= k < len ==> #[trigger] input@[k] == all[k + shift],
            (i + shift) % 2 == 0,
            out@.len() == had.len() + (i + shift) / 2,
            forall|k: int| 0 <= k < had.len() ==> #[trigger] out@[k] == had[k],
            forall|k: int|
                had.len() <= k < out@.len() ==> #[trigger] out@[k] == sample_of(
                    all[2 * (k - had.len())],
                    all[2 * (k - had.len()) + 1],
                ),
            *pending_lo is None,
        decreases len - i,
    {
        let ghost before = out@;
        out.push(sample_from_le(input[i], input[i + 1]));
        proof {
            assert(input@[i as int] == all[i + shift]);
            assert(input@[i + 1] == all[i + 1 + shift]);
            assert(2 * (before.len() - had.len()) == i + shift);
        }
        i += 2;
    }
    if i < len {
        *pending_lo = Some(input[i]);
        proof {
            assert(input@[i as int] == all[i + shift]);
        }
    }
    proof {
        assert(out@ =~= had + samples_of(all));
    }
}

/// How bytes are cut into chunks does not matter: the samples of one chunk followed by those of
/// the next are those of both, and so is what waits.
pub proof fn law_chunks_do_not_matter(pending: Option<u8>, a: Seq<u8>, b: Seq<u8>)
    ensures
        ({
            let first = behind(pending, a);
            let second = behind(left_over(first), b);
            let whole = behind(pending, a + b);
            &&& samples_of(first) + samples_of(second) == samples_of(whole)
            &&& left_over(second) == left_over(whole)
        }),
{
    let first = behind(pending, a);
    let second = behind(left_over(first), b);
    let whole = behind(pending, a + b);
    assert(whole =~= first + b);
    let n = (first.len() / 2) as int;
    assert(second =~= whole.skip(2 * n));
    assert forall|i: int| 0 <= i < samples_of(whole).len() implies (samples_of(first) + samples_of(
        second,
    ))[i] == #[trigger] samples_of(whole)[i] by {
        if i >= n {
            assert(second[2 * (i - n)] == whole[2 * i]);
            assert(second[2 * (i - n) + 1] == whole[2 * i + 1]);
        }
    }
    assert(samples_of(first) + samples_of(second) =~= samples_of(whole));
}

/// What to do with a chunk of a reply.
#[derive(Debug)]
pub enum RemoteStep {
    /// The reply is no longer wanted.
    Stop,
    /// There is nothing to play yet.
    Skip,
    Play(Vec<i16>),
}

/// Takes a reply chunk by chunk.
#[derive(Debug)]
pub struct RemoteStream {
    pub pending_lo: Option<u8>,
}

impl RemoteStream {
    /// A reply before its first chunk.
    pub fn new() -> (r: Self)
        ensures
            r.pending_lo is None,
    {
        RemoteStream { pending_lo: None }
    }

    /// Takes a chunk in.
    pub fn on_chunk(&mut self, chunk: &[u8], cancelled: bool) -> (r: RemoteStep)
        ensures
            ({
                let all = behind(old(self).pending_lo, chunk@);
                if cancelled {
                    r is Stop && final(self).pending_lo == old(self).pending_lo
                } else {
                    &&& final(self).pending_lo == left_over(all)
                    &&& if chunk@.len() == 0 || all.len() < 2 {
                        r is Skip
                    } else {
                        r matches RemoteStep::Play(samples) && samples@ == samples_of(all)
                    }
                }
            }),
    {
        if cancelled {
            return RemoteStep::Stop;
        }
        if chunk.len() == 0 {
            return RemoteStep::Skip;
        }
        let mut samples: Vec<i16> = Vec::new();
        let ghost all = behind(self.pending_lo, chunk@);
        decode_pcm16le(chunk, &mut self.pending_lo, &mut samples);
        proof {
            assert(samples@ =~= samples_of(all));
        }
        if samples.len() == 0 {
            return RemoteStep::Skip;
        }
        RemoteStep::Play(samples)
    }
}

/// The first of two variables that is set counts; where neither is, the default.
pub proof fn law_either_variable(
    vars: Map<Seq<char>, Seq<char>>,
    key: Seq<char>,
    other: Seq<char>,
    value: Seq<char>,
    default: Seq<char>,
)
    ensures
        env::text_var(vars, key) == Some(value) ==> text_or(either_text(vars, key, other), default)
            == value,
        env::text_var(vars, key) is None && env::text_var(vars, other) == Some(value) ==> text_or(
            either_text(vars, key, other),
            default,
        ) == value,
        env::text_var(vars, key) is None && env::text_var(vars, other) is None ==> either_text(
            vars,
            key,
            other,
        ) is None && text_or(either_text(vars, key, other), default) == default,
{
}

/// Slashes behind an address do not matter: the path is put behind it once, and where it is there
/// already the address stays as it is.
pub proof fn law_endpoint_of_an_address(host: Seq<char>, slashes: nat)
    requires
        host.len() > 0,
        host.last() != '/',
    ensures
        ({
            let url = host + Seq::new(slashes, |i: int| '/');
            &&& !"/v1/audio/speech"@.is_suffix_of(host) ==> endpoint_of(url) == host
                + "/v1/audio/speech"@
            &&& "/v1/audio/speech"@.is_suffix_of(host) ==> endpoint_of(url) == trimmed(url)
        }),
{
    lemma_slashes_are_dropped(host, slashes);
}

/// Slashes at the end are dropped.
proof fn lemma_slashes_are_dropped(host: Seq<char>, slashes: nat)
    requires
        host.len() > 0,
        host.last() != '/',
    ensures
        without_trailing(host + Seq::new(slashes, |i: int| '/'), '/') == host,
    decreases slashes,
{
    let url = host + Seq::new(slashes, |i: int| '/');
    if slashes == 0 {
        assert(url =~= host);
    } else {
        let fewer = (slashes - 1) as nat;
        lemma_slashes_are_dropped(host, fewer);
        assert(url.last() == '/');
        assert(url.drop_last() =~= host + Seq::new(fewer, |i: int| '/'));
    }
}

/// Every byte is in a sample or waits: two make a sample, and a last one without a partner waits.
pub proof fn law_every_byte_counts(pending: Option<u8>, bytes: Seq<u8>)
    ensures
        ({
            let all = behind(pending, bytes);
            let waits: int = if left_over(all) is Some {
                1
            } else {
                0
            };
            &&& all.len() == bytes.len() + (if pending is Some {
                1int
            } else {
                0
            })
            &&& 2 * samples_of(all).len() + waits == all.len()
            &&& left_over(all) matches Some(byte) ==> byte == all[all.len() - 1]
            &&& pending matches Some(byte) ==> all[0] == byte
        }),
{
}

/// Why there is no remote speech is said in these words.
pub proof fn law_remote_errors_in_words(status: u16, body: String)
    ensures
        RemoteError::WrongOutput.spec_message()
            == "Remote TTS currently expects 32000Hz mono output; set AUDIO_SAMPLE_RATE=32000 and AUDIO_CHANNELS=1"@,
        (RemoteError::Status { status, body }).spec_message() == "Remote TTS failed (status="@
            + decimal(status as nat) + "): "@ + body@,
{
}

/// A reply brings audio exactly where its status is one of success; else its body is the error.
pub proof fn law_status_of_success(status: u16, body: String, r: Result<(), RemoteError>)
    requires
        call_ensures(check_status, (status, body), r),
    ensures
        r is Ok <==> status / 100 == 2,
        r matches Err(e) ==> e == (RemoteError::Status { status, body }),
{
}

/// Nothing is asked for an output other than 32 kHz and one channel; else the text is asked for by
/// the model and the voice that are set, as a stream.
pub proof fn law_requests_that_are_made(
    settings: &RemoteSettings,
    text: &str,
    sample_rate: u32,
    channels: u16,
    r: Result<SpeechRequest, RemoteError>,
)
    requires
        call_ensures(RemoteSettings::request, (settings, text, sample_rate, channels), r),
    ensures
        r is Ok <==> sample_rate == 32_000 && channels == 1,
        r matches Ok(q) ==> q.input@ == text@ && q.model@ == settings.model@ && q.voice@
            == settings.voice@ && q.stream && q.response_format@ == "pcm16"@ && q.sample_rate
            == Some(32_000u32) && q.channels == Some(1u16),
{
}

/// A chunk of a reply is played as far as it makes samples, unless the reply is no longer wanted;
/// a half sample waits for the next chunk.
pub proof fn law_chunks_of_a_reply()
    ensures
        forall|s: &mut RemoteStream, chunk: &[u8], cancelled: bool, r: RemoteStep|
            #[trigger] call_ensures(RemoteStream::on_chunk, (s, chunk, cancelled), r) ==> {
                let had: int = if (*s).pending_lo is Some {
                    1
                } else {
                    0
                };
                let all = had + chunk@.len();
                &&& r is Stop <==> cancelled
                &&& cancelled ==> (*final(s)).pending_lo == (*s).pending_lo
                &&& !cancelled ==> ((*final(s)).pending_lo is Some <==> all % 2 == 1)
                &&& r matches RemoteStep::Play(samples) ==> samples@.len() == all / 2 && samples@.len()
                    > 0
                &&& !cancelled && chunk@.len() > 0 && all >= 2 ==> r is Play
            },
{
}

/// How a server is reached where the environment says nothing, and where it does: the newer
/// variable of each pair counts first.
pub proof fn law_server_of_the_environment(vars: &EnvVars, r: RemoteSettings, word: Seq<char>)
    requires
        call_ensures(RemoteSettings::from_env, (vars,), r),
    ensures
        ({
            let text = |key: Seq<char>| env::text_var(vars@, key);
            let base = |url: Seq<char>| r.endpoint@ == endpoint_of(url);
            &&& text("TTS_REMOTE_BASE_URL"@) == Some(word) ==> base(word)
            &&& text("TTS_REMOTE_BASE_URL"@) is None && text("TTS_REMOTE_URL"@) == Some(word)
                ==> base(word)
            &&& text("TTS_REMOTE_BASE_URL"@) is None && text("TTS_REMOTE_URL"@) is None ==> base(
                "http://127.0.0.1:7878"@,
            )
            &&& text("TTS_REMOTE_MODEL"@) == Some(word) ==> r.model@ == word
            &&& text("TTS_REMOTE_MODEL"@) is None && text("TTS_MODEL"@) == Some(word) ==> r.model@
                == word
            &&& text("TTS_REMOTE_MODEL"@) is None && text("TTS_MODEL"@) is None ==> r.model@
                == "gpt-sovits"@
            &&& text("TTS_REMOTE_VOICE"@) == Some(word) ==> r.voice@ == word
            &&& text("TTS_REMOTE_VOICE"@) is None && text("TTS_VOICE"@) == Some(word) ==> r.voice@
                == word
            &&& text("TTS_REMOTE_VOICE"@) is None && text("TTS_VOICE"@) is None ==> r.voice@
                == "default"@
            &&& text("TTS_REMOTE_API_KEY"@) == Some(word) ==> (r.api_key matches Some(key) && key@
                == word)
            &&& text("TTS_REMOTE_API_KEY"@) is None && text("TTS_API_KEY"@) is None
                ==> r.api_key is None
        }),
{
}

} // verus!
