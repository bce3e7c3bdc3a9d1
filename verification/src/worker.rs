//! A speech server: which requests it takes, and how it refuses the others.

use crate::internal::env::{self, EnvVars};
use crate::remote_tts_protocol::{ErrorBody, ErrorResponse, SpeechRequest};
use crate::text::{ascii_lowercase, ascii_lowercased, contains_char, same, trim, trimmed};
use vstd::prelude::*;
use vstd::string::*;

verus! {

/// Whether the server logs how long requests take.
pub fn metrics_enabled(vars: &EnvVars) -> (r: bool)
    ensures
        r == (env::switch_setting(vars@, "VOICE_TTS_METRICS"@, false) || env::switch_setting(
            vars@,
            "TTS_WORKER_METRICS"@,
            false,
        )),
{
    env::bool01(vars, "VOICE_TTS_METRICS", false) || env::bool01(vars, "TTS_WORKER_METRICS", false)
}

/// The address under `TTS_WORKER_BIND`, or the default one.
pub fn bind_from_env(vars: &EnvVars) -> (r: String)
    ensures
        r@ == match env::var_of(vars@, "TTS_WORKER_BIND"@) {
            Some(bind) => bind,
            None => "127.0.0.1:7878"@,
        },
{
    match vars.get("TTS_WORKER_BIND") {
        Some(bind) => bind,
        None => "127.0.0.1:7878".to_string(),
    }
}

/// Why there is no address to listen on.
#[derive(Debug)]
pub enum BindError {
    Empty,
    /// The text is no address.
    Invalid { bind: String },
}

impl BindError {
    /// The error in words.
    pub open spec fn spec_message(&self) -> Seq<char> {
        match self {
            BindError::Empty => "TTS_WORKER_BIND is empty"@,
            BindError::Invalid { bind } => "invalid TTS_WORKER_BIND: "@ + bind@,
        }
    }

    /// The error in words.
    pub fn message(&self) -> (r: String)
        ensures
            r@ == self.spec_message(),
    {
        match self {
            BindError::Empty => "TTS_WORKER_BIND is empty".to_string(),
            BindError::Invalid { bind } => {
                let mut out = "invalid TTS_WORKER_BIND: ".to_string();
                out.append(bind.as_str());
                out
            },
        }
    }
}

/// The text of the address to listen on: a port alone is one of this machine.
pub fn parse_bind(raw: &str) -> (r: Result<String, BindError>)
    ensures
        ({
            let bind = trimmed(raw@);
            if bind.len() == 0 {
                r == Err::<String, _>(BindError::Empty)
            } else {
                r matches Ok(addr) && addr@ == if bind.contains(':') {
                    bind
                } else {
                    "127.0.0.1:"@ + bind
                }
            }
        }),
{
    let bind = trim(raw);
    if bind.as_str().is_empty() {
        return Err(BindError::Empty);
    }
    if contains_char(bind.as_str(), ':') {
        return Ok(bind);
    }
    let mut addr = "127.0.0.1:".to_string();
    addr.append(bind.as_str());
    Ok(addr)
}

/// What a request is for.
#[derive(Debug, Clone, Copy, PartialEq, Eq, Structural)]
pub enum Route {
    Health,
    Speech,
    NotFound,
}

/// What a request with this method and path is for.
pub fn route(method: &str, path: &str) -> (r: Route)
    ensures
        r == if method@ == "GET"@ && path@ == "/health"@ {
            Route::Health
        } else if method@ == "POST"@ && path@ == "/v1/audio/speech"@ {
            Route::Speech
        } else {
            Route::NotFound
        },
{
    if same(method, "GET") && same(path, "/health") {
        Route::Health
    } else if same(method, "POST") && same(path, "/v1/audio/speech") {
        Route::Speech
    } else {
        Route::NotFound
    }
}

/// The type of the audio that a speech request is answered with.
pub const AUDIO_CONTENT_TYPE: &'static str = "audio/L16; rate=32000; channels=1";

/// The type of a plain reply.
pub const TEXT_CONTENT_TYPE: &'static str = "text/plain; charset=utf-8";

/// The type of a reply that refuses a request.
pub const ERROR_CONTENT_TYPE: &'static str = "application/json";

/// The status and the text of a plain reply; a speech request has none.
pub fn plain_reply(route: Route) -> (r: Option<(u16, &'static str)>)
    ensures
        r == match route {
            Route::Health => Some((200u16, "ok\n")),
            Route::NotFound => Some((404u16, "not found\n")),
            Route::Speech => None,
        },
{
    match route {
        Route::Health => Some((200, "ok\n")),
        Route::NotFound => Some((404, "not found\n")),
        Route::Speech => None,
    }
}

/// Why a request is refused.
#[derive(Debug)]
pub enum RequestError {
    /// The body could not be read.
    Body { reason: String },
    /// The body is no request.
    Json { reason: String },
    EmptyInput,
    Format { format: String },
    /// Not 32 kHz, or not one channel.
    Audio,
    Model { model: String },
}

impl RequestError {
    /// The error in words.
    pub open spec fn spec_message(&self) -> Seq<char> {
        match self {
            RequestError::Body { reason } => "read body failed: "@ + reason@,
            RequestError::Json { reason } => "invalid json: "@ + reason@,
            RequestError::EmptyInput => "input is empty"@,
            RequestError::Format { format } => "unsupported response_format: "@ + format@
                + " (expected pcm16)"@,
            RequestError::Audio => "only 32000Hz mono PCM is supported"@,
            RequestError::Model { model } => "unsupported model: "@ + model@
                + " (expected gpt-sovits)"@,
        }
    }

    /// The error in words.
    pub fn message(&self) -> (r: String)
        ensures
            r@ == self.spec_message(),
    {
        let mut out = String::new();
        match self {
            RequestError::Body { reason } => {
                out = "read body failed: ".to_string();
                out.append(reason.as_str());
            },
            RequestError::Json { reason } => {
                out = "invalid json: ".to_string();
                out.append(reason.as_str());
            },
            RequestError::EmptyInput => {
                out = "input is empty".to_string();
            },
            RequestError::Format { format } => {
                out = "unsupported response_format: ".to_string();
                out.append(format.as_str());
                out.append(" (expected pcm16)");
            },
            RequestError::Audio => {
                out = "only 32000Hz mono PCM is supported".to_string();
            },
            RequestError::Model { model } => {
                out = "unsupported model: ".to_string();
                out.append(model.as_str());
                out.append(" (expected gpt-sovits)");
            },
        }
        out
    }

    /// The reply that refuses the request.
    pub fn response(&self) -> (r: ErrorResponse)
        ensures
            r.error.message@ == self.spec_message(),
            r.error.kind matches Some(kind) && kind@ == "tts_worker_error"@,
    {
        ErrorResponse {
            error: ErrorBody {
                message: self.message(),
                kind: Some("tts_worker_error".to_string()),
            },
        }
    }
}

/// Whether a lower-case format is one of the names of 16-bit samples.
pub open spec fn is_pcm16(format: Seq<char>) -> bool {
    format == "pcm16"@ || format == "pcm_s16le"@ || format == "pcm"@
}

/// Whether a request asks for audio that the server makes, or leaves it open.
pub open spec fn fits_output(request: SpeechRequest) -> bool {
    (request.sample_rate is Some ==> request.sample_rate->0 == 32_000) && (request.channels is Some
        ==> request.channels->0 == 1)
}

/// Checks a request, and brings its text into shape. The text, the format, the audio and the
/// model are looked at in this order; a request that is not for a stream is taken as one.
pub fn check_request(request: SpeechRequest) -> (r: Result<SpeechRequest, RequestError>)
    ensures
        ({
            let input = trimmed(request.input@);
            let format = ascii_lowercased(trimmed(request.response_format@));
            let model = ascii_lowercased(trimmed(request.model@));
            if input.len() == 0 {
                r == Err::<SpeechRequest, _>(RequestError::EmptyInput)
            } else if !is_pcm16(format) {
                r matches Err(RequestError::Format { format: f }) && f@ == format
            } else if !fits_output(request) {
                r == Err::<SpeechRequest, _>(RequestError::Audio)
            } else if model != "gpt-sovits"@ {
                r matches Err(RequestError::Model { model: m }) && m@ == model
            } else {
                &&& r matches Ok(q)
                &&& q.input@ == input
                &&& q.stream
                &&& q.model == request.model
                &&& q.voice == request.voice
                &&& q.response_format == request.response_format
                &&& q.sample_rate == request.sample_rate
                &&& q.channels == request.channels
            }
        }),
{
    let mut request = request;
    request.input = trim(request.input.as_str());
    if request.input.as_str().is_empty() {
        return Err(RequestError::EmptyInput);
    }
    let format = ascii_lowercase(trim(request.response_format.as_str()).as_str());
    if !(same(format.as_str(), "pcm16") || same(format.as_str(), "pcm_s16le") || same(
        format.as_str(),
        "pcm",
    )) {
        return Err(RequestError::Format { format });
    }
    // Only streaming is implemented; a client may read the stream as one body.
    request.stream = true;
    let rate_fits = match request.sample_rate {
        Some(rate) => rate == 32_000,
        None => true,
    };
    let channels_fit = match request.channels {
        Some(channels) => channels == 1,
        None => true,
    };
    if !rate_fits || !channels_fit {
        return Err(RequestError::Audio);
    }
    let model = ascii_lowercase(trim(request.model.as_str()).as_str());
    if !same(model.as_str(), "gpt-sovits") {
        return Err(RequestError::Model { model });
    }
    Ok(request)
}

/// The status that a request is answered with: 200 where it is taken, 400 where it is refused, for
/// whatever reason.
pub open spec fn status_of(r: Result<SpeechRequest, RequestError>) -> u16 {
    match r {
        Ok(_) => 200,
        Err(_) => 400,
    }
}

/// The status that a request is answered with.
pub fn status(r: &Result<SpeechRequest, RequestError>) -> (code: u16)
    ensures
        code == status_of(*r),
{
    match r {
        Ok(_) => 200,
        Err(_) => 400,
    }
}

/// The type of what a request is answered with: audio where it is taken.
pub fn content_type(r: &Result<SpeechRequest, RequestError>) -> (name: &'static str)
    ensures
        name == match *r {
            Ok(_) => AUDIO_CONTENT_TYPE,
            Err(_) => ERROR_CONTENT_TYPE,
        },
{
    match r {
        Ok(_) => AUDIO_CONTENT_TYPE,
        Err(_) => ERROR_CONTENT_TYPE,
    }
}

/// Numbers requests, from 1 on.
#[derive(Debug, PartialEq, Eq, Structural)]
pub struct WorkerState {
    pub request_seq: u64,
}

impl WorkerState {
    /// No request yet.
    pub fn new() -> (r: Self)
        ensures
            r.request_seq == 1,
    {
        WorkerState { request_seq: 1 }
    }

    /// The number of the next request.
    pub fn next_request_id(&mut self) -> (r: u64)
        ensures
            r == old(self).request_seq,
            final(self).request_seq == if old(self).request_seq == u64::MAX {
                0
            } else {
                (old(self).request_seq + 1) as u64
            },
    {
        let id: u64 = self.request_seq;
        self.request_seq = id.wrapping_add(1);
        id
    }
}

/// Three words name the format that the server speaks.
pub proof fn law_formats_by_word(word: Seq<char>)
    ensures
        is_pcm16(word) <==> word == "pcm16"@ || word == "pcm_s16le"@ || word == "pcm"@,
{
}

/// A request may leave the audio open, or ask for 32 kHz and one channel; nothing else fits.
pub proof fn law_audio_that_fits(request: SpeechRequest, rate: u32, channels: u16)
    ensures
        request.sample_rate is None && request.channels is None ==> fits_output(request),
        request.sample_rate == Some(rate) && rate != 32_000 ==> !fits_output(request),
        request.channels == Some(channels) && channels != 1 ==> !fits_output(request),
        request.sample_rate == Some(32_000u32) && request.channels == Some(1u16) ==> fits_output(
            request,
        ),
        request.sample_rate == Some(32_000u32) && request.channels is None ==> fits_output(request),
        request.sample_rate is None && request.channels == Some(1u16) ==> fits_output(request),
{
}

/// A request that is taken is answered with 200, and one that is refused with 400, whatever the
/// reason.
pub proof fn law_status_of_a_reply(r: Result<SpeechRequest, RequestError>)
    ensures
        status_of(r) == 200 <==> r is Ok,
        status_of(r) == 400 <==> r is Err,
{
}

/// What replies say of their type.
pub proof fn law_types_of_replies()
    ensures
        AUDIO_CONTENT_TYPE@ == "audio/L16; rate=32000; channels=1"@,
        TEXT_CONTENT_TYPE@ == "text/plain; charset=utf-8"@,
        ERROR_CONTENT_TYPE@ == "application/json"@,
{
}

/// Why a request is refused is said in these words.
pub proof fn law_request_errors_in_words(text: String)
    ensures
        (RequestError::Body { reason: text }).spec_message() == "read body failed: "@ + text@,
        (RequestError::Json { reason: text }).spec_message() == "invalid json: "@ + text@,
        RequestError::EmptyInput.spec_message() == "input is empty"@,
        (RequestError::Format { format: text }).spec_message() == "unsupported response_format: "@
            + text@ + " (expected pcm16)"@,
        RequestError::Audio.spec_message() == "only 32000Hz mono PCM is supported"@,
        (RequestError::Model { model: text }).spec_message() == "unsupported model: "@ + text@
            + " (expected gpt-sovits)"@,
        BindError::Empty.spec_message() == "TTS_WORKER_BIND is empty"@,
        (BindError::Invalid { bind: text }).spec_message() == "invalid TTS_WORKER_BIND: "@ + text@,
{
}

/// Two requests are known, one for each route; every other is for nothing.
pub proof fn law_routes(method: &str, path: &str, r: Route)
    requires
        call_ensures(route, (method, path), r),
    ensures
        r == Route::Health <==> method@ == "GET"@ && path@ == "/health"@,
        r == Route::Speech <==> method@ == "POST"@ && path@ == "/v1/audio/speech"@,
{
    reveal_strlit("GET");
    reveal_strlit("POST");
    assert("GET"@[0] == 'G' && "POST"@[0] == 'P');
}

/// A plain reply tells that all is well, or that there is nothing; speech has none.
pub proof fn law_plain_replies(route: Route, r: Option<(u16, &'static str)>)
    requires
        call_ensures(plain_reply, (route,), r),
    ensures
        route == Route::Health ==> (r matches Some(reply) && reply.0 == 200 && reply.1@ == "ok\n"@),
        route == Route::NotFound ==> (r matches Some(reply) && reply.0 == 404 && reply.1@
            == "not found\n"@),
        route == Route::Speech ==> r is None,
{
}

/// A request is taken exactly where it has a text, asks for audio that the server makes, in a
/// format and by a model that it has; it is taken with its text in shape.
pub proof fn law_requests_that_are_taken(
    request: SpeechRequest,
    r: Result<SpeechRequest, RequestError>,
)
    requires
        call_ensures(check_request, (request,), r),
    ensures
        ({
            let format = ascii_lowercased(trimmed(request.response_format@));
            let model = ascii_lowercased(trimmed(request.model@));
            let spoken = trimmed(request.input@).len() > 0;
            let known = format == "pcm16"@ || format == "pcm_s16le"@ || format == "pcm"@;
            let fits = (request.sample_rate is None || request.sample_rate == Some(32_000u32)) && (
            request.channels is None || request.channels == Some(1u16));
            &&& r is Ok <==> spoken && known && fits && model == "gpt-sovits"@
            &&& r matches Ok(q) ==> q.input@ == trimmed(request.input@) && q.stream && q.voice
                == request.voice
            &&& (r matches Err(RequestError::EmptyInput)) <==> !spoken
            &&& (r matches Err(RequestError::Format { .. })) <==> spoken && !known
            &&& (r matches Err(RequestError::Audio)) <==> spoken && known && !fits
            &&& (r matches Err(RequestError::Model { .. })) <==> spoken && known && fits && model
                != "gpt-sovits"@
        }),
{
}

/// A port alone is one of this machine; an address stays as it is; a blank text is none.
pub proof fn law_addresses(raw: &str, r: Result<String, BindError>)
    requires
        call_ensures(parse_bind, (raw,), r),
    ensures
        r is Ok <==> trimmed(raw@).len() > 0,
        r matches Ok(addr) ==> (trimmed(raw@).contains(':') ==> addr@ == trimmed(raw@)) && (
        !trimmed(raw@).contains(':') ==> addr@ == "127.0.0.1:"@ + trimmed(raw@)),
{
}

/// Requests are numbered one after the other.
pub proof fn law_numbers_of_requests()
    ensures
        forall|w: &mut WorkerState, r: u64|
            #[trigger] call_ensures(WorkerState::next_request_id, (w,), r) ==> r
                == (*w).request_seq && ((*w).request_seq < u64::MAX ==> (*final(w)).request_seq
                == (*w).request_seq + 1),
{
}

} // verus!
