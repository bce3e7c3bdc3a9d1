//! What a speech client and a speech server say to each other.

use vstd::prelude::*;
use vstd::string::*;

verus! {

/// The model where a request names none.
pub fn default_model() -> (r: String)
    ensures
        r@ == "gpt-sovits"@,
{
    "gpt-sovits".to_string()
}

/// The voice where a request names none.
pub fn default_voice() -> (r: String)
    ensures
        r@ == "default"@,
{
    "default".to_string()
}

/// The audio format where a request names none.
pub fn default_response_format() -> (r: String)
    ensures
        r@ == "pcm16"@,
{
    "pcm16".to_string()
}

/// Whether audio is streamed where a request does not say.
pub fn default_stream() -> (r: bool)
    ensures
        r,
{
    true
}

/// A request for speech.
#[derive(Debug)]
pub struct SpeechRequest {
    pub model: String,
    /// The text to speak.
    pub input: String,
    pub voice: String,
    /// The audio format; only `pcm16` is supported.
    pub response_format: String,
    /// Whether the audio comes while it is made.
    pub stream: bool,
    /// Desired samples per second.
    pub sample_rate: Option<u32>,
    /// Desired channels.
    pub channels: Option<u16>,
}

impl SpeechRequest {
    /// A request for a text, with the defaults for everything else.
    pub fn for_input(input: String) -> (r: Self)
        ensures
            r.input == input,
            r.model@ == "gpt-sovits"@,
            r.voice@ == "default"@,
            r.response_format@ == "pcm16"@,
            r.stream,
            r.sample_rate is None,
            r.channels is None,
    {
        SpeechRequest {
            model: default_model(),
            input,
            voice: default_voice(),
            response_format: default_response_format(),
            stream: default_stream(),
            sample_rate: None,
            channels: None,
        }
    }
}

/// An error reply.
#[derive(Debug)]
pub struct ErrorResponse {
    pub error: ErrorBody,
}

/// What an error reply says.
#[derive(Debug)]
pub struct ErrorBody {
    pub message: String,
    /// The kind of error, where it is told.
    pub kind: Option<String>,
}

} // verus!
