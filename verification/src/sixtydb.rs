//! The 60db audio service: its settings, and what a text-to-speech reply
//! comes to once it has been received.
use vstd::prelude::*;

use base64::engine::general_purpose::STANDARD;
use base64::Engine;

use crate::strings::{opt_view, utf8};

verus! {

/// Settings of a 60db client.
#[derive(Debug)]
pub struct SixtyDbConfig {
    /// Sent as a bearer token.
    pub api_key: String,
    /// Kept for parity with other backends; the voice decides the model.
    pub model_id: String,
    /// Where requests go.
    pub base_url: String,
    /// How long a request may take, in seconds.
    pub timeout_seconds: Option<u64>,
    /// The voice used for speech (sent as `voice_id`).
    pub voice: Option<String>,
}

/// How a backend call failed.
#[derive(Debug, Clone)]
pub enum LLMError {
    /// The service reported a failure.
    ProviderError(String),
    /// The reply was not in the expected form; the raw reply is kept.
    ResponseFormatError { message: String, raw_response: String },
}

/// The fields of a text-to-speech reply the client reads.
#[derive(Debug, Clone)]
pub struct TtsResponse {
    pub success: bool,
    pub message: Option<String>,
    pub audio_base64: Option<String>,
}

/// What standard base64 decoding (with padding) gives for `input`: the
/// bytes, or the text of the error (its `Display`) when `input` is not valid
/// base64.
pub uninterp spec fn base64_decoded(input: Seq<u8>) -> Result<Seq<u8>, Seq<char>>;

/// `base64::engine::general_purpose::STANDARD.decode`: the bytes, or the
/// decode error as text, both as `base64_decoded` names them.
#[verifier::external_body]
fn decode_base64(input: &[u8]) -> (r: Result<Vec<u8>, String>)
    ensures
        match r {
            Ok(v) => base64_decoded(input@) == Ok::<Seq<u8>, Seq<char>>(v@),
            Err(t) => base64_decoded(input@) == Err::<Seq<u8>, Seq<char>>(t@),
        },
{
    match STANDARD.decode(input) {
        Ok(v) => Ok(v),
        Err(e) => Err(e.to_string()),
    }
}

/// A text-to-speech request, as the client sends it: posted as JSON with
/// the key as a bearer token.
#[derive(Debug, Clone)]
pub struct SpeechRequest {
    pub url: String,
    pub api_key: String,
    /// The body's `text`.
    pub text: String,
    /// The body's `output_format`.
    pub output_format: String,
    /// The body's `voice_id`, present only when a voice is set.
    pub voice_id: Option<String>,
    /// The request's time limit in seconds, when one is set.
    pub timeout_seconds: Option<u64>,
}

/// The request that asks the service to speak `text`: posted to
/// `tts-synthesize` under the base URL, in MP3, with the configured voice
/// and time limit.
pub fn speech_request(config: &SixtyDbConfig, text: &str) -> (r: SpeechRequest)
    ensures
        r.url@ == config.base_url@ + "/tts-synthesize"@,
        r.api_key@ == config.api_key@,
        r.text@ == text@,
        r.output_format@ == "mp3"@,
        opt_view(r.voice_id) == opt_view(config.voice),
        r.timeout_seconds == config.timeout_seconds,
{
    let mut url = config.base_url.clone();
    url.append("/tts-synthesize");
    let voice_id = match &config.voice {
        Some(v) => Some(v.clone()),
        None => None,
    };
    SpeechRequest {
        url,
        api_key: config.api_key.clone(),
        text: String::from_str(text),
        output_format: String::from_str("mp3"),
        voice_id,
        timeout_seconds: config.timeout_seconds,
    }
}

/// Where audio is posted to be transcribed: `stt` under the base URL.
pub fn transcription_url(config: &SixtyDbConfig) -> (url: String)
    ensures
        url@ == config.base_url@ + "/stt"@,
{
    let mut url = config.base_url.clone();
    url.append("/stt");
    url
}

/// The message when the service reports failure without saying why.
pub open spec fn default_failure() -> Seq<char> {
    "60db text-to-speech request failed"@
}

/// The audio in a text-to-speech reply: a failure the service reported
/// (with its message, or a default one), a reply without audio, audio that
/// is not valid base64, or the decoded bytes. `raw` is the reply's text.
pub fn speech_audio(response: TtsResponse, raw: String) -> (r: Result<Vec<u8>, LLMError>)
    ensures
        !response.success ==> (r matches Err(LLMError::ProviderError(m)) && m@ == match response.message {
            Some(msg) => msg@,
            None => default_failure(),
        }),
        response.success && response.audio_base64 is None ==> (r matches Err(
            LLMError::ResponseFormatError { message, raw_response },
        ) && message@ == "60db response did not contain audio_base64"@ && raw_response@ == raw@),
        response.success && response.audio_base64 is Some ==> match base64_decoded(
            utf8(response.audio_base64->0@),
        ) {
            Ok(bytes) => r matches Ok(v) && v@ == bytes,
            Err(text) => r matches Err(LLMError::ResponseFormatError { message, raw_response })
                && message@ == "failed to decode base64 audio: "@ + text && raw_response@ == raw@,
        },
{
    if !response.success {
        let m = match response.message {
            Some(msg) => msg,
            None => String::from_str("60db text-to-speech request failed"),
        };
        return Err(LLMError::ProviderError(m));
    }
    let audio = match response.audio_base64 {
        Some(a) => a,
        None => {
            return Err(
                LLMError::ResponseFormatError {
                    message: String::from_str("60db response did not contain audio_base64"),
                    raw_response: raw,
                },
            )
        },
    };
    match decode_base64(audio.as_str().as_bytes()) {
        Ok(v) => Ok(v),
        Err(e) => {
            let mut message = String::from_str("failed to decode base64 audio: ");
            message.append(e.as_str());
            Err(LLMError::ResponseFormatError { message, raw_response: raw })
        },
    }
}

} // verus!
