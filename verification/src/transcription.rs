//! The rules around a Groq transcription request: when a request may be sent, what it
//! carries besides the audio, how the reply's status reads, and the transcript it gives.
use crate::float_bits::{finite, is_finite, le, less_eq, positive_finite_patterns, sign_bit, zero};
use crate::text::{trim, trimmed};
use vstd::prelude::*;

verus! {

/// The Groq transcription endpoint.
pub fn endpoint() -> (r: &'static str)
    ensures
        r@ == "https://api.groq.com/openai/v1/audio/transcriptions"@,
{
    "https://api.groq.com/openai/v1/audio/transcriptions"
}

/// Why no request is sent: a blank API key, or a timeout (seconds, as an `f64` bit pattern)
/// that is not a finite positive number.
pub open spec fn request_problem(key: Seq<char>, timeout: u64) -> Option<Seq<char>> {
    if trim(key).len() == 0 {
        Some("Add a Groq API key in Settings"@)
    } else if !is_finite(timeout) || less_eq(timeout, zero()) {
        Some("Invalid transcription timeout"@)
    } else {
        None
    }
}

pub fn check_request(key: &str, timeout_bits: u64) -> (r: Result<(), String>)
    ensures
        match r {
            Ok(()) => request_problem(key@, timeout_bits) is None,
            Err(m) => request_problem(key@, timeout_bits) == Some(m@),
        },
        r is Ok ==> trim(key@).len() > 0 && 0 < timeout_bits < 0x7FF0_0000_0000_0000,
        trim(key@).len() > 0 && !(0 < timeout_bits < 0x7FF0_0000_0000_0000) ==> (r matches Err(m)
            && m@ == "Invalid transcription timeout"@),
{
    proof {
        request_needs_key_and_positive_timeout(key@, timeout_bits);
    }
    let k = trimmed(key);
    if k.as_str().is_empty() {
        return Err("Add a Groq API key in Settings".to_owned());
    }
    if !finite(timeout_bits) || le(timeout_bits, 0) {
        return Err("Invalid transcription timeout".to_owned());
    }
    Ok(())
}

/// A request goes out only with a non-blank key and a timeout that is a finite number above
/// zero (pattern strictly between `0` and `+inf`'s `0x7FF0_0000_0000_0000`); a blank key is
/// reported first, and any other timeout (zero, negative, infinite or NaN) is invalid.
pub proof fn request_needs_key_and_positive_timeout(key: Seq<char>, timeout: u64)
    ensures
        trim(key).len() == 0 ==> request_problem(key, timeout) == Some(
            "Add a Groq API key in Settings"@,
        ),
        trim(key).len() > 0 && !(0 < timeout < 0x7FF0_0000_0000_0000) ==> request_problem(
            key,
            timeout,
        ) == Some("Invalid transcription timeout"@),
        request_problem(key, timeout) is None <==> (trim(key).len() > 0 && 0 < timeout
            < 0x7FF0_0000_0000_0000),
        sign_bit(timeout) ==> request_problem(key, timeout) is Some,
{
    positive_finite_patterns(timeout);
}

/// The text fields of the multipart form, in order, besides the `file` part holding the
/// recording.
pub fn form_fields(model: &str, language: &str) -> (r: Vec<(&'static str, String)>)
    ensures
        r@.len() == 4,
        r@[0].0@ == "model"@ && r@[0].1@ == model@,
        r@[1].0@ == "language"@ && r@[1].1@ == language@,
        r@[2].0@ == "response_format"@ && r@[2].1@ == "json"@,
        r@[3].0@ == "temperature"@ && r@[3].1@ == "0"@,
{
    let mut r = Vec::new();
    r.push(("model", model.to_owned()));
    r.push(("language", language.to_owned()));
    r.push(("response_format", "json".to_owned()));
    r.push(("temperature", "0".to_owned()));
    r
}

/// What an HTTP status of the reply means.
pub open spec fn status_problem(code: u16) -> Option<Seq<char>> {
    if code == 401 || code == 403 {
        Some("Invalid Groq API key or model access"@)
    } else if code == 429 {
        Some("Groq rate limit; try again shortly"@)
    } else if 200 <= code <= 299 {
        None
    } else {
        Some("Transcription failed; check the Groq settings and connection"@)
    }
}

pub fn check_status(code: u16) -> (r: Result<(), String>)
    ensures
        match r {
            Ok(()) => status_problem(code) is None,
            Err(m) => status_problem(code) == Some(m@),
        },
{
    if code == 401 || code == 403 {
        Err("Invalid Groq API key or model access".to_owned())
    } else if code == 429 {
        Err("Groq rate limit; try again shortly".to_owned())
    } else if 200 <= code && code <= 299 {
        Ok(())
    } else {
        Err("Transcription failed; check the Groq settings and connection".to_owned())
    }
}

/// The message for a request that got no reply.
pub fn failure_message(timed_out: bool, connect_failed: bool) -> (r: String)
    ensures
        r@ == (if timed_out {
            "Transcription timed out"@
        } else if connect_failed {
            "Could not connect to Groq"@
        } else {
            "Transcription request failed"@
        }),
{
    if timed_out {
        "Transcription timed out".to_owned()
    } else if connect_failed {
        "Could not connect to Groq".to_owned()
    } else {
        "Transcription request failed".to_owned()
    }
}

/// The transcript of a reply whose JSON `text` field is `text`: trimmed, empty when absent.
pub fn transcript_text(text: Option<String>) -> (r: String)
    ensures
        r@ == match text {
            Some(t) => trim(t@),
            None => Seq::<char>::empty(),
        },
{
    match &text {
        Some(t) => {
            let s: &str = t.as_str();
            assert(s@ == t@);
            trimmed(s)
        },
        None => String::new(),
    }
}

} // verus!
