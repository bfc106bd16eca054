use flow_linux::transcription::{
    check_request, check_status, endpoint, failure_message, form_fields, transcript_text,
};

#[test]
fn requests_need_a_key_and_a_positive_timeout() {
    assert_eq!(
        check_request("  ", 3.0f64.to_bits()),
        Err("Add a Groq API key in Settings".to_string())
    );
    assert_eq!(
        check_request("test-key", 0.0f64.to_bits()),
        Err("Invalid transcription timeout".to_string())
    );
    assert!(check_request("test-key", f64::INFINITY.to_bits()).is_err());
    assert!(check_request("test-key", f64::NAN.to_bits()).is_err());
    assert_eq!(check_request("test-key", 3.0f64.to_bits()), Ok(()));
}

#[test]
fn reply_status_is_explained() {
    assert_eq!(check_status(200), Ok(()));
    assert_eq!(check_status(299), Ok(()));
    assert_eq!(
        check_status(401),
        Err("Invalid Groq API key or model access".to_string())
    );
    assert_eq!(check_status(403), check_status(401));
    assert_eq!(
        check_status(429),
        Err("Groq rate limit; try again shortly".to_string())
    );
    assert_eq!(
        check_status(500),
        Err("Transcription failed; check the Groq settings and connection".to_string())
    );
}

#[test]
fn request_fields_and_failures() {
    let fields = form_fields("whisper-test", "en");
    assert_eq!(fields[0], ("model", "whisper-test".to_string()));
    assert_eq!(fields[1], ("language", "en".to_string()));
    assert_eq!(fields[2], ("response_format", "json".to_string()));
    assert_eq!(fields[3], ("temperature", "0".to_string()));
    assert_eq!(failure_message(true, true), "Transcription timed out");
    assert_eq!(failure_message(false, true), "Could not connect to Groq");
    assert_eq!(failure_message(false, false), "Transcription request failed");
    assert!(endpoint().starts_with("https://api.groq.com/"));
}

#[test]
fn transcript_is_trimmed_text() {
    assert_eq!(transcript_text(Some(" hello ".to_string())), "hello");
    assert_eq!(transcript_text(None), "");
}
