use flow_linux::session::{
    check_capture, entry_status, listening_status, overlay_shown, stop_activity,
    transcript_outcome, Activity, Mode, RecordingSession, StartStep,
};

#[test]
fn push_to_talk_release_leaves_hands_free_running() {
    let mut s = RecordingSession::new();
    assert_eq!(s.begin(Mode::PushToTalk), StartStep::StartRecorder);
    s.started(Mode::PushToTalk, true);
    assert_eq!(s.begin(Mode::HandsFree), StartStep::SwitchedToHandsFree);
    assert_eq!(s.mode, Some(Mode::HandsFree));
    assert_eq!(s.end(false), None);
    assert_eq!(s.mode, Some(Mode::HandsFree));
    assert_eq!(s.end(true), Some(Mode::HandsFree));
    assert_eq!(s.mode, None);
    assert_eq!(s.end(true), None);
}

#[test]
fn failed_recorder_start_leaves_nothing_recording() {
    let mut s = RecordingSession::new();
    assert_eq!(s.begin(Mode::HandsFree), StartStep::StartRecorder);
    s.started(Mode::HandsFree, false);
    assert_eq!(s.mode, None);
}

#[test]
fn second_push_to_talk_request_is_ignored() {
    let mut s = RecordingSession::new();
    s.started(Mode::HandsFree, true);
    assert_eq!(s.begin(Mode::PushToTalk), StartStep::Ignored);
    assert_eq!(s.begin(Mode::HandsFree), StartStep::Ignored);
    assert_eq!(s.end(false), None);
}

#[test]
fn status_names_the_mode() {
    assert_eq!(listening_status(Mode::HandsFree), "Hands-free listening");
    assert_eq!(listening_status(Mode::PushToTalk), "Listening");
}

#[test]
fn short_or_silent_recordings_are_not_sent() {
    let min = 0.35f64.to_bits();
    let thr = 220.0f64.to_bits();
    assert_eq!(check_capture(0.2f64.to_bits(), 5000.0f64.to_bits(), min, thr), Err("Recording too short"));
    assert_eq!(check_capture(1.0f64.to_bits(), 10.0f64.to_bits(), min, thr), Err("No speech detected"));
    assert_eq!(check_capture(1.0f64.to_bits(), 220.0f64.to_bits(), min, thr), Ok(()));
    assert_eq!(check_capture(f64::NAN.to_bits(), f64::NAN.to_bits(), min, thr), Ok(()));
}

#[test]
fn transcripts_are_trimmed() {
    assert_eq!(transcript_outcome("  hello world \n"), Ok("hello world".to_string()));
    assert_eq!(transcript_outcome(" \t\n"), Err("No speech detected"));
}

#[test]
fn unicode_white_space_is_trimmed() {
    assert_eq!(
        transcript_outcome("\u{3000}hola\u{2003}\u{85}"),
        Ok("hola".to_string())
    );
    assert_eq!(transcript_outcome("\u{1c}x"), Ok("\u{1c}x".to_string()));
}

#[test]
fn overlay_stays_up_until_idle() {
    assert!(overlay_shown(Activity::Listening));
    assert!(overlay_shown(Activity::Transcribing));
    assert!(!overlay_shown(Activity::Idle));
    assert_eq!(
        stop_activity(Activity::Listening, Some(Mode::HandsFree)),
        Activity::Transcribing
    );
    assert_eq!(stop_activity(Activity::Listening, None), Activity::Listening);
    assert_eq!(stop_activity(Activity::Idle, None), Activity::Idle);
}

#[test]
fn history_entry_marked_after_paste() {
    assert_eq!(entry_status(true, Some(4), true), Some((4, "inserted")));
    assert_eq!(entry_status(true, Some(4), false), Some((4, "failed")));
    assert_eq!(entry_status(true, None, true), None);
    assert_eq!(entry_status(false, Some(4), true), None);
}
