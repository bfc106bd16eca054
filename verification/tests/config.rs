use flow_linux::config::{
    import_legacy_env, shortcut_is_valid, shortcut_pair_valid, validate, Config, Shortcuts,
};

#[test]
fn rejects_invalid_shortcut() {
    let mut c = Config::default();
    c.shortcuts.push_to_talk = "ctrl+ctrl".into();
    assert!(validate(&c).is_err());
}

#[test]
fn defaults_are_valid() {
    let c = Config::default();
    assert_eq!(validate(&c), Ok(()));
    assert_eq!(c.transcription.model, "whisper-large-v3-turbo");
    assert_eq!(c.transcription.language, "en");
    assert_eq!(f64::from_bits(c.transcription.api_timeout_bits), 45.0);
    assert_eq!(f64::from_bits(c.audio.minimum_duration_bits), 0.35);
    assert_eq!(f64::from_bits(c.audio.silence_threshold_bits), 220.0);
    assert_eq!(f64::from_bits(c.app.clipboard_restore_delay_bits), 0.6);
    assert!(c.app.autostart);
    assert!(!c.app.save_history);
    let s = Shortcuts::default();
    assert_eq!(s.push_to_talk, "ctrl+super");
    assert!(s.handsfree_enabled);
}

#[test]
fn validation_reports_the_first_problem() {
    let mut c = Config::default();
    c.transcription.model = "  ".into();
    c.shortcuts.push_to_talk = "nonsense".into();
    assert_eq!(validate(&c), Err("Model and language cannot be empty".to_string()));

    let mut c = Config::default();
    c.transcription.api_timeout_bits = 0.0f64.to_bits();
    assert_eq!(
        validate(&c),
        Err("Timeout and audio settings must be non-negative".to_string())
    );
    let mut c = Config::default();
    c.audio.silence_threshold_bits = (-1.0f64).to_bits();
    assert!(validate(&c).is_err());
    let mut c = Config::default();
    c.app.clipboard_restore_delay_bits = (-0.0f64).to_bits();
    assert_eq!(validate(&c), Ok(()));
    let mut c = Config::default();
    c.audio.minimum_duration_bits = f64::NAN.to_bits();
    assert_eq!(validate(&c), Ok(()));

    let mut c = Config::default();
    c.shortcuts.push_to_talk = "ctrl+super+alt".into();
    assert_eq!(
        validate(&c),
        Err("Shortcut must be a pair such as ctrl+super".to_string())
    );
}

#[test]
fn shortcuts_are_pairs_of_modifiers() {
    assert!(shortcut_is_valid("ctrl+super"));
    assert!(shortcut_is_valid(" CTRL + Alt "));
    assert!(shortcut_is_valid("shift+super"));
    assert!(!shortcut_is_valid("ctrl"));
    assert!(!shortcut_is_valid("ctrl+"));
    assert!(!shortcut_is_valid("ctrl+a"));
    assert!(!shortcut_is_valid("alt+ALT"));
    assert!(!shortcut_is_valid(""));
}

#[test]
fn legacy_env_supplies_key_model_and_language() {
    let mut c = Config::default();
    import_legacy_env(
        &mut c,
        "# old settings\nGROQ_API_KEY = \"gsk-test\"\r\nFLOW_MODEL='whisper-x'\nOTHER=1\n  FLOW_LANGUAGE=de  \nnot a setting\n",
    );
    assert_eq!(c.transcription.groq_api_key, "gsk-test");
    assert_eq!(c.transcription.model, "whisper-x");
    assert_eq!(c.transcription.language, "de");
    assert_eq!(c.shortcuts.push_to_talk, "ctrl+super");
}

#[test]
fn later_legacy_lines_win_and_values_may_hold_equals() {
    let mut c = Config::default();
    import_legacy_env(&mut c, "FLOW_MODEL=a\nFLOW_MODEL=b=c\nGROQ_API_KEY=\n");
    assert_eq!(c.transcription.model, "b=c");
    assert_eq!(c.transcription.groq_api_key, "");
    assert_eq!(c.transcription.language, "en");
}

#[test]
fn lowered_shortcut_pairs() {
    assert!(shortcut_pair_valid("ctrl+super"));
    assert!(shortcut_pair_valid(" alt +\tshift "));
    assert!(!shortcut_pair_valid("CTRL+super"));
    assert!(!shortcut_pair_valid("ctrl+ctrl"));
    assert!(!shortcut_pair_valid("ctrl+super+alt"));
    assert!(!shortcut_pair_valid("ctrl"));
    assert!(!shortcut_pair_valid("+super"));
}
