use flow_linux::clipboard::{
    is_terminal, paste_shortcut, window_id, window_id_from_text, window_label,
    window_label_from_text,
};
use flow_linux::clipboard_native::{active_window, text_to_restore};

#[test]
fn recognizes_common_terminal_windows() {
    for class in [
        "XTerm",
        "kitty",
        "Alacritty",
        "org.gnome.Terminal",
        "xfce4-terminal",
        "com.mitchellh.ghostty",
        "st-256color",
        "org.wezfurlong.wezterm",
    ] {
        assert!(
            is_terminal(class, ""),
            "{class} should be treated as a terminal"
        );
    }
}

#[test]
fn uses_regular_paste_for_non_terminal_windows() {
    assert_eq!(paste_shortcut(Some("code"), Some("editor")), "ctrl+v");
    assert_eq!(paste_shortcut(None, None), "ctrl+v");
}

#[test]
fn uses_text_paste_shortcut_for_terminals_and_codex() {
    assert_eq!(paste_shortcut(Some("kitty"), None), "shift+Insert");
    assert_eq!(
        paste_shortcut(Some("xfce4-terminal"), Some("codex")),
        "shift+Insert"
    );
    assert_eq!(
        paste_shortcut(None, Some("Codex CLI — ~/project")),
        "shift+Insert"
    );
}

#[test]
fn recognizes_terminal_from_window_title() {
    assert!(is_terminal("unknown-window", "Codex - Terminal"));
}

#[test]
fn other_windows_are_not_terminals() {
    assert!(!is_terminal("firefox", "Mozilla Firefox"));
    assert!(!is_terminal("", ""));
    assert!(is_terminal("", "KGX"));
}

#[test]
fn window_output_is_trimmed_and_lowered() {
    assert_eq!(window_id(b" 12345\n"), Some("12345".to_string()));
    assert_eq!(window_id(b" \n"), None);
    assert_eq!(window_label(b"Org.Gnome.Terminal\n"), Some("org.gnome.terminal".to_string()));
    assert_eq!(window_label(b""), None);
}

#[test]
fn clipboard_is_restored_only_when_unchanged() {
    assert_eq!(
        text_to_restore(Some("hello"), "hello", Some("before".to_string())),
        Some("before".to_string())
    );
    assert_eq!(
        text_to_restore(Some("user text"), "hello", Some("before".to_string())),
        None
    );
    assert_eq!(text_to_restore(None, "hello", Some("before".to_string())), None);
    assert_eq!(text_to_restore(Some("hello"), "hello", None), None);
}

#[test]
fn no_active_window_without_x11() {
    assert_eq!(active_window(), None);
}

#[test]
fn only_ascii_letters_are_lowered() {
    assert_eq!(window_label("ÄBC\n".as_bytes()), Some("Äbc".to_string()));
    assert_eq!(window_id(&[0xff, b'7']), Some("\u{fffd}7".to_string()));
}

#[test]
fn decoded_window_text_is_trimmed() {
    assert_eq!(window_id_from_text("  41943047\n"), Some("41943047".to_string()));
    assert_eq!(window_id_from_text(" \n\t"), None);
    assert_eq!(window_id_from_text(""), None);
    assert_eq!(window_label_from_text(" Kitty Terminal\n"), Some("kitty terminal".to_string()));
    assert_eq!(window_label_from_text("\n"), None);
}

#[test]
fn terminal_detection_is_symmetric_case_blind_and_survives_extension() {
    assert_eq!(is_terminal("Alacritty", "notes"), is_terminal("notes", "Alacritty"));
    assert!(is_terminal("notes", "KONSOLE"));
    assert!(is_terminal("NOTES", "konsole"));
    assert!(is_terminal("org.wezfurlong.WezTerm-gui", ""));
    assert!(is_terminal("my-Ghostty-window", "x"));
    assert!(!is_terminal("firefox", "Mozilla Firefox"));
}
