use flow_linux::keyboard::{
    pressed_chord_parts, HotkeyReaction, HotkeyState, KeyEvent, ModifierChord, PressedKeys, Toggle,
};

#[test]
fn releasing_one_control_key_keeps_modifier_chord_active() {
    let mut pressed = PressedKeys::from_names(vec![
        "ControlLeft".to_string(),
        "ControlRight".to_string(),
        "MetaLeft".to_string(),
    ]);
    assert_eq!(pressed_chord_parts(&pressed), (true, true, false));
    pressed.remove("ControlLeft");
    assert_eq!(pressed_chord_parts(&pressed), (true, true, false));
    pressed.remove("ControlRight");
    assert_eq!(pressed_chord_parts(&pressed), (false, true, false));
}

fn press(name: &str) -> KeyEvent {
    KeyEvent::Press(name.to_string())
}

fn release(name: &str) -> KeyEvent {
    KeyEvent::Release(name.to_string())
}

fn none() -> HotkeyReaction {
    HotkeyReaction { hands_free: None, push_to_talk: None }
}

#[test]
fn holding_ctrl_super_starts_and_releasing_stops_push_to_talk() {
    let mut state = HotkeyState::new();
    assert_eq!(state.on_key(press("ControlLeft"), true, false), none());
    assert_eq!(
        state.on_key(press("MetaLeft"), true, false),
        HotkeyReaction { hands_free: None, push_to_talk: Some(Toggle::Start) }
    );
    assert!(state.push_to_talk());
    assert_eq!(state.on_key(press("KeyA"), true, false), none());
    assert_eq!(
        state.on_key(release("MetaLeft"), true, false),
        HotkeyReaction { hands_free: None, push_to_talk: Some(Toggle::Stop) }
    );
    assert!(!state.push_to_talk());
}

#[test]
fn ctrl_super_space_toggles_hands_free() {
    let mut state = HotkeyState::new();
    state.on_key(press("ControlLeft"), true, false);
    state.on_key(press("MetaLeft"), true, false);
    assert_eq!(
        state.on_key(press("Space"), true, false),
        HotkeyReaction { hands_free: Some(Toggle::Start), push_to_talk: None }
    );
    // Holding the chord longer toggles nothing.
    assert_eq!(state.on_key(press("Space"), true, true), none());
    state.on_key(release("Space"), true, true);
    assert_eq!(
        state.on_key(press("Space"), true, true),
        HotkeyReaction { hands_free: Some(Toggle::Stop), push_to_talk: None }
    );
}

#[test]
fn disabled_hands_free_leaves_push_to_talk() {
    let mut state = HotkeyState::new();
    state.on_key(press("Space"), false, false);
    state.on_key(press("ControlRight"), false, false);
    assert_eq!(
        state.on_key(press("MetaRight"), false, false),
        HotkeyReaction { hands_free: None, push_to_talk: Some(Toggle::Start) }
    );
}

#[test]
fn pressing_space_first_with_hands_free_enabled_starts_no_push_to_talk() {
    let mut state = HotkeyState::new();
    state.on_key(press("Space"), true, false);
    state.on_key(press("ControlLeft"), true, false);
    assert_eq!(
        state.on_key(press("MetaLeft"), true, false),
        HotkeyReaction { hands_free: Some(Toggle::Start), push_to_talk: None }
    );
    assert!(!state.push_to_talk());
}

#[test]
fn experimental_tracker_follows_each_modifier() {
    let mut chord = ModifierChord::new();
    assert_eq!(chord.on_key(true, "ControlLeft"), None);
    assert_eq!(chord.on_key(true, "MetaRight"), Some(Toggle::Start));
    assert_eq!(chord.on_key(true, "ControlRight"), None);
    assert_eq!(chord.on_key(false, "ControlRight"), Some(Toggle::Stop));
    assert_eq!(chord.on_key(false, "KeyA"), None);
}

#[test]
fn pressed_keys_behave_as_a_set() {
    let mut keys = PressedKeys::new();
    keys.insert("KeyA".to_string());
    keys.insert("KeyA".to_string());
    assert!(keys.contains("KeyA"));
    keys.remove("KeyA");
    assert!(!keys.contains("KeyA"));
}

#[test]
fn releasing_keys_never_toggles_hands_free() {
    let mut state = HotkeyState::new();
    state.on_key(press("ControlLeft"), true, false);
    state.on_key(press("MetaLeft"), true, false);
    state.on_key(press("Space"), true, false);
    for name in ["KeyA", "ControlRight", "Space", "MetaLeft", "ControlLeft"] {
        let reaction = state.on_key(release(name), true, true);
        assert_eq!(reaction.hands_free, None);
    }
}
