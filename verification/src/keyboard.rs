use crate::text::{chars_of, contains_str, has_infix, same_text};
use vstd::prelude::*;

verus! {

/// The names of the keys held down, such as `ControlLeft` or `MetaRight`.
pub struct PressedKeys {
    names: Vec<String>,
}

/// The characters of each name.
pub open spec fn name_seq(v: Seq<String>) -> Seq<Seq<char>> {
    v.map_values(|s: String| s@)
}

/// The set of names.
pub open spec fn names_view(v: Seq<String>) -> Set<Seq<char>> {
    name_seq(v).to_set()
}

impl View for PressedKeys {
    type V = Set<Seq<char>>;

    closed spec fn view(&self) -> Set<Seq<char>> {
        names_view(self.names@)
    }
}

impl PressedKeys {
    /// No key held.
    pub fn new() -> (r: PressedKeys)
        ensures
            r@ == Set::<Seq<char>>::empty(),
    {
        let r = PressedKeys { names: Vec::new() };
        assert(names_view(r.names@) =~= Set::<Seq<char>>::empty());
        r
    }

    /// The keys of `names` held.
    pub fn from_names(names: Vec<String>) -> (r: PressedKeys)
        ensures
            r@ == names_view(names@),
    {
        PressedKeys { names }
    }

    /// Whether the key `name` is held.
    pub fn contains(&self, name: &str) -> (r: bool)
        ensures
            r == self@.contains(name@),
    {
        let mut i: usize = 0;
        while i < self.names.len()
            invariant
                i <= self.names@.len(),
                forall|j: int| 0 <= j < i ==> (#[trigger] self.names@[j])@ != name@,
            decreases self.names.len() - i,
        {
            if same_text(self.names[i].as_str(), name) {
                assert(name_seq(self.names@)[i as int] == name@);
                return true;
            }
            i = i + 1;
        }
        proof {
            let v = name_seq(self.names@);
            if self@.contains(name@) {
                let k = choose|k: int| 0 <= k < v.len() && #[trigger] v[k] == name@;
                assert(self.names@[k]@ != name@);
            }
        }
        false
    }

    /// The key `name` goes down.
    pub fn insert(&mut self, name: String)
        ensures
            final(self)@ == old(self)@.insert(name@),
    {
        if self.contains(name.as_str()) {
            assert(self@.insert(name@) =~= self@);
        } else {
            let ghost before = self.names@;
            self.names.push(name);
            proof {
                let v = name_seq(self.names@);
                let u = name_seq(before);
                assert(v =~= u.push(name@));
                assert forall|x: Seq<char>| v.to_set().contains(x) <==> u.to_set().insert(
                    name@,
                ).contains(x) by {
                    if v.to_set().contains(x) {
                        let k = choose|k: int| 0 <= k < v.len() && #[trigger] v[k] == x;
                        if k < u.len() {
                            assert(u[k] == x);
                        }
                    }
                    if u.to_set().contains(x) {
                        let k = choose|k: int| 0 <= k < u.len() && #[trigger] u[k] == x;
                        assert(v[k] == x);
                    }
                    if x == name@ {
                        assert(v[u.len() as int] == x);
                    }
                }
                assert(v.to_set() =~= u.to_set().insert(name@));
            }
        }
    }

    /// The key `name` comes up.
    pub fn remove(&mut self, name: &str)
        ensures
            final(self)@ == old(self)@.remove(name@),
    {
        let mut kept: Vec<String> = Vec::new();
        let n = self.names.len();
        let mut i: usize = 0;
        while i < n
            invariant
                n == self.names@.len(),
                i <= n,
                forall|x: Seq<char>|
                    #[trigger] names_view(kept@).contains(x) <==> (x != name@ && exists|
                        j: int,
                    |
                        0 <= j < i && (#[trigger] self.names@[j])@ == x),
            decreases n - i,
        {
            let ghost before = kept@;
            let keep = !same_text(self.names[i].as_str(), name);
            if keep {
                kept.push(self.names[i].clone());
            }
            proof {
                let u = name_seq(before);
                let v = name_seq(kept@);
                if keep {
                    assert(v =~= u.push(self.names@[i as int]@));
                } else {
                    assert(v =~= u);
                }
                assert forall|x: Seq<char>| v.to_set().contains(x) <==> (x != name@ && exists|
                    j: int,
                |
                    0 <= j < i + 1 && (#[trigger] self.names@[j])@ == x) by {
                    if v.to_set().contains(x) {
                        let k = choose|k: int| 0 <= k < v.len() && #[trigger] v[k] == x;
                        if k < u.len() {
                            assert(u[k] == x);
                            assert(u.to_set().contains(x));
                            assert(names_view(before).contains(x));
                        } else {
                            assert(x == self.names@[i as int]@);
                        }
                    }
                    if x != name@ && exists|j: int|
                        0 <= j < i + 1 && (#[trigger] self.names@[j])@ == x {
                        let j = choose|j: int| 0 <= j < i + 1 && (#[trigger] self.names@[j])@ == x;
                        if j < i {
                            assert(names_view(before).contains(x));
                            assert(u.to_set().contains(x));
                            let k = choose|k: int| 0 <= k < u.len() && #[trigger] u[k] == x;
                            assert(v[k] == x);
                        } else {
                            assert(v[v.len() - 1] == x);
                        }
                    }
                }
                assert forall|x: Seq<char>| #[trigger] names_view(kept@).contains(x) <==> (x != name@ && exists|
                    j: int,
                |
                    0 <= j < i + 1 && (#[trigger] self.names@[j])@ == x) by {
                    assert(names_view(kept@) == v.to_set());
                }
            }
            i = i + 1;
        }
        let ghost old_view = self@;
        self.names = kept;
        proof {
            assert forall|x: Seq<char>| self@.contains(x) <==> old_view.remove(name@).contains(x) by {
                let ov = name_seq(old(self).names@);
                if old_view.contains(x) {
                    let k = choose|k: int| 0 <= k < ov.len() && #[trigger] ov[k] == x;
                    assert(old(self).names@[k]@ == x);
                }
                if exists|j: int| 0 <= j < n && (#[trigger] old(self).names@[j])@ == x {
                    let j = choose|j: int| 0 <= j < n && (#[trigger] old(self).names@[j])@ == x;
                    assert(ov[j] == x);
                }
            }
            assert(self@ =~= old_view.remove(name@));
        }
    }
}

/// Some held key's name holds `part`.
pub open spec fn any_holds(keys: Set<Seq<char>>, part: Seq<char>) -> bool {
    exists|k: Seq<char>| keys.contains(k) && has_infix(k, part)
}

/// Whether a Control key, a Meta (Super) key and the space bar are held.
pub open spec fn chord_parts(keys: Set<Seq<char>>) -> (bool, bool, bool) {
    (any_holds(keys, "Control"@), any_holds(keys, "Meta"@), any_holds(keys, "Space"@))
}

impl PressedKeys {
    fn any_holds(&self, part: &str) -> (r: bool)
        ensures
            r == any_holds(self@, part@),
    {
        let mut i: usize = 0;
        while i < self.names.len()
            invariant
                i <= self.names@.len(),
                forall|j: int| 0 <= j < i ==> !has_infix((#[trigger] self.names@[j])@, part@),
            decreases self.names.len() - i,
        {
            let name = chars_of(self.names[i].as_str());
            if contains_str(&name, part) {
                assert(name_seq(self.names@)[i as int] == self.names@[i as int]@);
                assert(self@.contains(self.names@[i as int]@));
                return true;
            }
            i = i + 1;
        }
        proof {
            let v = name_seq(self.names@);
            if any_holds(self@, part@) {
                let x = choose|x: Seq<char>| self@.contains(x) && has_infix(x, part@);
                let k = choose|k: int| 0 <= k < v.len() && #[trigger] v[k] == x;
                assert(self.names@[k]@ == x);
            }
        }
        false
    }
}

/// Whether a Control key, a Meta (Super) key and the space bar are held; holding either
/// Control key counts, so releasing one of two keeps the chord.
pub fn pressed_chord_parts(pressed: &PressedKeys) -> (r: (bool, bool, bool))
    ensures
        r == chord_parts(pressed@),
{
    (pressed.any_holds("Control"), pressed.any_holds("Meta"), pressed.any_holds("Space"))
}


/// A key going down or coming up, by name.
pub enum KeyEvent {
    Press(String),
    Release(String),
}

/// Starting or stopping a recording.
#[derive(PartialEq, Eq, Structural, Clone, Copy, Debug)]
pub enum Toggle {
    Start,
    Stop,
}

/// What a key event asks of the recorder: first the hands-free request, then the
/// push-to-talk one.
#[derive(PartialEq, Eq, Structural, Clone, Copy, Debug)]
pub struct HotkeyReaction {
    pub hands_free: Option<Toggle>,
    pub push_to_talk: Option<Toggle>,
}

/// The keys held after the event.
pub open spec fn keys_after(keys: Set<Seq<char>>, event: KeyEvent) -> Set<Seq<char>> {
    match event {
        KeyEvent::Press(n) => keys.insert(n@),
        KeyEvent::Release(n) => keys.remove(n@),
    }
}

/// Ctrl+Super held.
pub open spec fn chord_held(keys: Set<Seq<char>>) -> bool {
    chord_parts(keys).0 && chord_parts(keys).1
}

/// Ctrl+Super+Space held.
pub open spec fn hands_free_chord_held(keys: Set<Seq<char>>) -> bool {
    chord_held(keys) && chord_parts(keys).2
}

/// One step of the global hotkey handler, over the held keys, whether push-to-talk is active,
/// and whether Ctrl+Super+Space was held before the event.
///
/// Completing Ctrl+Super+Space, with hands-free mode enabled, stops an active hands-free
/// recording or starts one. Holding Ctrl+Super starts push-to-talk, unless that chord with
/// Space is the hands-free shortcut; releasing it stops push-to-talk.
pub open spec fn hotkey_step(
    s: (Set<Seq<char>>, bool, bool),
    event: KeyEvent,
    hands_free_enabled: bool,
    hands_free_active: bool,
) -> ((Set<Seq<char>>, bool, bool), HotkeyReaction) {
    let keys = keys_after(s.0, event);
    let chord = chord_held(keys);
    let hf = hands_free_chord_held(keys);
    let hands_free = if hf && !s.2 && hands_free_enabled {
        Some(
            if hands_free_active {
                Toggle::Stop
            } else {
                Toggle::Start
            },
        )
    } else {
        None
    };
    if chord && !s.1 && (!hf || !hands_free_enabled) {
        ((keys, true, hf), HotkeyReaction { hands_free, push_to_talk: Some(Toggle::Start) })
    } else if !chord && s.1 {
        ((keys, false, hf), HotkeyReaction { hands_free, push_to_talk: Some(Toggle::Stop) })
    } else {
        ((keys, s.1, hf), HotkeyReaction { hands_free, push_to_talk: None })
    }
}

/// A handler state that agrees with the keys it holds: the hands-free flag says whether
/// Ctrl+Super+Space is held, and push-to-talk is active only while Ctrl+Super is held.
pub open spec fn consistent(s: (Set<Seq<char>>, bool, bool)) -> bool {
    &&& s.2 == hands_free_chord_held(s.0)
    &&& s.1 ==> chord_held(s.0)
}

/// The state of the global hotkey handler.
pub struct HotkeyState {
    pressed: PressedKeys,
    push_to_talk: bool,
    hands_free_chord: bool,
}

impl View for HotkeyState {
    type V = (Set<Seq<char>>, bool, bool);

    closed spec fn view(&self) -> (Set<Seq<char>>, bool, bool) {
        (self.pressed@, self.push_to_talk, self.hands_free_chord)
    }
}

impl HotkeyState {
    /// No key held, nothing active.
    pub fn new() -> (r: HotkeyState)
        ensures
            r@ == (Set::<Seq<char>>::empty(), false, false),
            consistent(r@),
    {
        HotkeyState { pressed: PressedKeys::new(), push_to_talk: false, hands_free_chord: false }
    }

    /// Whether push-to-talk is active.
    pub fn push_to_talk(&self) -> (r: bool)
        ensures
            r == self@.1,
    {
        self.push_to_talk
    }

    /// Handles one key event. `hands_free_enabled` is the setting; `hands_free_active` tells
    /// whether a hands-free recording is running.
    pub fn on_key(&mut self, event: KeyEvent, hands_free_enabled: bool, hands_free_active: bool) -> (r:
        HotkeyReaction)
        ensures
            (final(self)@, r) == hotkey_step(old(self)@, event, hands_free_enabled, hands_free_active),
            consistent(final(self)@),
    {
        match event {
            KeyEvent::Press(name) => self.pressed.insert(name),
            KeyEvent::Release(name) => self.pressed.remove(name.as_str()),
        }
        let (ctrl, super_key, space) = pressed_chord_parts(&self.pressed);
        let chord = ctrl && super_key;
        let hf = chord && space;
        let hands_free = if hf && !self.hands_free_chord && hands_free_enabled {
            Some(
                if hands_free_active {
                    Toggle::Stop
                } else {
                    Toggle::Start
                },
            )
        } else {
            None
        };
        self.hands_free_chord = hf;
        let push_to_talk = if chord && !self.push_to_talk && (!hf || !hands_free_enabled) {
            self.push_to_talk = true;
            Some(Toggle::Start)
        } else if !chord && self.push_to_talk {
            self.push_to_talk = false;
            Some(Toggle::Stop)
        } else {
            None
        };
        HotkeyReaction { hands_free, push_to_talk }
    }
}

/// Push-to-talk is active only while Ctrl+Super is held.
pub proof fn push_to_talk_needs_chord(
    s: (Set<Seq<char>>, bool, bool),
    event: KeyEvent,
    hands_free_enabled: bool,
    hands_free_active: bool,
)
    ensures
        hotkey_step(s, event, hands_free_enabled, hands_free_active).0.1 ==> chord_held(
            hotkey_step(s, event, hands_free_enabled, hands_free_active).0.0,
        ),
{
}

/// Push-to-talk requests alternate: a start only while it is inactive, a stop only while it
/// is active, and its state changes with each request and only then.
pub proof fn push_to_talk_alternates(
    s: (Set<Seq<char>>, bool, bool),
    event: KeyEvent,
    hands_free_enabled: bool,
    hands_free_active: bool,
)
    ensures
        ({
            let (n, r) = hotkey_step(s, event, hands_free_enabled, hands_free_active);
            &&& r.push_to_talk == Some(Toggle::Start) ==> !s.1 && n.1
            &&& r.push_to_talk == Some(Toggle::Stop) ==> s.1 && !n.1
            &&& r.push_to_talk is None ==> n.1 == s.1
        }),
{
}

/// Releasing either modifier of a held Ctrl+Super stops push-to-talk.
pub proof fn releasing_chord_stops_push_to_talk(
    s: (Set<Seq<char>>, bool, bool),
    event: KeyEvent,
    hands_free_enabled: bool,
    hands_free_active: bool,
)
    requires
        s.1,
        !chord_held(keys_after(s.0, event)),
    ensures
        hotkey_step(s, event, hands_free_enabled, hands_free_active).1.push_to_talk == Some(
            Toggle::Stop,
        ),
        !hotkey_step(s, event, hands_free_enabled, hands_free_active).0.1,
{
}

/// Hands-free mode toggles only on the event that completes Ctrl+Super+Space, and only when
/// it is enabled: holding the chord longer toggles nothing more.
pub proof fn hands_free_toggles_on_press(
    s: (Set<Seq<char>>, bool, bool),
    event: KeyEvent,
    hands_free_enabled: bool,
    hands_free_active: bool,
)
    ensures
        ({
            let (n, r) = hotkey_step(s, event, hands_free_enabled, hands_free_active);
            &&& r.hands_free is Some <==> (n.2 && !s.2 && hands_free_enabled)
            &&& r.hands_free == Some(Toggle::Stop) ==> hands_free_active
            &&& n.2 == hands_free_chord_held(n.0)
        }),
{
}

/// Every step leaves the handler consistent with the keys it holds, whatever state it
/// started from.
pub proof fn hotkey_step_keeps_consistent(
    s: (Set<Seq<char>>, bool, bool),
    event: KeyEvent,
    hands_free_enabled: bool,
    hands_free_active: bool,
)
    ensures
        consistent(hotkey_step(s, event, hands_free_enabled, hands_free_active).0),
{
}

/// From a consistent state, hands-free mode toggles exactly on the events after which
/// Ctrl+Super+Space is held and before which it was not, when it is enabled; it stops a
/// running hands-free recording and starts one otherwise.
pub proof fn hands_free_toggles_when_chord_completes(
    s: (Set<Seq<char>>, bool, bool),
    event: KeyEvent,
    hands_free_enabled: bool,
    hands_free_active: bool,
)
    requires
        consistent(s),
    ensures
        ({
            let r = hotkey_step(s, event, hands_free_enabled, hands_free_active).1;
            &&& r.hands_free is Some <==> (hands_free_chord_held(keys_after(s.0, event))
                && !hands_free_chord_held(s.0) && hands_free_enabled)
            &&& r.hands_free is Some ==> r.hands_free == Some(
                if hands_free_active {
                    Toggle::Stop
                } else {
                    Toggle::Start
                },
            )
        }),
{
}

proof fn lemma_any_holds_after_release(keys: Set<Seq<char>>, name: Seq<char>, part: Seq<char>)
    ensures
        any_holds(keys.remove(name), part) ==> any_holds(keys, part),
{
    if any_holds(keys.remove(name), part) {
        let k = choose|k: Seq<char>| keys.remove(name).contains(k) && has_infix(k, part);
        assert(keys.contains(k));
    }
}

/// From a consistent state, releasing a key never toggles hands-free mode: only a press can
/// complete Ctrl+Super+Space.
pub proof fn release_never_toggles_hands_free(
    s: (Set<Seq<char>>, bool, bool),
    name: String,
    hands_free_enabled: bool,
    hands_free_active: bool,
)
    requires
        consistent(s),
    ensures
        hotkey_step(s, KeyEvent::Release(name), hands_free_enabled, hands_free_active).1.hands_free
            is None,
{
    lemma_any_holds_after_release(s.0, name@, "Control"@);
    lemma_any_holds_after_release(s.0, name@, "Meta"@);
    lemma_any_holds_after_release(s.0, name@, "Space"@);
}

/// The Ctrl+Super state of the experimental handler: which modifiers it saw go down and
/// whether a recording is active.
pub open spec fn modifier_step(s: (bool, bool, bool), press: bool, name: Seq<char>) -> (
    (bool, bool, bool),
    Option<Toggle>,
) {
    let ctrl = if name == "ControlLeft"@ || name == "ControlRight"@ {
        press
    } else {
        s.0
    };
    let sup = if name == "MetaLeft"@ || name == "MetaRight"@ {
        press
    } else {
        s.1
    };
    let chord = ctrl && sup;
    if chord && !s.2 {
        ((ctrl, sup, true), Some(Toggle::Start))
    } else if !chord && s.2 {
        ((ctrl, sup, false), Some(Toggle::Stop))
    } else {
        ((ctrl, sup, s.2), None)
    }
}

/// The experimental handler's modifier tracker: a Control key and a Meta key down start a
/// recording; either coming up stops it.
pub struct ModifierChord {
    pub ctrl: bool,
    pub super_key: bool,
    pub active: bool,
}

impl ModifierChord {
    pub fn new() -> (r: ModifierChord)
        ensures
            r.ctrl == false && r.super_key == false && r.active == false,
    {
        ModifierChord { ctrl: false, super_key: false, active: false }
    }

    /// Handles a key going down (`press`) or up.
    pub fn on_key(&mut self, press: bool, name: &str) -> (r: Option<Toggle>)
        ensures
            ((final(self).ctrl, final(self).super_key, final(self).active), r) == modifier_step(
                (old(self).ctrl, old(self).super_key, old(self).active),
                press,
                name@,
            ),
    {
        if same_text(name, "ControlLeft") || same_text(name, "ControlRight") {
            self.ctrl = press;
        }
        if same_text(name, "MetaLeft") || same_text(name, "MetaRight") {
            self.super_key = press;
        }
        let chord = self.ctrl && self.super_key;
        if chord && !self.active {
            self.active = true;
            Some(Toggle::Start)
        } else if !chord && self.active {
            self.active = false;
            Some(Toggle::Stop)
        } else {
            None
        }
    }
}

} // verus!
