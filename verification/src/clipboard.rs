use crate::text::{
    chars_of, contains_chars, contains_str, has_infix, lower, lower_chars, occurs_at, string_of, trim,
    trim_bounds,
};
use vstd::prelude::*;

verus! {

/// Window class or title fragments of terminal emulators.
pub open spec fn terminal_names() -> Seq<Seq<char>> {
    seq![
        "terminal"@,
        "xterm"@,
        "kitty"@,
        "alacritty"@,
        "wezterm"@,
        "konsole"@,
        "foot"@,
        "urxvt"@,
        "rxvt"@,
        "st-"@,
        "stterm"@,
        "tilix"@,
        "terminator"@,
        "qterminal"@,
        "lxterminal"@,
        "mate-terminal"@,
        "ghostty"@,
        "contour"@,
        "hyper"@,
        "tabby"@,
        "rio"@,
        "cool-retro-term"@,
        "blackbox"@,
        "ptyxis"@,
        "kgx"@,
    ]
}

fn terminal_name_list() -> (v: Vec<&'static str>)
    ensures
        v@.len() == terminal_names().len(),
        forall|i: int| 0 <= i < v@.len() ==> (#[trigger] v@[i])@ == terminal_names()[i],
{
    let v = vec![
        "terminal",
        "xterm",
        "kitty",
        "alacritty",
        "wezterm",
        "konsole",
        "foot",
        "urxvt",
        "rxvt",
        "st-",
        "stterm",
        "tilix",
        "terminator",
        "qterminal",
        "lxterminal",
        "mate-terminal",
        "ghostty",
        "contour",
        "hyper",
        "tabby",
        "rio",
        "cool-retro-term",
        "blackbox",
        "ptyxis",
        "kgx",
    ];
    v
}

/// A window whose class or title, in ASCII lower case, holds the name of a terminal emulator.
pub open spec fn terminal_window(class: Seq<char>, title: Seq<char>) -> bool {
    exists|i: int|
        0 <= i < terminal_names().len() && (has_infix(lower(class), #[trigger] terminal_names()[i])
            || has_infix(lower(title), terminal_names()[i]))
}

/// Whether the window with this class and title is a terminal emulator.
pub fn is_terminal(class: &str, title: &str) -> (r: bool)
    ensures
        r == terminal_window(class@, title@),
{
    is_terminal_chars(&chars_of(class), &chars_of(title))
}

/// The key stroke that pastes text into a window with this class and title: Shift+Insert in
/// Codex and in terminals, where Ctrl+V can mean an image paste; Ctrl+V elsewhere.
pub open spec fn shortcut_for(class: Seq<char>, title: Seq<char>) -> Seq<char> {
    if has_infix(lower(class), "codex"@) || has_infix(lower(title), "codex"@) || terminal_window(
        lower(class),
        lower(title),
    ) {
        "shift+Insert"@
    } else {
        "ctrl+v"@
    }
}

/// Terminal windows and Codex get Shift+Insert; every other window gets Ctrl+V. Codex counts
/// when its name, in any ASCII case, is in the class or in the title.
pub proof fn terminals_paste_with_shift_insert(class: Seq<char>, title: Seq<char>)
    ensures
        terminal_window(lower(class), lower(title)) ==> shortcut_for(class, title)
            == "shift+Insert"@,
        has_infix(lower(title), "codex"@) ==> shortcut_for(class, title) == "shift+Insert"@,
        !terminal_window(lower(class), lower(title)) && !has_infix(lower(class), "codex"@)
            && !has_infix(lower(title), "codex"@) ==> shortcut_for(class, title) == "ctrl+v"@,
        has_infix(lower(class), "codex"@) ==> shortcut_for(class, title) == "shift+Insert"@,
        terminal_window(class, title) ==> shortcut_for(class, title) == "shift+Insert"@,
        shortcut_for(class, title) == "shift+Insert"@ || shortcut_for(class, title) == "ctrl+v"@,
        shortcut_for(class, title) == "shift+Insert"@ <==> (has_infix(lower(class), "codex"@)
            || has_infix(lower(title), "codex"@) || terminal_window(class, title)),
{
    terminal_window_ignores_case(class, title, class, title);
    reveal_strlit("shift+Insert");
    reveal_strlit("ctrl+v");
    assert("shift+Insert"@[0] != "ctrl+v"@[0]);
}

/// Class and title play the same part: a window is a terminal whichever of the two holds
/// the name.
pub proof fn terminal_window_symmetric(class: Seq<char>, title: Seq<char>)
    ensures
        terminal_window(class, title) == terminal_window(title, class),
{
}

/// Detection ignores ASCII case: texts that agree in lower case are detected alike, and a
/// text in lower case is detected as the text itself.
pub proof fn terminal_window_ignores_case(
    class: Seq<char>,
    title: Seq<char>,
    class2: Seq<char>,
    title2: Seq<char>,
)
    ensures
        lower(class) == lower(class2) && lower(title) == lower(title2) ==> terminal_window(
            class,
            title,
        ) == terminal_window(class2, title2),
        terminal_window(lower(class), lower(title)) == terminal_window(class, title),
{
    lemma_lower_twice(class);
    lemma_lower_twice(title);
}

proof fn lemma_lower_twice(s: Seq<char>)
    ensures
        lower(lower(s)) == lower(s),
{
    assert forall|i: int| 0 <= i < s.len() implies #[trigger] lower(lower(s))[i] == lower(s)[i] by {
        let c = s[i];
        if 'A' <= c && c <= 'Z' {
            assert((c as u32) + 32 >= 97);
        }
    }
    assert(lower(lower(s)) =~= lower(s));
}

proof fn lemma_infix_in_middle(p: Seq<char>, a: Seq<char>, q: Seq<char>, t: Seq<char>)
    requires
        has_infix(a, t),
    ensures
        has_infix(p + a + q, t),
{
    let i = choose|i: int| occurs_at(a, t, i);
    let s = p + a + q;
    assert(s.subrange(p.len() + i, p.len() + i + t.len()) =~= a.subrange(i, i + t.len()));
    assert(occurs_at(s, t, p.len() + i));
}

/// Adding text around the class never hides a terminal that the class alone showed.
pub proof fn terminal_window_survives_extension(
    prefix: Seq<char>,
    class: Seq<char>,
    suffix: Seq<char>,
    title: Seq<char>,
)
    requires
        terminal_window(class, title),
    ensures
        terminal_window(prefix + class + suffix, title),
{
    let i = choose|i: int|
        0 <= i < terminal_names().len() && (has_infix(lower(class), #[trigger] terminal_names()[i])
            || has_infix(lower(title), terminal_names()[i]));
    assert(lower(prefix + class + suffix) =~= lower(prefix) + lower(class) + lower(suffix));
    if has_infix(lower(class), terminal_names()[i]) {
        lemma_infix_in_middle(lower(prefix), lower(class), lower(suffix), terminal_names()[i]);
    }
}

pub open spec fn or_empty(s: Option<&str>) -> Seq<char> {
    match s {
        Some(t) => t@,
        None => Seq::empty(),
    }
}

/// The `xdotool key` argument that pastes into the window; a missing class or title counts
/// as empty.
pub fn paste_shortcut(class: Option<&str>, title: Option<&str>) -> (r: &'static str)
    ensures
        r@ == shortcut_for(or_empty(class), or_empty(title)),
        r@ == "shift+Insert"@ || r@ == "ctrl+v"@,
        r@ == "shift+Insert"@ <==> (has_infix(lower(or_empty(class)), "codex"@) || has_infix(
            lower(or_empty(title)),
            "codex"@,
        ) || terminal_window(or_empty(class), or_empty(title))),
{
    proof {
        terminals_paste_with_shift_insert(or_empty(class), or_empty(title));
    }
    let class_chars = match class {
        Some(c) => chars_of(c),
        None => Vec::new(),
    };
    let title_chars = match title {
        Some(t) => chars_of(t),
        None => Vec::new(),
    };
    assert(class_chars@ == or_empty(class));
    assert(title_chars@ == or_empty(title));
    let class_lower = lower_chars(&class_chars);
    let title_lower = lower_chars(&title_chars);
    if contains_str(&class_lower, "codex") || contains_str(&title_lower, "codex") {
        "shift+Insert"
    } else if is_terminal_chars(&class_lower, &title_lower) {
        "shift+Insert"
    } else {
        "ctrl+v"
    }
}

fn is_terminal_chars(class: &Vec<char>, title: &Vec<char>) -> (r: bool)
    ensures
        r == terminal_window(class@, title@),
{
    let class_lower = lower_chars(class);
    let title_lower = lower_chars(title);
    let names = terminal_name_list();
    let mut i: usize = 0;
    while i < names.len()
        invariant
            i <= names@.len(),
            class_lower@ == lower(class@),
            title_lower@ == lower(title@),
            names@.len() == terminal_names().len(),
            forall|j: int| 0 <= j < names@.len() ==> (#[trigger] names@[j])@ == terminal_names()[j],
            forall|j: int|
                0 <= j < i ==> !has_infix(class_lower@, #[trigger] terminal_names()[j])
                    && !has_infix(title_lower@, terminal_names()[j]),
        decreases names.len() - i,
    {
        let name = chars_of(names[i]);
        if contains_chars(&class_lower, &name) || contains_chars(&title_lower, &name) {
            assert(names@[i as int]@ == terminal_names()[i as int]);
            return true;
        }
        i = i + 1;
    }
    false
}


/// What `String::from_utf8_lossy` gives: the text of UTF-8 bytes, with each invalid
/// sequence replaced by U+FFFD.
pub uninterp spec fn utf8_lossy(bytes: Seq<u8>) -> Seq<char>;

/// Calls `String::from_utf8_lossy`; its result is named `utf8_lossy`.
#[verifier::external_body]
fn decode_lossy(bytes: &[u8]) -> (r: String)
    ensures
        r@ == utf8_lossy(bytes@),
{
    String::from_utf8_lossy(bytes).into_owned()
}

/// The window id that `xdotool getactivewindow` printed: its output trimmed, if anything
/// remains.
pub fn window_id(stdout: &[u8]) -> (r: Option<String>)
    ensures
        match r {
            Some(id) => id@ == trim(utf8_lossy(stdout@)) && id@.len() > 0,
            None => trim(utf8_lossy(stdout@)).len() == 0,
        },
{
    let text = decode_lossy(stdout);
    window_id_from_text(text.as_str())
}

/// A window id in decoded `xdotool` output: the text trimmed, if anything remains.
pub fn window_id_from_text(text: &str) -> (r: Option<String>)
    ensures
        match r {
            Some(id) => id@ == trim(text@) && id@.len() > 0,
            None => trim(text@).len() == 0,
        },
{
    let v = chars_of(text);
    let (a, b) = trim_bounds(&v, 0, v.len());
    assert(v@.subrange(0, v@.len() as int) =~= v@);
    if a == b {
        None
    } else {
        Some(string_of(&v, a, b))
    }
}

/// A window class or title that `xdotool` printed: its output trimmed and in ASCII lower
/// case, if anything remains.
pub fn window_label(stdout: &[u8]) -> (r: Option<String>)
    ensures
        match r {
            Some(label) => label@ == lower(trim(utf8_lossy(stdout@))) && label@.len() > 0,
            None => trim(utf8_lossy(stdout@)).len() == 0,
        },
{
    let text = decode_lossy(stdout);
    window_label_from_text(text.as_str())
}

/// A window class or title in decoded `xdotool` output: the text trimmed and in ASCII lower
/// case, if anything remains.
pub fn window_label_from_text(text: &str) -> (r: Option<String>)
    ensures
        match r {
            Some(label) => label@ == lower(trim(text@)) && label@.len() > 0,
            None => trim(text@).len() == 0,
        },
{
    let v = chars_of(text);
    let (a, b) = trim_bounds(&v, 0, v.len());
    assert(v@.subrange(0, v@.len() as int) =~= v@);
    if a == b {
        None
    } else {
        let t = string_of(&v, a, b);
        let lowered = lower_chars(&chars_of(t.as_str()));
        Some(string_of(&lowered, 0, lowered.len()))
    }
}

} // verus!
