//! The login-startup entry.
use crate::text::{chars_of, push_char};
use vstd::prelude::*;

verus! {

/// A character escaped for a double-quoted `Exec` value: `\` and `"` get a backslash.
pub open spec fn escaped_char(c: char) -> Seq<char> {
    if c == '\\' {
        seq!['\\', '\\']
    } else if c == '"' {
        seq!['\\', '"']
    } else {
        seq![c]
    }
}

/// The text with each character escaped.
pub open spec fn escaped(s: Seq<char>) -> Seq<char>
    decreases s.len(),
{
    if s.len() == 0 {
        seq![]
    } else {
        escaped(s.drop_last()) + escaped_char(s.last())
    }
}

pub open spec fn entry_head() -> Seq<char> {
    "[Desktop Entry]\nType=Application\nName=Flow Linux\nExec=\""@
}

pub open spec fn entry_tail() -> Seq<char> {
    "\"\nTerminal=false\nX-GNOME-Autostart-enabled=true\n"@
}

/// The XDG autostart desktop entry that starts `executable` at login.
pub fn desktop_entry(executable: &str) -> (r: String)
    ensures
        r@ == entry_head() + escaped(executable@) + entry_tail(),
{
    let v = chars_of(executable);
    let mut out = "[Desktop Entry]\nType=Application\nName=Flow Linux\nExec=\"".to_owned();
    let mut i: usize = 0;
    assert(escaped(v@.take(0)) =~= Seq::<char>::empty());
    while i < v.len()
        invariant
            v@ == executable@,
            i <= v.len(),
            out@ == entry_head() + escaped(v@.take(i as int)),
        decreases v.len() - i,
    {
        let c = v[i];
        if c == '\\' {
            push_char(&mut out, '\\');
            push_char(&mut out, '\\');
        } else if c == '"' {
            push_char(&mut out, '\\');
            push_char(&mut out, '"');
        } else {
            push_char(&mut out, c);
        }
        proof {
            let t = v@.take(i + 1);
            assert(t.drop_last() =~= v@.take(i as int));
            assert(t.last() == c);
            assert(out@ =~= entry_head() + escaped(t));
        }
        i = i + 1;
    }
    assert(v@.take(i as int) =~= v@);
    let tail = "\"\nTerminal=false\nX-GNOME-Autostart-enabled=true\n";
    let mut j: usize = 0;
    let tv = chars_of(tail);
    let ghost head = out@;
    while j < tv.len()
        invariant
            tv@ == tail@,
            j <= tv.len(),
            out@ == head + tv@.take(j as int),
        decreases tv.len() - j,
    {
        push_char(&mut out, tv[j]);
        assert(tv@.take(j + 1) =~= tv@.take(j as int).push(tv@[j as int]));
        j = j + 1;
    }
    assert(tv@.take(j as int) =~= tv@);
    out
}

} // verus!
