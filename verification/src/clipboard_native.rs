//! Clipboard decisions where X11 tools are not available.
use crate::text::same_text;
use vstd::prelude::*;

verus! {

/// Without X11 there is no way to ask for the active window here, so there is none; the
/// overlay then goes to the primary monitor.
pub fn active_window() -> (r: Option<String>)
    ensures
        r is None,
{
    None
}

/// After a paste, the text to put back on the clipboard: the earlier contents, and only when
/// the clipboard still holds the inserted text, so that a change the user made meanwhile
/// stays.
pub fn text_to_restore(current: Option<&str>, inserted: &str, previous: Option<String>) -> (r:
    Option<String>)
    ensures
        r == (match (current, previous) {
            (Some(c), Some(p)) => if c@ == inserted@ {
                Some(p)
            } else {
                None
            },
            _ => None::<String>,
        }),
{
    match (current, previous) {
        (Some(c), Some(p)) => {
            if same_text(c, inserted) {
                Some(p)
            } else {
                None
            }
        },
        _ => None,
    }
}

} // verus!
