//! Keys as the keyboard layer reports them to the clients (launcher, lock
//! screen, greeter), and the text edits they share.

use vstd::prelude::*;
use crate::text::{chars_of, string_from_chars};

verus! {

/// Editing and navigation keys of the keyboard layer.
#[derive(Debug, Clone, Copy, PartialEq, Eq, Structural)]
pub enum KeyAction {
    Escape,
    Enter,
    Backspace,
    Tab,
    Up,
    Down,
    Other,
}

/// `s` without its last character (unchanged when empty).
pub open spec fn pop_char(s: Seq<char>) -> Seq<char> {
    if s.len() == 0 { s } else { s.drop_last() }
}

/// Removes the last character of `s`, as `String::pop` does.
pub fn pop_last_char(s: &String) -> (r: String)
    ensures
        r@ == pop_char(s@),
{
    let mut cs = chars_of(s.as_str());
    if cs.len() > 0 {
        cs.pop();
    }
    proof {
        assert(cs@ =~= pop_char(s@));
    }
    string_from_chars(&cs)
}

} // verus!
