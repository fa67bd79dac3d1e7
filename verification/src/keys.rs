//! Key events recognized by the selection controller.
//!
//! The controller reacts to three key codes, `ArrowDown`, `ArrowUp` and
//! `Enter`; every other code is accepted but changes nothing. Codes arrive
//! as strings from the event source and are classified by [`parse_key`].

use vstd::prelude::*;

verus! {

use vstd::string::StrSliceExecFns;

/// A classified key event.
#[derive(Clone, Copy, Debug, PartialEq, Eq, Structural)]
pub enum Key {
    /// Moves the highlight cursor one step down the list.
    ArrowDown,
    /// Moves the highlight cursor one step up the list.
    ArrowUp,
    /// Commits the current highlight as the selection.
    Enter,
    /// Any other key; leaves the selection state unchanged.
    Other,
}

/// The key that a given key code names.
pub open spec fn key_of_code(code: Seq<char>) -> Key {
    if code == "ArrowDown"@ {
        Key::ArrowDown
    } else if code == "ArrowUp"@ {
        Key::ArrowUp
    } else if code == "Enter"@ {
        Key::Enter
    } else {
        Key::Other
    }
}

/// Character-for-character equality of two string slices.
pub fn str_eq(a: &str, b: &str) -> (r: bool)
    ensures
        r == (a@ == b@),
{
    let a_len: usize = a.unicode_len();
    let b_len: usize = b.unicode_len();
    if a_len != b_len {
        return false;
    }
    let mut i: usize = 0;
    while i < a_len
        invariant
            a_len == a@.len(),
            b_len == b@.len(),
            a_len == b_len,
            i <= a_len,
            forall|j: int| 0 <= j < i ==> a@[j] == b@[j],
        decreases a_len - i,
    {
        let ca = a.get_char(i);
        let cb = b.get_char(i);
        if ca != cb {
            return false;
        }
        i += 1;
    }
    proof {
        assert(a@ =~= b@);
    }
    true
}

/// Classify a key code string into the [`Key`] it names.
pub fn parse_key(code: &str) -> (k: Key)
    ensures
        k == key_of_code(code@),
{
    if str_eq(code, "ArrowDown") {
        Key::ArrowDown
    } else if str_eq(code, "ArrowUp") {
        Key::ArrowUp
    } else if str_eq(code, "Enter") {
        Key::Enter
    } else {
        Key::Other
    }
}

} // verus!
