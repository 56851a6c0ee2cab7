//! The keys of a host keyboard that stand for the sixteen keys of the keypad.

use vstd::prelude::*;

verus! {

/// The keypad key that a host key code stands for: the codes of the digits `0` to `9` for the
/// keys 0 to 9, those of the letters `a` to `f` for the keys 10 to 15.
pub open spec fn key_of_code(code: u32) -> Option<u8> {
    if 48 <= code <= 57 {
        Some((code - 48) as u8)
    } else if 97 <= code <= 102 {
        Some((code - 87) as u8)
    } else {
        None
    }
}

/// The keypad key that a host key code stands for, if it stands for one.
pub fn key_for_code(code: u32) -> (key: Option<u8>)
    ensures
        key == key_of_code(code),
        key matches Some(k) ==> k < 16,
{
    if 48 <= code && code <= 57 {
        Some((code - 48) as u8)
    } else if 97 <= code && code <= 102 {
        Some((code - 87) as u8)
    } else {
        None
    }
}

} // verus!
