//! What the launcher reads from its surroundings.
use vstd::prelude::*;
use crate::codec::same_text;

verus! {

/// Reads a yes/no setting: `1`, `true`, `yes` and `y` mean yes; `0`, `false`,
/// `no` and `n` mean no, with case counting; anything else is not understood.
pub open spec fn flag_of_text(t: Seq<char>) -> Option<bool> {
    if t == "1"@ || t == "true"@ || t == "yes"@ || t == "y"@ {
        Some(true)
    } else if t == "0"@ || t == "false"@ || t == "no"@ || t == "n"@ {
        Some(false)
    } else {
        None
    }
}

/// Whether the setting asks for the inspector page to be opened.
pub fn open_flag(value: &str) -> (r: Option<bool>)
    ensures
        r == flag_of_text(value@),
{
    if same_text(value, "1") || same_text(value, "true") || same_text(value, "yes") || same_text(
        value,
        "y",
    ) {
        Some(true)
    } else if same_text(value, "0") || same_text(value, "false") || same_text(value, "no")
        || same_text(value, "n") {
        Some(false)
    } else {
        None
    }
}

} // verus!
