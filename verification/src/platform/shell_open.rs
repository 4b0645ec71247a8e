//! Handing a file to whatever the user has chosen to open it with.

use vstd::prelude::*;

verus! {

/// Up to this, the shell's answer is an error code rather than an instance handle.
pub const SUCCESS_ABOVE: isize = 32;

/// Whether the shell opened the file it was handed, by the number it answered.
pub fn open(answer: isize) -> (r: bool)
    ensures
        r == (answer > SUCCESS_ABOVE),
{
    answer > SUCCESS_ABOVE
}

} // verus!
