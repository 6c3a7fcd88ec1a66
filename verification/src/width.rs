//! Display widths of characters, from the `unicode-width` crate.

use vstd::prelude::*;

verus! {

/// What `UnicodeWidthChar::width` returns for a character: its width in
/// terminal columns, or `None` for a control character.
pub uninterp spec fn unicode_char_width(c: char) -> Option<usize>;

/// The width of `c` in terminal columns (`UnicodeWidthChar::width`).
///
/// Claimed of the crate, as its source shows it: printable ASCII is one column
/// wide, C0 and C1 control characters have no width, and no width exceeds 3.
/// The lookup tables behind other characters are only named.
#[verifier::external_body]
pub(crate) fn char_width(c: char) -> (r: Option<usize>)
    ensures
        r == unicode_char_width(c),
        r matches Some(w) ==> w <= 3,
        0x20 <= (c as u32) < 0x7f ==> r == Some(1usize),
        (c as u32) < 0x20 || (0x7f <= (c as u32) < 0xa0) ==> r is None,
{
    unicode_width::UnicodeWidthChar::width(c)
}

/// The columns a character takes when drawn: one for printable ASCII, and
/// what `unicode_char_width` gives otherwise, control characters taking none.
pub open spec fn cell_width(c: char) -> nat {
    if 0x20 <= (c as u32) < 0x7f {
        1
    } else {
        match unicode_char_width(c) {
            Some(w) => w as nat,
            None => 0,
        }
    }
}

/// The columns a character takes when drawn (`width(c).unwrap_or(0)`).
pub fn display_width(c: char) -> (r: usize)
    ensures
        r == cell_width(c),
        r <= 3,
{
    match char_width(c) {
        Some(w) => w,
        None => 0,
    }
}

} // verus!
