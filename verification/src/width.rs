//! Terminal display widths of characters and strings (`unicode-width`).

use vstd::prelude::*;
use unicode_width::{UnicodeWidthChar, UnicodeWidthStr};

verus! {

/// What `UnicodeWidthChar::width` returns for `c`.
pub uninterp spec fn char_width(c: char) -> Option<usize>;

/// What `UnicodeWidthStr::width` returns for a string with characters `s`.
pub uninterp spec fn str_width(s: Seq<char>) -> usize;

/// Column width of one character, counting control characters as zero.
pub open spec fn cell_width(c: char) -> nat {
    match char_width(c) {
        Some(w) => w as nat,
        None => 0,
    }
}

/// `UnicodeWidthChar::width`: the column width of `c` from the Unicode
/// East Asian Width tables. Stated beyond the name, as the crate's code shows:
/// printable ASCII is one column wide, the C0 and C1 control codes have no
/// width (`None`), and no character is wider than three columns.
#[verifier::external_body]
pub(crate) fn char_width_of(c: char) -> (r: Option<usize>)
    ensures
        r == char_width(c),
        (0x20 <= c as u32 && (c as u32) < 0x7F) ==> r == Some(1usize),
        ((c as u32) < 0x20 || (0x7F <= c as u32 && (c as u32) < 0xA0)) ==> r is None,
        r matches Some(w) ==> w <= 3,
{
    UnicodeWidthChar::width(c)
}

/// `UnicodeWidthStr::width`: the column width of the whole string, which
/// accounts for emoji and other multi-character sequences; only its name is
/// stated.
#[verifier::external_body]
pub(crate) fn str_width_of(s: &str) -> (r: usize)
    ensures
        r == str_width(s@),
{
    UnicodeWidthStr::width(s)
}

} // verus!
