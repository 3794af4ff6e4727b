//! Display width of a character or a text, as the `unicode-width` crate
//! computes it.

use vstd::prelude::*;
use unicode_width::{UnicodeWidthChar, UnicodeWidthStr};

verus! {

/// The number of columns that `unicode_width::UnicodeWidthChar::width` gives
/// for a character (`None` for a control character).
pub uninterp spec fn char_width(c: char) -> Option<usize>;

/// Calls `UnicodeWidthChar::width` of the `unicode-width` crate.
///
/// Trusted: the result is `char_width(c)`; and, as the crate's source shows
/// (`lookup::single_char_width`), printable ASCII is one column wide, the C0
/// and C1 control characters and DEL have no width (`None`), and every other
/// character has a width of at most three columns.
#[verifier::external_body]
pub(crate) fn display_width(c: char) -> (w: Option<usize>)
    ensures
        w == char_width(c),
        0x20 <= c as u32 && (c as u32) < 0x7f ==> w == Some(1usize),
        (c as u32) < 0x20 || (0x7f <= c as u32 && (c as u32) < 0xa0) ==> w is None,
        0xa0 <= c as u32 ==> (w is Some && w->0 <= 3),
{
    c.width()
}

/// The number of columns that `unicode_width::UnicodeWidthStr::width` gives
/// for a text.
pub uninterp spec fn text_width(s: Seq<char>) -> usize;

/// Calls `UnicodeWidthStr::width` of the `unicode-width` crate.
///
/// Trusted: the result is `text_width` of the text, a function of the text
/// alone; what it is is left unsaid.
#[verifier::external_body]
pub(crate) fn str_width(s: &str) -> (w: usize)
    ensures
        w == text_width(s@),
{
    UnicodeWidthStr::width(s)
}

} // verus!
