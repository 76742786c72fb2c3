//! Where text goes on a terminal of a given width.

use vstd::prelude::*;
use vstd::string::StrSliceExecFns;

verus! {

/// The column at which a text of `text_width` columns starts when it is
/// centred on a terminal `terminal_width` columns wide: half of the room
/// that is left, and the first column where the text does not fit.
pub open spec fn centered(text_width: int, terminal_width: int) -> int {
    if terminal_width > text_width {
        (terminal_width - text_width) / 2
    } else {
        0
    }
}

/// The column at which a text of `text_width` columns starts when it is
/// centred on a terminal `terminal_width` columns wide.
pub fn center_offset(text_width: u16, terminal_width: u16) -> (x: u16)
    ensures
        x == centered(text_width as int, terminal_width as int),
{
    if terminal_width > text_width {
        (terminal_width - text_width) / 2
    } else {
        0
    }
}

/// The column at which `text` starts when it is centred on a terminal
/// `terminal_width` columns wide. Each character counts as one column, and
/// the count wraps at 65536.
pub fn center_x(text: &str, terminal_width: u16) -> (x: u16)
    ensures
        x == centered((text@.len() % 0x1_0000) as int, terminal_width as int),
{
    let chars: u64 = text.unicode_len() as u64;
    let text_width: u16 = #[verifier::truncate] (chars as u16);
    assert(text_width == chars % 0x1_0000) by (bit_vector)
        requires
            text_width == chars as u16,
    ;
    center_offset(text_width, terminal_width)
}

} // verus!
