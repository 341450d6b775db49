//! The hyperlink marker that the DOM renderer turns into `<a>` elements.

use vstd::prelude::*;
use crate::style::{CellView, Modifier, Style};

verus! {

/// The modifier bits that mark a cell as part of a hyperlink (slow blink).
pub const HYPERLINK: u16 = 0x010;

/// Whether a cell is part of a hyperlink.
pub open spec fn is_link(c: CellView) -> bool {
    c.modifier.bits & HYPERLINK == HYPERLINK
}

/// Whether a cell is part of a hyperlink.
pub fn is_hyperlink(modifier: Modifier) -> (r: bool)
    ensures
        r == (modifier.bits & HYPERLINK == HYPERLINK),
{
    modifier.contains(Modifier::from_bits(HYPERLINK))
}

/// The style of hyperlink text: the hyperlink marker added.
pub fn hyperlink_style() -> (r: Style)
    ensures
        r.add_modifier.bits == HYPERLINK,
        r.sub_modifier.bits == 0,
        r.fg is None,
        r.bg is None,
        r.underline_color is None,
{
    let r = Style::new().add_modifier(Modifier::from_bits(HYPERLINK));
    assert(0u16 | 0x010u16 == 0x010u16 && 0u16 & !0x010u16 == 0u16) by (bit_vector);
    r
}

} // verus!
