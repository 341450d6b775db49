//! Packed RGB values and the colors a cell is actually painted with.

use vstd::prelude::*;
use crate::style::{Cell, CellView, Color, Modifier, REVERSED};
use crate::canvas_utils::{ansi_rgb, ansi_to_rgb};

verus! {

/// The 24-bit value `0xRRGGBB` of an RGB triple.
pub open spec fn packed_rgb(r: u8, g: u8, b: u8) -> u32 {
    (r * 65536 + g * 256 + b) as u32
}

/// The packed RGB value of a color: 24-bit colors as they are, named colors
/// by their triple, and `fallback` for the reset color and palette indexes.
pub open spec fn rgb_value(color: Color, fallback: u32) -> u32 {
    match color {
        Color::Rgb(r, g, b) => packed_rgb(r, g, b),
        _ => match ansi_rgb(color) {
            Some((r, g, b)) => packed_rgb(r, g, b),
            None => fallback,
        },
    }
}

fn pack(r: u8, g: u8, b: u8) -> (v: u32)
    ensures
        v == packed_rgb(r, g, b),
{
    (r as u32) * 65536 + (g as u32) * 256 + (b as u32)
}

/// Converts a color to its packed RGB value, `fallback` where it has none.
pub fn to_rgb(color: Color, fallback: u32) -> (v: u32)
    ensures
        v == rgb_value(color, fallback),
{
    match color {
        Color::Rgb(r, g, b) => pack(r, g, b),
        _ => match ansi_to_rgb(color) {
            Some((r, g, b)) => pack(r, g, b),
            None => fallback,
        },
    }
}

/// The color the text of a cell is painted with: its foreground, or its
/// background when reversed; a reset foreground paints `fallback`, a reset
/// background paints `bg`.
pub open spec fn fg_paint(cell: CellView, modifiers: u16, fallback: Color, bg: Color) -> Color {
    if modifiers & REVERSED == REVERSED {
        if cell.bg == Color::Reset { bg } else { cell.bg }
    } else {
        if cell.fg == Color::Reset { fallback } else { cell.fg }
    }
}

/// The color the background of a cell is painted with: its background, or its
/// foreground when reversed; a reset background paints `bg`, a reset
/// foreground paints `fallback`.
pub open spec fn bg_paint(cell: CellView, modifiers: u16, fallback: Color, bg: Color) -> Color {
    if modifiers & REVERSED == REVERSED {
        if cell.fg == Color::Reset { fallback } else { cell.fg }
    } else {
        if cell.bg == Color::Reset { bg } else { cell.bg }
    }
}

/// The color the text of a cell is painted with.
pub fn actual_fg_color(cell: &Cell, modifiers: Modifier, fallback: Color, bg: Color) -> (c: Color)
    ensures
        c == fg_paint(cell@, modifiers.bits, fallback, bg),
{
    if modifiers.bits & REVERSED == REVERSED {
        if cell.bg == Color::Reset { bg } else { cell.bg }
    } else {
        if cell.fg == Color::Reset { fallback } else { cell.fg }
    }
}

/// The color the background of a cell is painted with.
pub fn actual_bg_color(cell: &Cell, modifiers: Modifier, fallback: Color, bg: Color) -> (c: Color)
    ensures
        c == bg_paint(cell@, modifiers.bits, fallback, bg),
{
    if modifiers.bits & REVERSED == REVERSED {
        if cell.fg == Color::Reset { fallback } else { cell.fg }
    } else {
        if cell.bg == Color::Reset { bg } else { cell.bg }
    }
}

} // verus!

verus! {

/// Reversal swaps the two paints of a cell: with `REVERSED` among the drawn
/// modifiers its text takes the paint its background has without it, and
/// its background the paint its text has without it. Without reversal the
/// text is painted in the cell's foreground, or `fallback` when that is
/// reset, and the background in the cell's background, or `bg` when reset.
pub proof fn lemma_reversal_swaps_paints(cell: CellView, modifiers: u16, fallback: Color, bg: Color)
    ensures
        fg_paint(cell, modifiers | REVERSED, fallback, bg) == bg_paint(cell, modifiers & !REVERSED, fallback, bg),
        bg_paint(cell, modifiers | REVERSED, fallback, bg) == fg_paint(cell, modifiers & !REVERSED, fallback, bg),
        fg_paint(cell, modifiers & !REVERSED, fallback, bg) == (if cell.fg == Color::Reset { fallback } else { cell.fg }),
        bg_paint(cell, modifiers & !REVERSED, fallback, bg) == (if cell.bg == Color::Reset { bg } else { cell.bg }),
{
    assert((modifiers | 0x040u16) & 0x040u16 == 0x040u16) by (bit_vector);
    assert((modifiers & !0x040u16) & 0x040u16 != 0x040u16) by (bit_vector);
}

/// A reversed cell whose text and background paints differ without reversal
/// still shows its text: the two paints stay different.
pub proof fn lemma_reversed_text_stays_visible(cell: CellView, modifiers: u16, fallback: Color, bg: Color)
    requires
        fg_paint(cell, modifiers & !REVERSED, fallback, bg) != bg_paint(cell, modifiers & !REVERSED, fallback, bg),
    ensures
        fg_paint(cell, modifiers | REVERSED, fallback, bg) != bg_paint(cell, modifiers | REVERSED, fallback, bg),
{
    lemma_reversal_swaps_paints(cell, modifiers, fallback, bg);
}

/// A packed RGB value holds the red channel in its high byte, green in the
/// middle one and blue in the low one: each channel reads back from it, and
/// it fits in 24 bits.
pub proof fn lemma_packed_rgb_channels(r: u8, g: u8, b: u8)
    ensures
        packed_rgb(r, g, b) < 0x1000000,
        packed_rgb(r, g, b) / 65536 == r,
        (packed_rgb(r, g, b) / 256) % 256 == g,
        packed_rgb(r, g, b) % 256 == b,
{
    let v: int = r * 65536 + g * 256 + b;
    assert(0 <= v < 0x1000000);
    assert(packed_rgb(r, g, b) == v);
    assert(v / 65536 == r) by (nonlinear_arith)
        requires v == r * 65536 + g * 256 + b, 0 <= r < 256, 0 <= g < 256, 0 <= b < 256;
    assert(v / 256 == r * 256 + g) by (nonlinear_arith)
        requires v == r * 65536 + g * 256 + b, 0 <= r < 256, 0 <= g < 256, 0 <= b < 256;
    assert((r * 256 + g) % 256 == g) by (nonlinear_arith)
        requires 0 <= r < 256, 0 <= g < 256;
    assert(v % 256 == b) by (nonlinear_arith)
        requires v == r * 65536 + g * 256 + b, 0 <= r < 256, 0 <= g < 256, 0 <= b < 256;
}

} // verus!
