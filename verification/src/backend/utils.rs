//! CSS text for cells and colors, and the text of hyperlinks.

use vstd::prelude::*;
use crate::canvas_utils::{ansi_rgb, ansi_to_rgb};
use crate::style::{
    blank_grid, grid_view, sized_grid, Cell, CellView, Color, Modifier, Size, BOLD, CROSSED_OUT,
    DIM, HIDDEN, ITALIC, REVERSED, UNDERLINED,
};
use crate::text::{decimal, push_decimal};
use crate::utils::{get_screen_size, get_window_size};

verus! {

/// The CSS text `rgb(r, g, b)` of an RGB triple, in decimal.
pub open spec fn rgb_text(t: (u8, u8, u8)) -> Seq<char> {
    "rgb("@ + decimal(t.0 as nat) + ", "@ + decimal(t.1 as nat) + ", "@ + decimal(t.2 as nat) + ")"@
}

/// Appends `rgb(r, g, b)`.
pub fn push_rgb(s: &mut String, t: (u8, u8, u8))
    ensures
        final(s)@ == old(s)@ + rgb_text(t),
{
    let ghost s0 = s@;
    s.append("rgb(");
    push_decimal(s, t.0);
    s.append(", ");
    push_decimal(s, t.1);
    s.append(", ");
    push_decimal(s, t.2);
    s.append(")");
    assert(s@ =~= s0 + rgb_text(t));
}

/// Whether every bit of `bits` is set in `m`.
pub open spec fn has_bits(m: Modifier, bits: u16) -> bool {
    m.bits & bits == bits
}

/// The CSS declaration of one modifier, or nothing when it is not set.
pub open spec fn modifier_part(m: Modifier, bits: u16, css: Seq<char>) -> Seq<char> {
    if has_bits(m, bits) { css } else { seq![] }
}

/// The CSS declarations of a cell's modifiers, in a fixed order: bold, dim,
/// italic, underlined, hidden, crossed out.
pub open spec fn modifier_css(m: Modifier) -> Seq<char> {
    modifier_part(m, BOLD, "font-weight: bold; "@)
        + modifier_part(m, DIM, "opacity: 0.5; "@)
        + modifier_part(m, ITALIC, "font-style: italic; "@)
        + modifier_part(m, UNDERLINED, "text-decoration: underline; "@)
        + modifier_part(m, HIDDEN, "visibility: hidden; "@)
        + modifier_part(m, CROSSED_OUT, "text-decoration: line-through; "@)
}

/// The text and background triples of a cell, swapped when it is reversed.
pub open spec fn css_colors(c: CellView) -> (Option<(u8, u8, u8)>, Option<(u8, u8, u8)>) {
    if has_bits(c.modifier, REVERSED) {
        (ansi_rgb(c.bg), ansi_rgb(c.fg))
    } else {
        (ansi_rgb(c.fg), ansi_rgb(c.bg))
    }
}

/// The `color` declaration: the text triple, white where there is none.
pub open spec fn fg_css(c: CellView) -> Seq<char> {
    match css_colors(c).0 {
        Some(t) => "color: "@ + rgb_text(t) + ";"@,
        None => "color: rgb(255, 255, 255);"@,
    }
}

/// The `background-color` declaration: the background triple; where there is
/// none, white for a reversed cell and transparent otherwise.
pub open spec fn bg_css(c: CellView) -> Seq<char> {
    match css_colors(c).1 {
        Some(t) => "background-color: "@ + rgb_text(t) + ";"@,
        None => if has_bits(c.modifier, REVERSED) {
            "background-color: rgb(255, 255, 255);"@
        } else {
            "background-color: transparent;"@
        },
    }
}

/// The inline CSS style of a cell.
pub open spec fn cell_css(c: CellView) -> Seq<char> {
    fg_css(c) + " "@ + bg_css(c) + " "@ + modifier_css(c.modifier)
}

fn push_modifier_part(s: &mut String, m: Modifier, bits: u16, css: &str)
    ensures
        final(s)@ == old(s)@ + modifier_part(m, bits, css@),
{
    if m.contains(Modifier::from_bits(bits)) {
        s.append(css);
    } else {
        assert(s@ =~= s@ + modifier_part(m, bits, css@));
    }
}

fn push_modifier_css(s: &mut String, m: Modifier)
    ensures
        final(s)@ == old(s)@ + modifier_css(m),
{
    let ghost s0 = s@;
    push_modifier_part(s, m, BOLD, "font-weight: bold; ");
    push_modifier_part(s, m, DIM, "opacity: 0.5; ");
    push_modifier_part(s, m, ITALIC, "font-style: italic; ");
    push_modifier_part(s, m, UNDERLINED, "text-decoration: underline; ");
    push_modifier_part(s, m, HIDDEN, "visibility: hidden; ");
    push_modifier_part(s, m, CROSSED_OUT, "text-decoration: line-through; ");
    assert(s@ =~= s0 + modifier_css(m));
}

/// Converts a cell to its inline CSS style: text color, background color and
/// the declarations of its modifiers.
pub fn get_cell_style_as_css(cell: &Cell) -> (r: String)
    ensures
        r@ == cell_css(cell@),
{
    let reversed = cell.modifier.contains(Modifier::from_bits(REVERSED));
    let mut fg = ansi_to_rgb(cell.fg);
    let mut bg = ansi_to_rgb(cell.bg);
    if reversed {
        let t = fg;
        fg = bg;
        bg = t;
    }
    assert((fg, bg) == css_colors(cell@));
    let mut s = String::new();
    match fg {
        Some(t) => {
            s.append("color: ");
            push_rgb(&mut s, t);
            s.append(";");
        },
        None => {
            s.append("color: rgb(255, 255, 255);");
        },
    }
    assert(s@ =~= fg_css(cell@));
    s.append(" ");
    let ghost s1 = s@;
    match bg {
        Some(t) => {
            s.append("background-color: ");
            push_rgb(&mut s, t);
            s.append(";");
        },
        None => {
            if reversed {
                s.append("background-color: rgb(255, 255, 255);");
            } else {
                s.append("background-color: transparent;");
            }
        },
    }
    assert(s@ =~= s1 + bg_css(cell@));
    s.append(" ");
    push_modifier_css(&mut s, cell.modifier);
    assert(s@ =~= cell_css(cell@));
    s
}

/// The triple a color is drawn with: its own, or else the fallback's.
pub open spec fn canvas_rgb(color: Color, fallback: Color) -> (u8, u8, u8) {
    match ansi_rgb(color) {
        Some(t) => t,
        None => ansi_rgb(fallback).unwrap(),
    }
}

/// Converts a color to the CSS text `rgb(r, g, b)`, taking the fallback
/// color's triple where the color has none.
pub fn get_canvas_color(color: Color, fallback_color: Color) -> (r: String)
    requires
        ansi_rgb(color) is Some || ansi_rgb(fallback_color) is Some,
    ensures
        r@ == rgb_text(canvas_rgb(color, fallback_color)),
{
    let t = match ansi_to_rgb(color) {
        Some(t) => t,
        None => ansi_to_rgb(fallback_color).unwrap(),
    };
    let mut s = String::new();
    push_rgb(&mut s, t);
    assert(s@ =~= rgb_text(t));
    s
}

/// The symbols of a run of cells, one after another.
pub open spec fn symbols_text(cells: Seq<CellView>) -> Seq<char>
    decreases cells.len(),
{
    if cells.len() == 0 {
        seq![]
    } else {
        symbols_text(cells.drop_last()) + cells.last().symbol
    }
}

/// The views of a slice of cells.
pub open spec fn cells_view(cells: Seq<Cell>) -> Seq<CellView> {
    Seq::new(cells.len(), |i: int| cells[i]@)
}

/// The address of a hyperlink: the symbols of its cells, one after another.
pub fn anchor_href(cells: &[Cell]) -> (r: String)
    ensures
        r@ == symbols_text(cells_view(cells@)),
{
    let mut s = String::new();
    let n = cells.len();
    let mut i: usize = 0;
    while i < n
        invariant
            n == cells@.len(),
            i <= n,
            s@ == symbols_text(cells_view(cells@.take(i as int))),
        decreases n - i,
    {
        s.append(cells[i].symbol.as_str());
        proof {
            let v = cells_view(cells@.take(i + 1));
            assert(v.drop_last() =~= cells_view(cells@.take(i as int)));
            assert(v.last() == cells@[i as int]@);
        }
        i = i + 1;
    }
    assert(cells@.take(n as int) =~= cells@);
    s
}

/// The terminal size in cells: from the screen on a mobile device, from the
/// window otherwise.
pub open spec fn terminal_size(mobile: bool, raw_window: (u16, u16), raw_screen: (i32, i32)) -> Size {
    if mobile {
        Size { width: (raw_screen.0 as u16) / 10, height: (raw_screen.1 as u16) / 19 }
    } else {
        Size { width: raw_window.0 / 10, height: raw_window.1 / 20 }
    }
}

/// The terminal size in cells: from the screen on a mobile device, from the
/// window otherwise.
pub fn get_terminal_size(mobile: bool, raw_window: (u16, u16), raw_screen: (i32, i32)) -> (r: Size)
    ensures
        r == terminal_size(mobile, raw_window, raw_screen),
{
    if mobile { get_screen_size(raw_screen) } else { get_window_size(raw_window) }
}

/// A buffer of empty cells as large as the terminal: sized by the screen on a
/// mobile device and by the window otherwise.
pub fn get_sized_buffer(mobile: bool, raw_window: (u16, u16), raw_screen: (i32, i32)) -> (g: Vec<Vec<Cell>>)
    ensures
        grid_view(g@) == blank_grid(
            terminal_size(mobile, raw_window, raw_screen).width as nat,
            terminal_size(mobile, raw_window, raw_screen).height as nat,
        ),
{
    let size = get_terminal_size(mobile, raw_window, raw_screen);
    sized_grid(size.width as usize, size.height as usize)
}

/// A cell with its modifier bits replaced by `bits`.
pub open spec fn with_modifier_bits(c: CellView, bits: u16) -> CellView {
    CellView { modifier: Modifier { bits }, ..c }
}

/// Reversal swaps the two colors of a cell's style: reversed, its text takes
/// the triple its background has unreversed and its background the triple
/// its text has; unreversed, the text has the triple of its foreground and
/// the background that of its background. A reset color has no triple: the
/// text is then white, and the background transparent unless reversed, when
/// it is white.
pub proof fn lemma_css_reversal_swaps(c: CellView)
    ensures
        css_colors(with_modifier_bits(c, c.modifier.bits | REVERSED)).0
            == css_colors(with_modifier_bits(c, c.modifier.bits & !REVERSED)).1,
        css_colors(with_modifier_bits(c, c.modifier.bits | REVERSED)).1
            == css_colors(with_modifier_bits(c, c.modifier.bits & !REVERSED)).0,
        css_colors(with_modifier_bits(c, c.modifier.bits & !REVERSED)) == (ansi_rgb(c.fg), ansi_rgb(c.bg)),
        c.fg == Color::Reset && !has_bits(c.modifier, REVERSED) ==> fg_css(c) == "color: rgb(255, 255, 255);"@,
        c.bg == Color::Reset && !has_bits(c.modifier, REVERSED) ==> bg_css(c) == "background-color: transparent;"@,
        c.fg == Color::Reset && has_bits(c.modifier, REVERSED) ==> bg_css(c)
            == "background-color: rgb(255, 255, 255);"@,
{
    let b = c.modifier.bits;
    assert((b | 0x040u16) & 0x040u16 == 0x040u16) by (bit_vector);
    assert((b & !0x040u16) & 0x040u16 != 0x040u16) by (bit_vector);
}

/// The declarations of a cell's modifiers name each set modifier's own CSS
/// property, once, in the fixed order bold, dim, italic, underlined, hidden,
/// crossed out: `font-weight: bold`, `opacity: 0.5`, `font-style: italic`,
/// `text-decoration: underline`, `visibility: hidden`,
/// `text-decoration: line-through`, each followed by `; `.
pub proof fn lemma_modifier_declarations(m: Modifier)
    ensures
        modifier_css(m) == (if m.bits & 0x001u16 == 0x001u16 { "font-weight: bold; "@ } else { seq![] })
            + (if m.bits & 0x002u16 == 0x002u16 { "opacity: 0.5; "@ } else { seq![] })
            + (if m.bits & 0x004u16 == 0x004u16 { "font-style: italic; "@ } else { seq![] })
            + (if m.bits & 0x008u16 == 0x008u16 { "text-decoration: underline; "@ } else { seq![] })
            + (if m.bits & 0x080u16 == 0x080u16 { "visibility: hidden; "@ } else { seq![] })
            + (if m.bits & 0x100u16 == 0x100u16 { "text-decoration: line-through; "@ } else { seq![] }),
{
}

} // verus!
