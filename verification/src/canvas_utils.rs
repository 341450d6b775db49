//! Color names to RGB triples, and the colors of a cell as CSS values.

use vstd::prelude::*;
use crate::backend::utils::{push_rgb, rgb_text};
use crate::style::{blank_grid, grid_view, sized_grid, Cell, CellView, Color};

verus! {

/// The RGB triple of a named color; no triple for the reset color, a 24-bit
/// color or a palette index.
pub open spec fn ansi_rgb(color: Color) -> Option<(u8, u8, u8)> {
    match color {
        Color::Black => Some((0, 0, 0)),
        Color::Red => Some((128, 0, 0)),
        Color::Green => Some((0, 128, 0)),
        Color::Yellow => Some((128, 128, 0)),
        Color::Blue => Some((0, 0, 128)),
        Color::Magenta => Some((128, 0, 128)),
        Color::Cyan => Some((0, 128, 128)),
        Color::Gray => Some((192, 192, 192)),
        Color::DarkGray => Some((128, 128, 128)),
        Color::LightRed => Some((255, 0, 0)),
        Color::LightGreen => Some((0, 255, 0)),
        Color::LightYellow => Some((255, 255, 0)),
        Color::LightBlue => Some((0, 0, 255)),
        Color::LightMagenta => Some((255, 0, 255)),
        Color::LightCyan => Some((0, 255, 255)),
        Color::White => Some((255, 255, 255)),
        _ => None,
    }
}

/// Converts a named color to its RGB triple.
pub fn ansi_to_rgb(color: Color) -> (r: Option<(u8, u8, u8)>)
    ensures
        r == ansi_rgb(color),
        color == Color::Red ==> r == Some((128u8, 0u8, 0u8)),
        color == Color::Green ==> r == Some((0u8, 128u8, 0u8)),
        color == Color::Blue ==> r == Some((0u8, 0u8, 128u8)),
        color == Color::Cyan ==> r == Some((0u8, 128u8, 128u8)),
        color == Color::Yellow ==> r == Some((128u8, 128u8, 0u8)),
        color == Color::Magenta ==> r == Some((128u8, 0u8, 128u8)),
        color == Color::Black ==> r == Some((0u8, 0u8, 0u8)),
        color == Color::Gray ==> r == Some((192u8, 192u8, 192u8)),
        color == Color::DarkGray ==> r == Some((128u8, 128u8, 128u8)),
        color == Color::LightRed ==> r == Some((255u8, 0u8, 0u8)),
        color == Color::LightGreen ==> r == Some((0u8, 255u8, 0u8)),
        color == Color::LightYellow ==> r == Some((255u8, 255u8, 0u8)),
        color == Color::LightBlue ==> r == Some((0u8, 0u8, 255u8)),
        color == Color::LightMagenta ==> r == Some((255u8, 0u8, 255u8)),
        color == Color::LightCyan ==> r == Some((0u8, 255u8, 255u8)),
        color == Color::White ==> r == Some((255u8, 255u8, 255u8)),
        (color is Reset || color is Rgb || color is Indexed) ==> r is None,
{
    match color {
        Color::Black => Some((0, 0, 0)),
        Color::Red => Some((128, 0, 0)),
        Color::Green => Some((0, 128, 0)),
        Color::Yellow => Some((128, 128, 0)),
        Color::Blue => Some((0, 0, 128)),
        Color::Magenta => Some((128, 0, 128)),
        Color::Cyan => Some((0, 128, 128)),
        Color::Gray => Some((192, 192, 192)),
        Color::DarkGray => Some((128, 128, 128)),
        Color::LightRed => Some((255, 0, 0)),
        Color::LightGreen => Some((0, 255, 0)),
        Color::LightYellow => Some((255, 255, 0)),
        Color::LightBlue => Some((0, 0, 255)),
        Color::LightMagenta => Some((255, 0, 255)),
        Color::LightCyan => Some((0, 255, 255)),
        Color::White => Some((255, 255, 255)),
        _ => None,
    }
}

/// The number of cell columns and rows a canvas of the given client size in
/// pixels holds: ten pixels per column, nineteen per row, each size first cut
/// to 16 bits.
pub open spec fn canvas_cells(client_width: i32, client_height: i32) -> (u16, u16) {
    ((client_width as u16) / 10, (client_height as u16) / 19)
}

/// A buffer of empty cells as large as a canvas of the given client size holds.
pub fn get_sized_buffer_canvas(client_width: i32, client_height: i32) -> (g: Vec<Vec<Cell>>)
    ensures
        grid_view(g@) == blank_grid(
            canvas_cells(client_width, client_height).0 as nat,
            canvas_cells(client_width, client_height).1 as nat,
        ),
{
    let w: u16 = (client_width as u16) / 10;
    let h: u16 = (client_height as u16) / 19;
    sized_grid(w as usize, h as usize)
}

fn rgb_string(t: (u8, u8, u8)) -> (r: String)
    ensures
        r@ == rgb_text(t),
{
    let mut s = String::new();
    push_rgb(&mut s, t);
    assert(s@ =~= rgb_text(t));
    s
}

/// The CSS text and background colors of a cell on the canvas: `rgb(r, g, b)`
/// of each named color; white text and `#333` background otherwise.
pub open spec fn canvas_cell_colors(c: CellView) -> (Seq<char>, Seq<char>) {
    (
        match ansi_rgb(c.fg) {
            Some(t) => rgb_text(t),
            None => "rgb(255, 255, 255)"@,
        },
        match ansi_rgb(c.bg) {
            Some(t) => rgb_text(t),
            None => "#333"@,
        },
    )
}

/// The CSS text and background colors a cell is drawn with on the canvas.
pub fn get_cell_color_canvas(cell: &Cell) -> (r: (String, String))
    ensures
        (r.0@, r.1@) == canvas_cell_colors(cell@),
{
    let fg = match ansi_to_rgb(cell.fg) {
        Some(t) => rgb_string(t),
        None => String::from_str("rgb(255, 255, 255)"),
    };
    let bg = match ansi_to_rgb(cell.bg) {
        Some(t) => rgb_string(t),
        None => String::from_str("#333"),
    };
    (fg, bg)
}

} // verus!

verus! {

/// The RGB triples of the named colors: the dark colors at half intensity,
/// gray at three quarters, the light colors at full intensity; the reset
/// color, 24-bit colors and palette entries have none.
pub proof fn lemma_named_color_triples(r: u8, g: u8, b: u8, i: u8)
    ensures
        ansi_rgb(Color::Black) == Some((0u8, 0u8, 0u8)),
        ansi_rgb(Color::Red) == Some((128u8, 0u8, 0u8)),
        ansi_rgb(Color::Green) == Some((0u8, 128u8, 0u8)),
        ansi_rgb(Color::Yellow) == Some((128u8, 128u8, 0u8)),
        ansi_rgb(Color::Blue) == Some((0u8, 0u8, 128u8)),
        ansi_rgb(Color::Magenta) == Some((128u8, 0u8, 128u8)),
        ansi_rgb(Color::Cyan) == Some((0u8, 128u8, 128u8)),
        ansi_rgb(Color::Gray) == Some((192u8, 192u8, 192u8)),
        ansi_rgb(Color::DarkGray) == Some((128u8, 128u8, 128u8)),
        ansi_rgb(Color::LightRed) == Some((255u8, 0u8, 0u8)),
        ansi_rgb(Color::LightGreen) == Some((0u8, 255u8, 0u8)),
        ansi_rgb(Color::LightYellow) == Some((255u8, 255u8, 0u8)),
        ansi_rgb(Color::LightBlue) == Some((0u8, 0u8, 255u8)),
        ansi_rgb(Color::LightMagenta) == Some((255u8, 0u8, 255u8)),
        ansi_rgb(Color::LightCyan) == Some((0u8, 255u8, 255u8)),
        ansi_rgb(Color::White) == Some((255u8, 255u8, 255u8)),
        ansi_rgb(Color::Reset) is None,
        ansi_rgb(Color::Rgb(r, g, b)) is None,
        ansi_rgb(Color::Indexed(i)) is None,
{
}

} // verus!
