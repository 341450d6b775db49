use beamterm_renderer::{FontStyle, GlyphEffect};
use ratzilla::backend::cursor::CursorShape;
use ratzilla::backend::webgl2::{
    cell_data, cell_with_safe_colors, default_cell, into_glyph_bits, resize_cell_grid, WebGl2BackendOptions,
    WebGl2Grid,
};
use ratzilla::style::{Cell, Color, Modifier, Position, BOLD, CROSSED_OUT, ITALIC, REVERSED, UNDERLINED};

fn cell(symbol: &str, fg: Color, bg: Color) -> Cell {
    Cell {
        symbol: symbol.to_string(),
        fg,
        bg,
        underline_color: Color::Reset,
        modifier: Modifier::empty(),
        skip: false,
    }
}

#[test]
fn test_font_style() {
    [
        (FontStyle::Bold, Modifier::from_bits(BOLD)),
        (FontStyle::Italic, Modifier::from_bits(ITALIC)),
        (FontStyle::BoldItalic, Modifier::from_bits(BOLD | ITALIC)),
    ]
    .into_iter()
    .map(|(style, modifier)| (style as u16, into_glyph_bits(modifier)))
    .for_each(|(expected, actual)| assert_eq!(expected, actual));
}

#[test]
fn test_glyph_effect() {
    [
        (GlyphEffect::Underline, Modifier::from_bits(UNDERLINED)),
        (GlyphEffect::Strikethrough, Modifier::from_bits(CROSSED_OUT)),
    ]
    .into_iter()
    .map(|(effect, modifier)| (effect as u16, into_glyph_bits(modifier)))
    .for_each(|(expected, actual)| assert_eq!(expected, actual));
}

#[test]
fn glyph_bits_values() {
    assert_eq!(into_glyph_bits(Modifier::from_bits(BOLD)), 0x0200);
    assert_eq!(into_glyph_bits(Modifier::from_bits(ITALIC)), 0x0400);
    assert_eq!(into_glyph_bits(Modifier::from_bits(UNDERLINED)), 0x1000);
    assert_eq!(into_glyph_bits(Modifier::from_bits(CROSSED_OUT)), 0x2000);
}

#[test]
fn glyph_bits_ignore_other_modifiers() {
    assert_eq!(into_glyph_bits(Modifier::from_bits(REVERSED)), 0);
    assert_eq!(into_glyph_bits(Modifier::from_bits(BOLD | REVERSED | CROSSED_OUT)), 0x2200);
}

#[test]
fn options_builders() {
    let o = WebGl2BackendOptions::new();
    assert!(o.grid_id.is_none());
    assert!(o.size.is_none());
    assert!(!o.measure_performance);
    let o = o.grid_id("term").size((640, 480)).measure_performance(true);
    assert_eq!(o.grid_id.as_deref(), Some("term"));
    assert_eq!(o.size, Some((640, 480)));
    assert!(o.measure_performance);
}

#[test]
fn default_cell_is_white_on_black_space() {
    let c = default_cell();
    assert_eq!(c.symbol, " ");
    assert_eq!(c.fg, Color::White);
    assert_eq!(c.bg, Color::Black);
}

#[test]
fn safe_colors_swap_reversed() {
    let mut c = cell("x", Color::Red, Color::Blue);
    c.modifier = Modifier::from_bits(REVERSED | BOLD);
    let r = cell_with_safe_colors(&c);
    assert_eq!(r.fg, Color::Blue);
    assert_eq!(r.bg, Color::Red);
    assert_eq!(r.modifier.bits, REVERSED | BOLD);
    let r = cell_with_safe_colors(&cell("x", Color::Red, Color::Reset));
    assert_eq!(r.fg, Color::Red);
    assert_eq!(r.bg, Color::Reset);
}

#[test]
fn cell_data_packs_colors() {
    let d = cell_data(&cell("q", Color::Rgb(1, 2, 3), Color::Reset));
    assert_eq!(d.symbol, "q");
    assert_eq!(d.fg, 0x010203);
    assert_eq!(d.bg, 0x000000);
    let d = cell_data(&cell("q", Color::Reset, Color::LightRed));
    assert_eq!(d.fg, 0xffffff);
    assert_eq!(d.bg, 0xff0000);
    assert_eq!(d.style_bits, 0);
}

#[test]
fn resize_keeps_overlap_and_fills_rest() {
    let cells: Vec<Cell> = ["a", "b", "c", "d"].iter().map(|s| cell(s, Color::Red, Color::Blue)).collect();
    let r = resize_cell_grid(&cells, (2, 2), (3, 1));
    assert_eq!(r.len(), 3);
    assert_eq!(r[0].symbol, "a");
    assert_eq!(r[1].symbol, "b");
    assert_eq!(r[2].symbol, " ");
    assert_eq!(r[2].bg, Color::Black);
    let r = resize_cell_grid(&cells, (2, 2), (1, 3));
    assert_eq!(r.iter().map(|c| c.symbol.clone()).collect::<Vec<_>>(), vec!["a", "c", " "]);
}

#[test]
fn draw_reads_back_and_shows_cursor() {
    let mut g = WebGl2Grid::new(6);
    assert!(!g.take_dirty());
    g.draw(&vec![(0, 1, cell("y", Color::Green, Color::Reset))], 3);
    assert!(g.take_dirty());
    assert_eq!(g.buffer[3].symbol, "y");
    assert_eq!(g.buffer[3].fg, Color::Green);
    g.set_cursor_position(Position { x: 1, y: 1 }, 3);
    g.draw(&vec![(1, 1, cell("z", Color::Green, Color::Reset))], 3);
    assert_eq!(g.buffer[4].symbol, "z");
    assert!(g.buffer[4].modifier.contains(Modifier::from_bits(REVERSED)));
    assert!(!g.buffer[3].modifier.contains(Modifier::from_bits(REVERSED)));
    assert_eq!(g.get_cursor_position(), Position { x: 1, y: 1 });
    g.hide_cursor(3);
    assert!(!g.buffer[4].modifier.contains(Modifier::from_bits(REVERSED)));
    assert_eq!(g.get_cursor_position(), Position { x: 0, y: 0 });
    assert_eq!(*g.cursor_shape(), CursorShape::SteadyBlock);
    g.clear();
    assert_eq!(g.buffer[4].symbol, " ");
}
