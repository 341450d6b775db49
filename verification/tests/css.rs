use ratzilla::backend::utils::{get_canvas_color, get_cell_style_as_css, get_sized_buffer};
use ratzilla::canvas_utils::{ansi_to_rgb, get_cell_color_canvas, get_sized_buffer_canvas};
use ratzilla::style::{Cell, Color, Modifier, BOLD, CROSSED_OUT, DIM, HIDDEN, ITALIC, REVERSED, UNDERLINED};
use ratzilla::text::{push_decimal, str_contains};

fn cell(fg: Color, bg: Color, bits: u16) -> Cell {
    Cell {
        symbol: "x".to_string(),
        fg,
        bg,
        underline_color: Color::Reset,
        modifier: Modifier::from_bits(bits),
        skip: false,
    }
}

#[test]
fn css_of_plain_cell() {
    assert_eq!(
        get_cell_style_as_css(&Cell::new_default()),
        "color: rgb(255, 255, 255); background-color: transparent; "
    );
}

#[test]
fn css_of_colored_bold_cell() {
    assert_eq!(
        get_cell_style_as_css(&cell(Color::Red, Color::Blue, BOLD)),
        "color: rgb(128, 0, 0); background-color: rgb(0, 0, 128); font-weight: bold; "
    );
}

#[test]
fn css_of_reversed_cell_swaps_colors() {
    assert_eq!(
        get_cell_style_as_css(&cell(Color::Red, Color::Blue, REVERSED)),
        "color: rgb(0, 0, 128); background-color: rgb(128, 0, 0); "
    );
    assert_eq!(
        get_cell_style_as_css(&cell(Color::Reset, Color::Reset, REVERSED)),
        "color: rgb(255, 255, 255); background-color: rgb(255, 255, 255); "
    );
}

#[test]
fn css_lists_modifiers_in_order() {
    assert_eq!(
        get_cell_style_as_css(&cell(Color::Gray, Color::Reset, CROSSED_OUT | HIDDEN | UNDERLINED | ITALIC | DIM | BOLD)),
        "color: rgb(192, 192, 192); background-color: transparent; font-weight: bold; opacity: 0.5; \
         font-style: italic; text-decoration: underline; visibility: hidden; text-decoration: line-through; "
    );
}

#[test]
fn canvas_color_falls_back() {
    assert_eq!(get_canvas_color(Color::LightCyan, Color::Black), "rgb(0, 255, 255)");
    assert_eq!(get_canvas_color(Color::Reset, Color::White), "rgb(255, 255, 255)");
    assert_eq!(get_canvas_color(Color::Indexed(3), Color::DarkGray), "rgb(128, 128, 128)");
}

#[test]
fn canvas_cell_colors_have_defaults() {
    assert_eq!(
        get_cell_color_canvas(&Cell::new_default()),
        ("rgb(255, 255, 255)".to_string(), "#333".to_string())
    );
    assert_eq!(
        get_cell_color_canvas(&cell(Color::Green, Color::Yellow, 0)),
        ("rgb(0, 128, 0)".to_string(), "rgb(128, 128, 0)".to_string())
    );
}

#[test]
fn named_colors_only() {
    assert_eq!(ansi_to_rgb(Color::Magenta), Some((128, 0, 128)));
    assert_eq!(ansi_to_rgb(Color::Rgb(1, 2, 3)), None);
    assert_eq!(ansi_to_rgb(Color::Reset), None);
}

#[test]
fn decimal_digits() {
    for (n, text) in [(0u8, "0"), (7, "7"), (42, "42"), (100, "100"), (255, "255")] {
        let mut s = String::from("#");
        push_decimal(&mut s, n);
        assert_eq!(s, format!("#{text}"));
    }
}

#[test]
fn substring_search() {
    assert!(str_contains("hello world", "o w"));
    assert!(str_contains("abc", ""));
    assert!(!str_contains("abc", "abcd"));
    assert!(!str_contains("abc", "ac"));
}

#[test]
fn sized_buffers() {
    let g = get_sized_buffer(false, (800, 600), (100, 100));
    assert_eq!(g.len(), 30);
    assert_eq!(g[0].len(), 80);
    let g = get_sized_buffer(true, (800, 600), (390, 844));
    assert_eq!(g.len(), 44);
    assert_eq!(g[0].len(), 39);
    let g = get_sized_buffer_canvas(1400, 1000);
    assert_eq!(g.len(), 52);
    assert_eq!(g[0].len(), 140);
}
