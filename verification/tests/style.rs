use ratzilla::backend::cursor::CursorShape;
use ratzilla::style::{clone_grid, grids_equal, sized_grid, Cell, Color, Modifier, Rect, Style, BOLD, REVERSED, UNDERLINED};
use ratzilla::widgets::{hyperlink_style, is_hyperlink, HYPERLINK};

#[test]
fn show_then_hide_restores_cell() {
    for shape in [CursorShape::SteadyBlock, CursorShape::SteadyUnderScore, CursorShape::NoCursor] {
        let mut c = Cell::new_default();
        c.modifier = Modifier::from_bits(BOLD);
        c.fg = Color::Yellow;
        let shown = shape.show(c.style());
        c.set_style(shown);
        let hidden = shape.hide_style(c.style());
        c.set_style(hidden);
        assert_eq!(c.modifier.bits, BOLD);
        assert_eq!(c.fg, Color::Yellow);
    }
}

#[test]
fn cursor_shapes_style() {
    let s = CursorShape::SteadyBlock.show(Style::new());
    assert_eq!(s.add_modifier.bits, REVERSED);
    let s = CursorShape::SteadyUnderScore.hide_style(Style::new());
    assert_eq!(s.sub_modifier.bits, UNDERLINED);
    assert_eq!(CursorShape::NoCursor.show(Style::new()), Style::new());
    let f = CursorShape::SteadyUnderScore.get_css_field_value();
    assert_eq!(f, vec![
        ("cursor".to_string(), Some("underscore".to_string())),
        ("text-decoration".to_string(), Some("underline".to_string())),
    ]);
    let f = CursorShape::NoCursor.get_css_field_value();
    assert_eq!(f, vec![("cursor".to_string(), None), ("text-decoration".to_string(), None)]);
}

#[test]
fn grids_compare_by_content() {
    let a = sized_grid(3, 2);
    let mut b = clone_grid(&a);
    assert!(grids_equal(&a, &b));
    b[1][2].symbol = "x".to_string();
    assert!(!grids_equal(&a, &b));
    assert!(!grids_equal(&a, &sized_grid(3, 1)));
}

#[test]
fn rect_is_cut_to_range() {
    let r = Rect::new(65530, 0, 10, 3);
    assert_eq!(r.width, 5);
    assert_eq!(r.right(), 65535);
}

#[test]
fn hyperlink_marker() {
    assert_eq!(HYPERLINK, 0x010);
    assert!(is_hyperlink(Modifier::from_bits(HYPERLINK | BOLD)));
    assert!(!is_hyperlink(Modifier::from_bits(BOLD)));
    assert_eq!(hyperlink_style().add_modifier.bits, HYPERLINK);
}
