use ratzilla::backend::canvas::{CanvasBackendOptions, CanvasGrid, CellMetrics, RowColorOptimizer};
use ratzilla::backend::cursor::CursorShape;
use ratzilla::style::{Cell, Color, Modifier, Position, Rect, Size, BOLD, DIM, ITALIC, UNDERLINED};

fn cell(symbol: &str, fg: Color, bg: Color) -> Cell {
    Cell {
        symbol: symbol.to_string(),
        fg,
        bg,
        underline_color: Color::Reset,
        modifier: Modifier::empty(),
        skip: false,
    }
}

fn metrics() -> CellMetrics {
    CellMetrics { cell_width: 10, cell_height: 19, cell_baseline: 4, underline_pos: 17 }
}

#[test]
fn options_defaults_and_builders() {
    let o = CanvasBackendOptions::new();
    assert!(o.grid_id.is_none());
    assert!(o.font_str.is_none());
    assert!(!o.always_clip_cells);
    assert_eq!(o.enabled_modifiers.bits, 0x001 | 0x004 | 0x008 | 0x040 | 0x100);
    let o = o.grid_id("canvas").font("16px monospace".to_string());
    assert_eq!(o.grid_id.as_deref(), Some("canvas"));
    assert_eq!(o.font_str.as_deref(), Some("16px monospace"));
}

#[test]
fn disabling_never_enables() {
    let o = CanvasBackendOptions::new().disable_modifiers(Modifier::from_bits(ITALIC | DIM));
    assert!(!o.enabled_modifiers.contains(Modifier::from_bits(ITALIC)));
    assert!(!o.enabled_modifiers.contains(Modifier::from_bits(DIM)));
    assert!(o.enabled_modifiers.contains(Modifier::from_bits(BOLD)));
    let o = o.disable_modifiers(Modifier::from_bits(ITALIC));
    assert!(!o.enabled_modifiers.contains(Modifier::from_bits(ITALIC)));
    let o = o.enable_modifiers(Modifier::from_bits(ITALIC));
    assert!(o.enabled_modifiers.contains(Modifier::from_bits(ITALIC)));
}

#[test]
fn optimizer_merges_same_color_runs() {
    let mut opt = RowColorOptimizer::new();
    assert!(opt.process_color((0, 0), Color::Red).is_none());
    assert!(opt.process_color((1, 0), Color::Red).is_none());
    let done = opt.process_color((2, 0), Color::Blue);
    assert_eq!(done, Some((Rect { x: 0, y: 0, width: 2, height: 1 }, Color::Red)));
    assert!(opt.process_color((0, 1), Color::Blue).is_some());
    assert_eq!(opt.flush(), Some((Rect { x: 0, y: 1, width: 1, height: 1 }, Color::Blue)));
    assert_eq!(opt.flush(), None);
}

#[test]
fn draw_plan_for_one_cell() {
    let mut g = CanvasGrid::from_options(&CanvasBackendOptions::new(), metrics());
    g.initialize(Size { width: 3, height: 1 });
    assert_eq!(g.buffer_size(), Size { width: 3, height: 1 });
    let ops = g.draw_plan(&vec![(1, 0, cell("a", Color::Red, Color::Blue))]);
    assert_eq!(
        format!("{:?}", ops),
        "[Save, SetFillStyle(128), BeginPath, Rect(10, 0, 10, 19), Clip, Fill, SetFillStyle(8388608), \
         FillText(\"a\", 10, 15), Restore]"
    );
    assert_eq!(g.buffer[0][1].symbol, "a");
}

#[test]
fn draw_plan_batches_and_styles() {
    let mut g = CanvasGrid::from_options(&CanvasBackendOptions::new(), metrics());
    g.initialize(Size { width: 3, height: 1 });
    let mut bold = cell("b", Color::Reset, Color::Reset);
    bold.modifier = Modifier::from_bits(BOLD | UNDERLINED);
    let ops = g.draw_plan(&vec![(0, 0, bold), (1, 0, cell(" ", Color::Reset, Color::Reset))]);
    assert_eq!(
        format!("{:?}", ops),
        "[Save, SetFillStyle(0), BeginPath, Rect(0, 0, 20, 19), Clip, Fill, SetFillStyle(16777215), \
         FillRect(0, 17, 10, 1), Bold, FillText(\"b\", 0, 15), Unbold, Restore]"
    );
}

#[test]
fn cursor_cell_is_reversed_when_drawn() {
    let mut g = CanvasGrid::from_options(&CanvasBackendOptions::new(), metrics());
    g.initialize(Size { width: 2, height: 2 });
    let ops = g.set_cursor_position(Position { x: 1, y: 1 });
    assert_eq!(g.get_cursor_position(), Position { x: 1, y: 1 });
    assert!(format!("{:?}", ops).starts_with("[Save, SetFillStyle(16777215)"));
    let ops = g.hide_cursor();
    assert!(format!("{:?}", ops).starts_with("[Save, SetFillStyle(0)"));
    assert_eq!(g.get_cursor_position(), Position { x: 0, y: 0 });
    let g = g.set_cursor_shape(CursorShape::SteadyUnderScore);
    assert_eq!(*g.cursor_shape(), CursorShape::SteadyUnderScore);
}

#[test]
fn clear_empties_cells() {
    let mut g = CanvasGrid::from_options(&CanvasBackendOptions::new(), metrics());
    g.initialize(Size { width: 2, height: 1 });
    g.draw_plan(&vec![(0, 0, cell("z", Color::Red, Color::Red))]);
    let ops = g.clear();
    assert_eq!(format!("{:?}", ops), "[ClearRect]");
    assert_eq!(g.buffer[0][0].symbol, " ");
}

#[test]
fn last_column_is_drawn_when_its_position_fits() {
    let mut g = CanvasGrid::from_options(&CanvasBackendOptions::new(), metrics());
    g.initialize(Size { width: 2, height: 1 });
    let content = vec![(6553, 0, cell("a", Color::Red, Color::Blue))];
    assert!(g.fits_to_draw(&content));
    let ops = g.draw_plan(&content);
    assert!(format!("{:?}", ops).contains("FillText(\"a\", 65530, 15)"));
    assert!(!g.fits_to_draw(&vec![(6554, 0, cell("a", Color::Red, Color::Blue))]));
}

#[test]
fn text_above_the_baseline_must_fit() {
    let m = CellMetrics { cell_width: 10, cell_height: 19, cell_baseline: 25, underline_pos: 30 };
    let mut g = CanvasGrid::from_options(&CanvasBackendOptions::new(), m);
    g.initialize(Size { width: 2, height: 2 });
    assert!(!g.fits_to_draw(&vec![(0, 0, cell("a", Color::Red, Color::Blue))]));
    assert!(g.fits_to_draw(&vec![(0, 0, cell(" ", Color::Red, Color::Blue))]));
    assert!(g.fits_to_draw(&vec![(0, 1, cell("a", Color::Red, Color::Blue))]));
    let mut u = cell(" ", Color::Red, Color::Blue);
    u.modifier = Modifier::from_bits(UNDERLINED);
    assert!(g.fits_to_draw(&vec![(0, 1, u)]));
    assert!(g.fits_to_redraw(Some(Position { x: 1, y: 1 }), None));
    assert!(g.fits_to_redraw(Some(Position { x: 9, y: 9 }), None));
}

#[test]
fn regions_open_on_color_change_or_gap() {
    let mut opt = RowColorOptimizer::new();
    assert!(opt.process_color((3, 2), Color::Green).is_none());
    assert!(opt.process_color((4, 2), Color::Green).is_none());
    assert_eq!(opt.process_color((6, 2), Color::Green), Some((Rect { x: 3, y: 2, width: 2, height: 1 }, Color::Green)));
    assert_eq!(opt.process_color((7, 3), Color::Green), Some((Rect { x: 6, y: 2, width: 1, height: 1 }, Color::Green)));
    assert!(opt.process_color((8, 3), Color::Green).is_none());
    assert_eq!(opt.flush(), Some((Rect { x: 7, y: 3, width: 2, height: 1 }, Color::Green)));
}

#[test]
fn draw_writes_each_text_and_line_once() {
    let mut g = CanvasGrid::from_options(&CanvasBackendOptions::new(), metrics());
    g.initialize(Size { width: 4, height: 1 });
    let mut a = cell("a", Color::Red, Color::Blue);
    a.modifier = Modifier::from_bits(UNDERLINED | 0x100);
    let ops = g.draw_plan(&vec![(0, 0, a), (1, 0, cell(" ", Color::Red, Color::Green)), (2, 0, cell("b", Color::Red, Color::Blue))]);
    let text = format!("{:?}", ops);
    assert_eq!(text.matches("FillText").count(), 2);
    assert_eq!(text.matches("FillRect").count(), 2);
    assert_eq!(text.matches("Rect(").count() - text.matches("FillRect(").count(), 3);
}
