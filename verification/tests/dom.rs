use ratzilla::backend::cursor::CursorShape;
use ratzilla::backend::diff::CellUpdate;
use ratzilla::backend::dom::{line_nodes, DomBackendOptions, DomGrid, LineNode};
use ratzilla::backend::utils::anchor_href;
use ratzilla::event::MouseEvent;
use ratzilla::style::{Cell, Color, Modifier, Position, Size, REVERSED, SLOW_BLINK};

fn cell(symbol: &str) -> Cell {
    Cell {
        symbol: symbol.to_string(),
        fg: Color::Red,
        bg: Color::Reset,
        underline_color: Color::Reset,
        modifier: Modifier::empty(),
        skip: false,
    }
}

fn link(symbol: &str) -> Cell {
    let mut c = cell(symbol);
    c.modifier = Modifier::from_bits(SLOW_BLINK);
    c
}

type Handler = Box<dyn FnMut(MouseEvent)>;

#[test]
fn grid_id_default_and_suffixed() {
    let o: DomBackendOptions<Handler> = DomBackendOptions::default();
    assert_eq!(o.grid_id(), "grid");
    assert_eq!(*o.cursor_shape(), CursorShape::SteadyBlock);
    let o: DomBackendOptions<Handler> = DomBackendOptions::new(Some("app".to_string()), CursorShape::SteadyUnderScore);
    assert_eq!(o.grid_id(), "app_ratzilla_grid");
    assert_eq!(*o.cursor_shape(), CursorShape::SteadyUnderScore);
    assert!(o.mouse_event_handler.is_none());
}

#[test]
fn mouse_handler_is_kept() {
    let o: DomBackendOptions<Handler> = DomBackendOptions::new(None, CursorShape::SteadyBlock);
    let o = o.mouse_event_handler(Box::new(|_e: MouseEvent| {}));
    assert!(o.mouse_event_handler.is_some());
    assert_eq!(o.grid_id(), "grid");
}

#[test]
fn draw_writes_inside_and_pads_outside() {
    let mut g = DomGrid::new(Size { width: 3, height: 2 }, CursorShape::SteadyBlock);
    g.draw(&vec![(1, 0, cell("a")), (5, 1, cell("b")), (0, 7, cell("c"))]);
    assert_eq!(g.buffer[0][1].symbol, "a");
    assert_eq!(g.buffer[1].len(), 5);
    assert!(g.buffer[1].iter().all(|c| c.symbol == " "));
    assert_eq!(g.buffer.len(), 2);
    g.draw(&vec![(1, 0, cell("x")), (1, 0, cell("y"))]);
    assert_eq!(g.buffer[0][1].symbol, "y");
}

#[test]
fn cursor_is_drawn_and_hidden() {
    let mut g = DomGrid::new(Size { width: 3, height: 2 }, CursorShape::SteadyBlock);
    g.set_cursor_position(Position { x: 2, y: 1 });
    g.draw(&vec![(2, 1, cell("k"))]);
    assert!(g.buffer[1][2].modifier.contains(Modifier::from_bits(REVERSED)));
    g.set_cursor_position(Position { x: 2, y: 1 });
    assert!(g.buffer[1][2].modifier.contains(Modifier::from_bits(REVERSED)));
    g.set_cursor_position(Position { x: 0, y: 0 });
    assert!(!g.buffer[1][2].modifier.contains(Modifier::from_bits(REVERSED)));
    assert_eq!(g.get_cursor_position(), Position { x: 0, y: 0 });
    g.hide_cursor();
    assert_eq!(g.cursor_position, None);
    assert_eq!(g.get_cursor_position(), Position { x: 0, y: 0 });
}

#[test]
fn size_is_one_less() {
    let g = DomGrid::new(Size { width: 80, height: 24 }, CursorShape::SteadyBlock);
    assert_eq!(g.size(), Size { width: 79, height: 23 });
    let g = DomGrid::new(Size { width: 0, height: 1 }, CursorShape::SteadyBlock);
    assert_eq!(g.size(), Size { width: 0, height: 0 });
}

#[test]
fn clear_resizes_buffer() {
    let mut g = DomGrid::new(Size { width: 2, height: 2 }, CursorShape::SteadyBlock);
    g.draw(&vec![(0, 0, cell("q"))]);
    g.clear(Size { width: 4, height: 3 });
    assert_eq!(g.buffer.len(), 3);
    assert_eq!(g.buffer[0].len(), 4);
    assert_eq!(g.buffer[0][0].symbol, " ");
    assert_eq!(g.prev_buffer.len(), 2);
}

#[test]
fn flush_reports_changed_cells_once() {
    let mut g = DomGrid::new(Size { width: 3, height: 2 }, CursorShape::SteadyBlock);
    assert!(g.flush(true).is_empty());
    g.draw(&vec![(2, 1, cell("m")), (0, 0, link("h")), (1, 0, cell("n"))]);
    let u = g.flush(false);
    assert_eq!(
        u,
        vec![CellUpdate { x: 1, y: 0, index: 1 }, CellUpdate { x: 2, y: 1, index: 5 }]
    );
    assert!(g.flush(false).is_empty());
}

#[test]
fn hyperlink_runs_become_anchors() {
    let row = vec![cell("a"), link("h"), link("t"), cell("b"), link("x")];
    let nodes = line_nodes(&row);
    assert_eq!(
        nodes,
        vec![LineNode::Span(0), LineNode::Anchor(1, 3), LineNode::Span(3), LineNode::Anchor(4, 5)]
    );
    assert_eq!(anchor_href(&row[1..3]), "ht");
    assert!(line_nodes(&vec![]).is_empty());
}

#[test]
fn update_index_matches_span_order() {
    let mut g = DomGrid::new(Size { width: 3, height: 2 }, CursorShape::SteadyBlock);
    g.draw(&vec![(0, 0, link("l")), (1, 0, link("k")), (1, 1, link("m"))]);
    assert!(g.flush(true).is_empty());
    let mut order: Vec<(usize, usize)> = Vec::new();
    for (y, row) in g.buffer.iter().enumerate() {
        for node in line_nodes(row) {
            match node {
                LineNode::Span(x) => order.push((y, x)),
                LineNode::Anchor(s, e) => (s..e).for_each(|x| order.push((y, x))),
            }
        }
    }
    assert_eq!(order, vec![(0, 0), (0, 1), (0, 2), (1, 0), (1, 1), (1, 2)]);
    g.draw(&vec![(2, 1, cell("z")), (0, 1, cell("w"))]);
    for u in g.flush(false) {
        assert_eq!(order[u.index], (u.y, u.x));
    }
}
