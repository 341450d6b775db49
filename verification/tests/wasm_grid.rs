use ratzilla::backend::diff::CellUpdate;
use ratzilla::style::{Cell, Color, Modifier, Size, SLOW_BLINK};
use ratzilla::wasm_backend::WasmGrid;

fn cell(symbol: &str, bits: u16) -> Cell {
    Cell {
        symbol: symbol.to_string(),
        fg: Color::Cyan,
        bg: Color::Reset,
        underline_color: Color::Reset,
        modifier: Modifier::from_bits(bits),
        skip: false,
    }
}

#[test]
fn first_flush_lays_out_then_updates_changes() {
    let mut g = WasmGrid::new(Size { width: 2, height: 2 });
    let (first, updates) = g.flush(true);
    assert!(first);
    assert!(updates.is_empty());
    g.draw(&vec![(1, 1, cell("a", 0)), (0, 0, cell("l", SLOW_BLINK))]);
    assert_eq!(g.buffer[1][1].symbol, "a");
    let (first, updates) = g.flush(true);
    assert!(!first);
    assert_eq!(updates, vec![CellUpdate { x: 1, y: 1, index: 3 }]);
    g.draw(&vec![(0, 0, cell("m", SLOW_BLINK))]);
    let (_, updates) = g.flush(false);
    assert_eq!(updates, vec![CellUpdate { x: 0, y: 0, index: 0 }]);
    let (_, updates) = g.flush(false);
    assert!(updates.is_empty());
}

#[test]
fn canvas_flush_paints_everything_first() {
    let mut g = WasmGrid::new(Size { width: 2, height: 1 });
    let (cleared, updates) = g.canvas_flush();
    assert!(cleared);
    assert_eq!(updates, vec![CellUpdate { x: 0, y: 0, index: 0 }, CellUpdate { x: 1, y: 0, index: 1 }]);
    g.draw(&vec![(1, 0, cell("b", 0))]);
    let (cleared, updates) = g.canvas_flush();
    assert!(!cleared);
    assert_eq!(updates, vec![CellUpdate { x: 1, y: 0, index: 1 }]);
    assert!(g.canvas_flush().1.is_empty());
}

#[test]
fn size_and_clear() {
    let mut g = WasmGrid::new(Size { width: 10, height: 4 });
    assert_eq!(g.size(), Size { width: 9, height: 3 });
    g.clear(Size { width: 3, height: 1 });
    assert_eq!(g.size(), Size { width: 2, height: 0 });
}
