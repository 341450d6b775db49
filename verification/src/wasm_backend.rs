//! The first, plain renderers' grid: `<span>`s in `<pre>` rows or cells
//! painted on a canvas, with no cursor, redrawing only what changed.

use vstd::prelude::*;
use crate::backend::canvas::grid_written;
use crate::backend::diff::{cell_updates, grid_updates, updatable, CellUpdate};
use crate::backend::dom::dom_size;
use crate::style::{
    blank_grid, clone_grid, grid_view, grids_equal, put_cell, sized_grid, Cell, CellView, Size,
};

verus! {

/// Whether every changed cell lies within the grid.
pub open spec fn content_in_grid(g: Seq<Seq<CellView>>, content: Seq<(u16, u16, Cell)>) -> bool {
    forall|i: int| 0 <= i < content.len() ==> {
        let c = #[trigger] content[i];
        c.1 < g.len() && c.0 < g[c.1 as int].len()
    }
}

/// The cell grid of the plain renderers.
#[derive(Debug)]
pub struct WasmGrid {
    /// Current buffer.
    pub buffer: Vec<Vec<Cell>>,
    /// The buffer as it was at the last flush.
    pub prev_buffer: Vec<Vec<Cell>>,
    /// Whether the grid has been rendered once.
    pub initialized: bool,
}

impl WasmGrid {
    /// A grid of `size` empty cells, not yet rendered.
    pub fn new(size: Size) -> (g: WasmGrid)
        ensures
            grid_view(g.buffer@) == blank_grid(size.width as nat, size.height as nat),
            grid_view(g.prev_buffer@) == blank_grid(size.width as nat, size.height as nat),
            !g.initialized,
    {
        WasmGrid {
            buffer: sized_grid(size.width as usize, size.height as usize),
            prev_buffer: sized_grid(size.width as usize, size.height as usize),
            initialized: false,
        }
    }

    /// Writes the changed cells into the buffer, in order.
    pub fn draw(&mut self, content: &Vec<(u16, u16, Cell)>)
        requires
            content_in_grid(grid_view(old(self).buffer@), content@),
        ensures
            grid_view(final(self).buffer@) == grid_written(grid_view(old(self).buffer@), content@),
            final(self).prev_buffer == old(self).prev_buffer,
            final(self).initialized == old(self).initialized,
    {
        let ghost g0 = grid_view(self.buffer@);
        let n = content.len();
        let mut i: usize = 0;
        while i < n
            invariant
                n == content@.len(),
                i <= n,
                self.prev_buffer == old(self).prev_buffer,
                self.initialized == old(self).initialized,
                g0 == grid_view(old(self).buffer@),
                content_in_grid(g0, content@),
                grid_view(self.buffer@) == grid_written(g0, content@.take(i as int)),
                self.buffer@.len() == g0.len(),
                forall|y: int| 0 <= y < g0.len() ==> (#[trigger] self.buffer@[y])@.len() == g0[y].len(),
            decreases n - i,
        {
            let x = content[i].0;
            let y = content[i].1;
            assert(y < g0.len() && x < g0[y as int].len()) by {
                let c = content@[i as int];
            }
            let ghost before = self.buffer@;
            put_cell(&mut self.buffer, x as usize, y as usize, content[i].2.clone());
            proof {
                assert(content@.take(i + 1).drop_last() =~= content@.take(i as int));
                assert(content@.take(i + 1).last() == content@[i as int]);
                assert(grid_view(self.buffer@).len() == self.buffer@.len());
                assert forall|r: int| 0 <= r < g0.len() implies (#[trigger] self.buffer@[r])@.len() == g0[r].len() by {
                    assert(grid_view(self.buffer@)[r].len() == self.buffer@[r]@.len());
                    assert(grid_view(before)[r].len() == before[r]@.len());
                }
            }
            i = i + 1;
        }
        assert(content@.take(n as int) =~= content@);
    }

    /// Replaces the buffer with `size` empty cells.
    pub fn clear(&mut self, size: Size)
        ensures
            grid_view(final(self).buffer@) == blank_grid(size.width as nat, size.height as nat),
            final(self).prev_buffer == old(self).prev_buffer,
            final(self).initialized == old(self).initialized,
    {
        self.buffer = sized_grid(size.width as usize, size.height as usize);
    }

    /// The size of the terminal: one less than the length of the first row
    /// and than the number of rows.
    pub fn size(&self) -> (r: Size)
        requires
            self.buffer@.len() > 0,
        ensures
            r == dom_size(grid_view(self.buffer@)),
    {
        let w = self.buffer[0].len();
        let h = self.buffer.len();
        let w1: usize = if w > 0 { w - 1 } else { 0 };
        let h1: usize = if h > 0 { h - 1 } else { 0 };
        Size { width: w1 as u16, height: h1 as u16 }
    }

    /// Brings the `<span>` grid up to date. Returns whether the whole grid
    /// must first be laid out, which happens once, and the spans of the cells
    /// that changed since the last flush, hyperlink cells left out when
    /// `skip_links` is set; after the first layout nothing has changed.
    pub fn flush(&mut self, skip_links: bool) -> (r: (bool, Vec<CellUpdate>))
        requires
            old(self).initialized && grid_view(old(self).buffer@) != grid_view(old(self).prev_buffer@) ==> updatable(
                grid_view(old(self).buffer@),
                grid_view(old(self).prev_buffer@),
            ),
        ensures
            r.0 == !old(self).initialized,
            final(self).initialized,
            grid_view(final(self).buffer@) == grid_view(old(self).buffer@),
            grid_view(final(self).prev_buffer@) == grid_view(old(self).buffer@),
            r.1@ == (if !old(self).initialized || grid_view(old(self).buffer@) == grid_view(old(self).prev_buffer@) {
                Seq::<CellUpdate>::empty()
            } else {
                grid_updates(
                    grid_view(old(self).buffer@),
                    grid_view(old(self).prev_buffer@),
                    skip_links,
                    false,
                    old(self).buffer@.len() as int,
                )
            }),
    {
        let first = !self.initialized;
        self.initialized = true;
        let updates = if first || grids_equal(&self.buffer, &self.prev_buffer) {
            Vec::new()
        } else {
            cell_updates(&self.buffer, &self.prev_buffer, skip_links, false)
        };
        self.prev_buffer = clone_grid(&self.buffer);
        (first, updates)
    }

    /// Brings the painted canvas up to date. The first time every cell is
    /// painted over a cleared canvas; afterwards, when the buffer changed, the
    /// cells that differ from the last flush. Returns whether the canvas is
    /// cleared first, and the cells to paint in row order.
    pub fn canvas_flush(&mut self) -> (r: (bool, Vec<CellUpdate>))
        requires
            !old(self).initialized || grid_view(old(self).buffer@) != grid_view(old(self).prev_buffer@)
                ==> updatable(grid_view(old(self).buffer@), grid_view(old(self).prev_buffer@)),
        ensures
            r.0 == !old(self).initialized,
            final(self).initialized,
            grid_view(final(self).buffer@) == grid_view(old(self).buffer@),
            grid_view(final(self).prev_buffer@) == grid_view(old(self).buffer@),
            r.1@ == (if !old(self).initialized {
                grid_updates(
                    grid_view(old(self).buffer@),
                    grid_view(old(self).prev_buffer@),
                    false,
                    true,
                    old(self).buffer@.len() as int,
                )
            } else if grid_view(old(self).buffer@) == grid_view(old(self).prev_buffer@) {
                Seq::<CellUpdate>::empty()
            } else {
                grid_updates(
                    grid_view(old(self).buffer@),
                    grid_view(old(self).prev_buffer@),
                    false,
                    false,
                    old(self).buffer@.len() as int,
                )
            }),
    {
        let first = !self.initialized;
        self.initialized = true;
        let updates = if first {
            cell_updates(&self.buffer, &self.prev_buffer, false, true)
        } else if grids_equal(&self.buffer, &self.prev_buffer) {
            Vec::new()
        } else {
            cell_updates(&self.buffer, &self.prev_buffer, false, false)
        };
        self.prev_buffer = clone_grid(&self.buffer);
        (first, updates)
    }
}

} // verus!
