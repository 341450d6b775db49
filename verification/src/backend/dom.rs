//! The DOM renderer's grid: cells become `<span>`s in one `<pre>` per row,
//! runs of hyperlink cells become `<a>`s, and a flush updates only the spans
//! whose cells changed.

use vstd::prelude::*;
use crate::backend::cursor::{with_cursor, without_cursor, CursorShape};
use crate::style::{
    blank_grid, blank_row, clone_grid, grid_view, grids_equal, row_view, sized_grid, Cell,
    CellView, Position, Size,
};
use crate::backend::canvas::{last_write_at, never_written};
use crate::backend::diff::{cell_updates, grid_updates, updatable, CellUpdate};
use crate::widgets::{is_hyperlink, is_link};

verus! {

/// Options for the DOM backend; `H` is the type of the mouse event handler.
pub struct DomBackendOptions<H> {
    /// The element ID.
    pub grid_id: Option<String>,
    /// The cursor shape.
    pub cursor_shape: CursorShape,
    /// Mouse event handler for the grid.
    pub mouse_event_handler: Option<H>,
}

impl<H> Default for DomBackendOptions<H> {
    fn default() -> (r: Self)
        ensures
            r.grid_id is None,
            r.cursor_shape == CursorShape::SteadyBlock,
            r.mouse_event_handler is None,
    {
        DomBackendOptions { grid_id: None, cursor_shape: CursorShape::SteadyBlock, mouse_event_handler: None }
    }
}

/// The ID of the grid element: `grid`, or the given ID followed by
/// `_ratzilla_grid`.
pub open spec fn dom_grid_id(id: Option<Seq<char>>) -> Seq<char> {
    match id {
        Some(s) => s + "_ratzilla_grid"@,
        None => "grid"@,
    }
}

impl<H> DomBackendOptions<H> {
    /// Constructs options with the given grid ID and cursor shape and no mouse
    /// event handler.
    pub fn new(grid_id: Option<String>, cursor_shape: CursorShape) -> (r: Self)
        ensures
            r.grid_id == grid_id,
            r.cursor_shape == cursor_shape,
            r.mouse_event_handler is None,
    {
        DomBackendOptions { grid_id, cursor_shape, mouse_event_handler: None }
    }

    /// Returns the grid ID: `"grid"` when none is set, otherwise the set ID
    /// suffixed with `"_ratzilla_grid"`.
    pub fn grid_id(&self) -> (r: String)
        ensures
            r@ == dom_grid_id(match self.grid_id { Some(s) => Some(s@), None => None }),
    {
        match &self.grid_id {
            Some(id) => {
                let mut s = id.clone();
                s.append("_ratzilla_grid");
                s
            },
            None => String::from_str("grid"),
        }
    }

    /// Returns the cursor shape.
    pub fn cursor_shape(&self) -> (r: &CursorShape)
        ensures
            *r == self.cursor_shape,
    {
        &self.cursor_shape
    }

    /// Configures a mouse event handler for the grid.
    pub fn mouse_event_handler(self, handler: H) -> (r: Self)
        ensures
            r.grid_id == self.grid_id,
            r.cursor_shape == self.cursor_shape,
            r.mouse_event_handler == Some(handler),
    {
        DomBackendOptions { mouse_event_handler: Some(handler), ..self }
    }
}

/// A row padded with empty cells up to length `x`, when it is shorter.
pub open spec fn padded_row(row: Seq<CellView>, x: int) -> Seq<CellView> {
    if row.len() < x {
        row + blank_row((x - row.len()) as nat)
    } else {
        row
    }
}

/// A grid after one cell is drawn at column `x` of row `y`: a row shorter than
/// `x` is padded with empty cells up to length `x`, and the cell replaces the
/// one at `x` only where the row already reached past `x`; rows outside the
/// grid are left alone.
pub open spec fn dom_put(g: Seq<Seq<CellView>>, x: int, y: int, c: CellView) -> Seq<Seq<CellView>> {
    if 0 <= y < g.len() {
        if x < g[y].len() {
            g.update(y, g[y].update(x, c))
        } else {
            g.update(y, padded_row(g[y], x))
        }
    } else {
        g
    }
}

/// A grid after each changed cell has been drawn, in order.
pub open spec fn dom_written(g: Seq<Seq<CellView>>, content: Seq<(u16, u16, Cell)>) -> Seq<Seq<CellView>>
    decreases content.len(),
{
    if content.len() == 0 {
        g
    } else {
        let c = content.last();
        dom_put(dom_written(g, content.drop_last()), c.0 as int, c.1 as int, c.2@)
    }
}

/// A grid with the cell at `pos`, where it exists, restyled by `f`.
pub open spec fn restyled_at(g: Seq<Seq<CellView>>, pos: Option<Position>, f: spec_fn(CellView) -> CellView) -> Seq<Seq<CellView>> {
    match pos {
        Some(p) => if p.y < g.len() && p.x < g[p.y as int].len() {
            g.update(p.y as int, g[p.y as int].update(p.x as int, f(g[p.y as int][p.x as int])))
        } else {
            g
        },
        None => g,
    }
}

/// A grid with the cursor drawn on the cell at `pos`, where it exists.
pub open spec fn cursor_shown(g: Seq<Seq<CellView>>, pos: Option<Position>, shape: CursorShape) -> Seq<Seq<CellView>> {
    restyled_at(g, pos, |c: CellView| with_cursor(c, shape))
}

/// A grid with the cursor taken off the cell at `pos`, where it exists.
pub open spec fn cursor_hidden(g: Seq<Seq<CellView>>, pos: Option<Position>, shape: CursorShape) -> Seq<Seq<CellView>> {
    restyled_at(g, pos, |c: CellView| without_cursor(c, shape))
}

/// Whether the cursor, if any, stands on a row of the grid.
pub open spec fn cursor_row_in(g: Seq<Seq<CellView>>, pos: Option<Position>) -> bool {
    match pos {
        Some(p) => p.y < g.len(),
        None => true,
    }
}

/// The size the DOM backend reports: one less than the length of the first
/// row and than the number of rows, at least zero, each cut to 16 bits.
pub open spec fn dom_size(g: Seq<Seq<CellView>>) -> Size {
    Size {
        width: (if g[0].len() > 0 { g[0].len() - 1 } else { 0 }) as u16,
        height: (if g.len() > 0 { g.len() - 1 } else { 0 }) as u16,
    }
}

/// Pads a row with empty cells up to length `x`.
fn pad_row(row: &mut Vec<Cell>, x: usize)
    ensures
        row_view(final(row)@) == padded_row(row_view(old(row)@), x as int),
{
    let ghost r0 = row_view(row@);
    let ghost n0 = row@.len();
    while row.len() < x
        invariant
            n0 <= row@.len(),
            n0 < x ==> row@.len() <= x,
            n0 >= x ==> row@.len() == n0,
            row_view(row@) == r0 + blank_row((row@.len() - n0) as nat),
            r0.len() == n0,
        decreases x - row@.len(),
    {
        let ghost prev = row@;
        row.push(Cell::new_default());
        assert(row_view(row@) =~= r0 + blank_row((row@.len() - n0) as nat)) by {
            assert(row_view(prev) == r0 + blank_row((prev.len() - n0) as nat));
            assert forall|k: int| 0 <= k < row@.len() implies row_view(row@)[k] == (r0 + blank_row((row@.len() - n0) as nat))[k] by {
                if k < prev.len() {
                    assert(row@[k] == prev[k]);
                    assert(row_view(prev)[k] == prev[k]@);
                }
            }
        }
    }
    assert(row_view(row@) =~= padded_row(r0, x as int));
}

/// Restyles the cell at `pos` with the cursor shown or hidden, where the cell exists.
fn restyle_cursor_cell(buffer: &mut Vec<Vec<Cell>>, pos: Position, shape: CursorShape, show: bool)
    requires
        pos.y < old(buffer)@.len(),
    ensures
        grid_view(final(buffer)@) == (if show {
            cursor_shown(grid_view(old(buffer)@), Some(pos), shape)
        } else {
            cursor_hidden(grid_view(old(buffer)@), Some(pos), shape)
        }),
{
    let ghost g0 = grid_view(buffer@);
    let y = pos.y as usize;
    let x = pos.x as usize;
    let line = &mut buffer[y];
    if x < line.len() {
        let style = if show { shape.show(line[x].style()) } else { shape.hide_style(line[x].style()) };
        let cell = &mut line[x];
        cell.set_style(style);
    }
    proof {
        let f = if show { |c: CellView| with_cursor(c, shape) } else { |c: CellView| without_cursor(c, shape) };
        if x < old(buffer)@[y as int]@.len() {
            assert(row_view(buffer@[y as int]@) =~= g0[y as int].update(x as int, f(g0[y as int][x as int])));
        } else {
            assert(row_view(buffer@[y as int]@) =~= g0[y as int]);
        }
        assert(grid_view(buffer@) =~= restyled_at(g0, Some(pos), f));
    }
}

/// The cell grid of the DOM renderer: the cells drawn, the cells on screen
/// since the last flush, and the cursor.
#[derive(Debug)]
pub struct DomGrid {
    /// Current buffer.
    pub buffer: Vec<Vec<Cell>>,
    /// The buffer as it was at the last flush.
    pub prev_buffer: Vec<Vec<Cell>>,
    /// Cursor position.
    pub cursor_position: Option<Position>,
    /// The cursor shape.
    pub cursor_shape: CursorShape,
}

impl DomGrid {
    /// A grid of `size` empty cells, the same on screen, with no cursor.
    pub fn new(size: Size, cursor_shape: CursorShape) -> (g: DomGrid)
        ensures
            grid_view(g.buffer@) == blank_grid(size.width as nat, size.height as nat),
            grid_view(g.prev_buffer@) == blank_grid(size.width as nat, size.height as nat),
            g.cursor_position is None,
            g.cursor_shape == cursor_shape,
    {
        DomGrid {
            buffer: sized_grid(size.width as usize, size.height as usize),
            prev_buffer: sized_grid(size.width as usize, size.height as usize),
            cursor_position: None,
            cursor_shape,
        }
    }

    /// Empties the grid to `size` empty cells, the same on screen.
    pub fn reset(&mut self, size: Size)
        ensures
            grid_view(final(self).buffer@) == blank_grid(size.width as nat, size.height as nat),
            grid_view(final(self).prev_buffer@) == blank_grid(size.width as nat, size.height as nat),
            final(self).cursor_position == old(self).cursor_position,
            final(self).cursor_shape == old(self).cursor_shape,
    {
        self.buffer = sized_grid(size.width as usize, size.height as usize);
        self.prev_buffer = sized_grid(size.width as usize, size.height as usize);
    }

    /// Sets the cursor shape.
    pub fn set_cursor_shape(self, shape: CursorShape) -> (r: Self)
        ensures
            r.cursor_shape == shape,
            r.buffer == self.buffer,
            r.prev_buffer == self.prev_buffer,
            r.cursor_position == self.cursor_position,
    {
        DomGrid { cursor_shape: shape, ..self }
    }

    /// Writes the changed cells into the buffer, then draws the cursor on the
    /// cell under it.
    pub fn draw(&mut self, content: &Vec<(u16, u16, Cell)>)
        requires
            cursor_row_in(grid_view(old(self).buffer@), old(self).cursor_position),
        ensures
            grid_view(final(self).buffer@) == cursor_shown(
                dom_written(grid_view(old(self).buffer@), content@),
                old(self).cursor_position,
                old(self).cursor_shape,
            ),
            final(self).prev_buffer == old(self).prev_buffer,
            final(self).cursor_position == old(self).cursor_position,
            final(self).cursor_shape == old(self).cursor_shape,
    {
        let ghost g0 = grid_view(self.buffer@);
        let n = content.len();
        let mut i: usize = 0;
        while i < n
            invariant
                n == content@.len(),
                i <= n,
                self.prev_buffer == old(self).prev_buffer,
                self.cursor_position == old(self).cursor_position,
                self.cursor_shape == old(self).cursor_shape,
                g0 == grid_view(old(self).buffer@),
                grid_view(self.buffer@) == dom_written(g0, content@.take(i as int)),
            decreases n - i,
        {
            let x = content[i].0 as usize;
            let y = content[i].1 as usize;
            let ghost gb = grid_view(self.buffer@);
            if y < self.buffer.len() {
                let line = &mut self.buffer[y];
                let ghost l0 = line@;
                if x < line.len() {
                    line.set(x, content[i].2.clone());
                    proof {
                        assert(row_view(line@) =~= row_view(l0).update(x as int, content@[i as int].2@));
                    }
                } else {
                    pad_row(line, x);
                }
                proof {
                    assert(grid_view(self.buffer@) =~= dom_put(gb, x as int, y as int, content@[i as int].2@));
                }
            }
            proof {
                assert(content@.take(i + 1).drop_last() =~= content@.take(i as int));
                assert(content@.take(i + 1).last() == content@[i as int]);
            }
            i = i + 1;
        }
        assert(content@.take(n as int) =~= content@);
        proof {
            lemma_dom_written_rows(g0, content@);
        }
        match self.cursor_position {
            Some(pos) => {
                restyle_cursor_cell(&mut self.buffer, pos, self.cursor_shape, true);
            },
            None => {},
        }
    }

    /// Takes the cursor off the cell under it and forgets the cursor.
    pub fn hide_cursor(&mut self)
        requires
            cursor_row_in(grid_view(old(self).buffer@), old(self).cursor_position),
        ensures
            grid_view(final(self).buffer@) == cursor_hidden(
                grid_view(old(self).buffer@),
                old(self).cursor_position,
                old(self).cursor_shape,
            ),
            final(self).prev_buffer == old(self).prev_buffer,
            final(self).cursor_position is None,
            final(self).cursor_shape == old(self).cursor_shape,
    {
        match self.cursor_position {
            Some(pos) => {
                restyle_cursor_cell(&mut self.buffer, pos, self.cursor_shape, false);
            },
            None => {},
        }
        self.cursor_position = None;
    }

    /// Moves the cursor: the cell under the old position, if it differs from
    /// the new one, has the cursor taken off.
    pub fn set_cursor_position(&mut self, position: Position)
        requires
            cursor_row_in(grid_view(old(self).buffer@), old(self).cursor_position),
        ensures
            grid_view(final(self).buffer@) == (if old(self).cursor_position == Some(position) {
                grid_view(old(self).buffer@)
            } else {
                cursor_hidden(grid_view(old(self).buffer@), old(self).cursor_position, old(self).cursor_shape)
            }),
            final(self).prev_buffer == old(self).prev_buffer,
            final(self).cursor_position == Some(position),
            final(self).cursor_shape == old(self).cursor_shape,
    {
        match self.cursor_position {
            Some(old_pos) => {
                if old_pos.x != position.x || old_pos.y != position.y {
                    restyle_cursor_cell(&mut self.buffer, old_pos, self.cursor_shape, false);
                } else {
                    assert(old_pos == position);
                }
            },
            None => {},
        }
        self.cursor_position = Some(position);
    }

    /// Returns the cursor position, the origin when there is no cursor.
    pub fn get_cursor_position(&self) -> (r: Position)
        ensures
            r == (match self.cursor_position {
                Some(p) => p,
                None => Position { x: 0, y: 0 },
            }),
    {
        match self.cursor_position {
            None => Position { x: 0, y: 0 },
            Some(p) => p,
        }
    }

    /// Replaces the buffer with `size` empty cells.
    pub fn clear(&mut self, size: Size)
        ensures
            grid_view(final(self).buffer@) == blank_grid(size.width as nat, size.height as nat),
            final(self).prev_buffer == old(self).prev_buffer,
            final(self).cursor_position == old(self).cursor_position,
            final(self).cursor_shape == old(self).cursor_shape,
    {
        self.buffer = sized_grid(size.width as usize, size.height as usize);
    }

    /// The size of the terminal: one less than the length of the first row
    /// and than the number of rows.
    pub fn size(&self) -> (r: Size)
        requires
            self.buffer@.len() > 0,
        ensures
            r == dom_size(grid_view(self.buffer@)),
    {
        let w = self.buffer[0].len();
        let h = self.buffer.len();
        let w1: usize = if w > 0 { w - 1 } else { 0 };
        let h1: usize = if h > 0 { h - 1 } else { 0 };
        Size { width: w1 as u16, height: h1 as u16 }
    }
}

proof fn lemma_dom_written_grows(g: Seq<Seq<CellView>>, content: Seq<(u16, u16, Cell)>)
    ensures
        dom_written(g, content).len() == g.len(),
        forall|y: int| 0 <= y < g.len() ==> g[y].len() <= (#[trigger] dom_written(g, content)[y]).len(),
        forall|y: int, x: int| 0 <= y < g.len() && 0 <= x < g[y].len() && never_written(content, x as u16, y as u16)
            ==> #[trigger] dom_written(g, content)[y][x] == g[y][x],
    decreases content.len(),
{
    if content.len() > 0 {
        let rest = content.drop_last();
        lemma_dom_written_grows(g, rest);
        let h = dom_written(g, rest);
        let c = content.last();
        assert forall|y: int, x: int| 0 <= y < g.len() && 0 <= x < g[y].len() && never_written(content, x as u16, y as u16)
            implies #[trigger] dom_written(g, content)[y][x] == g[y][x] by {
            assert forall|j: int| 0 <= j < rest.len() implies !((#[trigger] rest[j]).0 == x as u16 && rest[j].1 == y as u16) by {
                assert(rest[j] == content[j]);
            }
            assert(h[y][x] == g[y][x]);
            assert(content[content.len() - 1] == c);
            if c.1 as int == y {
                assert(c.0 as int != x);
            }
        }
    }
}

/// Drawing then reading a cell gives back what was drawn: a cell within the
/// buffer holds the last changed cell written to it, the cursor aside.
pub proof fn lemma_dom_written_reads_back(g: Seq<Seq<CellView>>, content: Seq<(u16, u16, Cell)>, i: int)
    requires
        0 <= i < content.len(),
        content[i].1 < g.len(),
        content[i].0 < g[content[i].1 as int].len(),
        last_write_at(content, i, content[i].0, content[i].1),
    ensures
        dom_written(g, content)[content[i].1 as int][content[i].0 as int] == content[i].2@,
    decreases content.len(),
{
    let rest = content.drop_last();
    lemma_dom_written_grows(g, rest);
    if i < content.len() - 1 {
        assert(rest[i] == content[i]);
        assert forall|j: int| i < j < rest.len() implies !((#[trigger] rest[j]).0 == content[i].0 && rest[j].1 == content[i].1) by {
            assert(rest[j] == content[j]);
        }
        lemma_dom_written_reads_back(g, rest, i);
        let last = content.last();
        assert(!(last.0 == content[i].0 && last.1 == content[i].1));
    } else {
        assert(dom_written(g, rest)[content[i].1 as int].len() >= g[content[i].1 as int].len());
    }
}

/// Drawing leaves alone every cell of the buffer that no changed cell writes,
/// the cursor aside; rows are only ever padded at their end.
pub proof fn lemma_dom_written_untouched(g: Seq<Seq<CellView>>, content: Seq<(u16, u16, Cell)>, x: u16, y: u16)
    requires
        y < g.len(),
        x < g[y as int].len(),
        never_written(content, x, y),
    ensures
        dom_written(g, content)[y as int][x as int] == g[y as int][x as int],
{
    lemma_dom_written_grows(g, content);
    assert(dom_written(g, content)[y as int][x as int] == g[y as int][x as int]);
}

/// Drawing keeps the number of rows.
pub proof fn lemma_dom_written_rows(g: Seq<Seq<CellView>>, content: Seq<(u16, u16, Cell)>)
    ensures
        dom_written(g, content).len() == g.len(),
    decreases content.len(),
{
    if content.len() > 0 {
        lemma_dom_written_rows(g, content.drop_last());
    }
}

/// One element of a row on screen: the span of the cell at a column, or the
/// anchor of the hyperlink cells from a first column up to an end column.
#[derive(Debug, Clone, Copy, PartialEq, Eq, Structural)]
pub enum LineNode {
    Span(usize),
    Anchor(usize, usize),
}

/// The first column of the run of hyperlink cells that ends at column `i`.
pub open spec fn run_start(row: Seq<CellView>, i: int) -> int
    decreases i,
{
    if i > 0 && is_link(row[i - 1]) {
        run_start(row, i - 1)
    } else {
        i
    }
}

/// The node that the cell at column `i` completes: its own span, the anchor of
/// the hyperlink run it closes, or nothing while the run goes on.
pub open spec fn node_at(row: Seq<CellView>, i: int) -> Seq<LineNode> {
    if !is_link(row[i]) {
        seq![LineNode::Span(i as usize)]
    } else if i + 1 < row.len() && is_link(row[i + 1]) {
        seq![]
    } else {
        seq![LineNode::Anchor(run_start(row, i) as usize, (i + 1) as usize)]
    }
}

/// The nodes completed by the first `k` cells of a row.
pub open spec fn nodes_upto(row: Seq<CellView>, k: int) -> Seq<LineNode>
    decreases k,
{
    if k <= 0 {
        seq![]
    } else {
        nodes_upto(row, k - 1) + node_at(row, k - 1)
    }
}

/// The elements of a row on screen, left to right.
pub open spec fn line_nodes_of(row: Seq<CellView>) -> Seq<LineNode> {
    nodes_upto(row, row.len() as int)
}

/// Splits a row into its elements: a span for each plain cell and an anchor
/// for each maximal run of hyperlink cells.
pub fn line_nodes(row: &Vec<Cell>) -> (r: Vec<LineNode>)
    ensures
        r@ == line_nodes_of(row_view(row@)),
{
    let ghost rv = row_view(row@);
    let n = row.len();
    let mut r: Vec<LineNode> = Vec::new();
    let mut start: usize = 0;
    let mut i: usize = 0;
    while i < n
        invariant
            n == row@.len(),
            rv == row_view(row@),
            i <= n,
            r@ == nodes_upto(rv, i as int),
            i > 0 && is_link(rv[i - 1]) ==> start == run_start(rv, i - 1),
            start <= i,
        decreases n - i,
    {
        assert(rv[i as int] == row@[i as int]@);
        if is_hyperlink(row[i].modifier) {
            if i == 0 || !is_hyperlink(row[i - 1].modifier) {
                start = i;
            }
            assert(start == run_start(rv, i as int));
            let closes = if i + 1 < n { !is_hyperlink(row[i + 1].modifier) } else { true };
            if closes {
                r.push(LineNode::Anchor(start, i + 1));
            }
        } else {
            r.push(LineNode::Span(i));
        }
        assert(r@ =~= nodes_upto(rv, i + 1));
        i = i + 1;
    }
    r
}

/// The columns an element covers.
pub open spec fn node_columns(nd: LineNode) -> Seq<int> {
    match nd {
        LineNode::Span(i) => seq![i as int],
        LineNode::Anchor(s, e) => Seq::new((e - s) as nat, |k: int| s + k),
    }
}

/// The columns the elements cover, one after another.
pub open spec fn nodes_columns(ns: Seq<LineNode>) -> Seq<int>
    decreases ns.len(),
{
    if ns.len() == 0 {
        seq![]
    } else {
        nodes_columns(ns.drop_last()) + node_columns(ns.last())
    }
}

/// The columns from `0` up to `n`.
pub open spec fn columns(n: int) -> Seq<int> {
    Seq::new(n as nat, |k: int| k)
}

/// How far the first `k` cells of a row have been placed into elements: all
/// of them, or, while a hyperlink run goes on past `k`, up to its start.
pub open spec fn placed_upto(row: Seq<CellView>, k: int) -> int {
    if k > 0 && k < row.len() && is_link(row[k - 1]) && is_link(row[k]) {
        run_start(row, k - 1)
    } else {
        k
    }
}

proof fn lemma_run_start_bounds(row: Seq<CellView>, i: int)
    requires
        0 <= i,
    ensures
        0 <= run_start(row, i) <= i,
        run_start(row, i) < i ==> is_link(row[i - 1]) && run_start(row, i) == run_start(row, i - 1),
    decreases i,
{
    if i > 0 && is_link(row[i - 1]) {
        lemma_run_start_bounds(row, i - 1);
    }
}

proof fn lemma_nodes_upto_columns(row: Seq<CellView>, k: int)
    requires
        0 <= k <= row.len(),
        row.len() <= usize::MAX,
    ensures
        nodes_columns(nodes_upto(row, k)) == columns(placed_upto(row, k)),
    decreases k,
{
    if k == 0 {
        assert(nodes_columns(seq![]) =~= columns(0));
    } else {
        let i = k - 1;
        lemma_nodes_upto_columns(row, i);
        lemma_run_start_bounds(row, i);
        let prev = nodes_upto(row, i);
        let nd = node_at(row, i);
        assert(nodes_upto(row, k) == prev + nd);
        let p = placed_upto(row, i);
        if !is_link(row[i]) {
            assert(p == i);
            assert((prev + nd).drop_last() =~= prev);
            assert((prev + nd).last() == LineNode::Span(i as usize));
            assert(nodes_columns(prev + nd) == nodes_columns(prev) + node_columns(LineNode::Span(i as usize)));
            assert(nodes_columns(prev + nd) =~= columns(k));
        } else if i + 1 < row.len() && is_link(row[i + 1]) {
            assert(prev + nd =~= prev);
            assert(p == run_start(row, i));
        } else {
            let rs = run_start(row, i);
            assert(p == rs);
            let a = LineNode::Anchor(rs as usize, (i + 1) as usize);
            assert((prev + nd).drop_last() =~= prev);
            assert((prev + nd).last() == a);
            assert(nodes_columns(prev + nd) == nodes_columns(prev) + node_columns(a));
            assert(nodes_columns(prev + nd) =~= columns(k));
        }
    }
}

/// Laying a row out as elements places every cell exactly once, left to
/// right: the columns of the spans and anchors, in order, are `0, 1, ..`, one
/// per cell; so the spans are created in the order of the cells.
pub proof fn lemma_line_nodes_cover_row(row: Seq<CellView>)
    requires
        row.len() <= usize::MAX,
    ensures
        nodes_columns(line_nodes_of(row)) == columns(row.len() as int),
{
    lemma_nodes_upto_columns(row, row.len() as int);
}

/// Every span holds a plain cell and every anchor a run of hyperlink cells
/// that cannot be made longer.
pub proof fn lemma_line_nodes_kinds(row: Seq<CellView>, j: int)
    requires
        row.len() <= usize::MAX,
        0 <= j < line_nodes_of(row).len(),
    ensures
        match line_nodes_of(row)[j] {
            LineNode::Span(i) => i < row.len() && !is_link(row[i as int]),
            LineNode::Anchor(s, e) => s < e <= row.len()
                && (forall|c: int| s <= c < e ==> is_link(#[trigger] row[c]))
                && (s == 0 || !is_link(row[s - 1]))
                && (e == row.len() || !is_link(row[e as int])),
        },
{
    lemma_nodes_kinds_upto(row, row.len() as int, j);
}

proof fn lemma_run_start_links(row: Seq<CellView>, i: int)
    requires
        0 <= i < row.len(),
        is_link(row[i]),
    ensures
        forall|c: int| run_start(row, i) <= c <= i ==> is_link(#[trigger] row[c]),
        run_start(row, i) == 0 || !is_link(row[run_start(row, i) - 1]),
    decreases i,
{
    if i > 0 && is_link(row[i - 1]) {
        lemma_run_start_links(row, i - 1);
    }
}

proof fn lemma_nodes_kinds_upto(row: Seq<CellView>, k: int, j: int)
    requires
        row.len() <= usize::MAX,
        0 <= k <= row.len(),
        0 <= j < nodes_upto(row, k).len(),
    ensures
        match nodes_upto(row, k)[j] {
            LineNode::Span(i) => i < row.len() && !is_link(row[i as int]),
            LineNode::Anchor(s, e) => s < e <= row.len()
                && (forall|c: int| s <= c < e ==> is_link(#[trigger] row[c]))
                && (s == 0 || !is_link(row[s - 1]))
                && (e == row.len() || !is_link(row[e as int])),
        },
    decreases k,
{
    let i = k - 1;
    let prev = nodes_upto(row, i);
    let nd = node_at(row, i);
    assert(nodes_upto(row, k) == prev + nd);
    if j < prev.len() {
        lemma_nodes_kinds_upto(row, i, j);
        assert(nodes_upto(row, k)[j] == prev[j]);
    } else {
        assert(nodes_upto(row, k)[j] == nd[j - prev.len()]);
        if is_link(row[i]) {
            lemma_run_start_bounds(row, i);
            lemma_run_start_links(row, i);
            let rs = run_start(row, i);
            assert(nd == seq![LineNode::Anchor(rs as usize, (i + 1) as usize)]);
            assert(nodes_upto(row, k)[j] == LineNode::Anchor(rs as usize, (i + 1) as usize));
            assert(forall|c: int| rs <= c < i + 1 ==> is_link(#[trigger] row[c]));
        } else {
            assert(nodes_upto(row, k)[j] == LineNode::Span(i as usize));
        }
    }
}

/// The cells whose spans laying out the first `k` rows creates, as (row,
/// column), in the order they are created.
pub open spec fn spans_in_order(g: Seq<Seq<CellView>>, k: int) -> Seq<(int, int)>
    decreases k,
{
    if k <= 0 {
        seq![]
    } else {
        spans_in_order(g, k - 1) + nodes_columns(line_nodes_of(g[k - 1])).map_values(|c: int| (k - 1, c))
    }
}

proof fn lemma_spans_in_order_rows(g: Seq<Seq<CellView>>, w: int, k: int)
    requires
        0 < w <= usize::MAX,
        0 <= k <= g.len(),
        forall|r: int| 0 <= r < g.len() ==> (#[trigger] g[r]).len() == w,
    ensures
        spans_in_order(g, k) == Seq::new((k * w) as nat, |i: int| (i / w, i % w)),
    decreases k,
{
    if k == 0 {
        assert(spans_in_order(g, 0) =~= Seq::new((0 * w) as nat, |i: int| (i / w, i % w)));
    } else {
        lemma_spans_in_order_rows(g, w, k - 1);
        lemma_line_nodes_cover_row(g[k - 1]);
        let prev = spans_in_order(g, k - 1);
        let row = nodes_columns(line_nodes_of(g[k - 1])).map_values(|c: int| (k - 1, c));
        assert(nodes_columns(line_nodes_of(g[k - 1])) == columns(w));
        assert((k - 1) * w + w == k * w) by (nonlinear_arith);
        assert(0 <= (k - 1) * w) by (nonlinear_arith)
            requires
                k >= 1,
                w > 0,
        ;
        let target = Seq::new((k * w) as nat, |i: int| (i / w, i % w));
        assert forall|i: int| 0 <= i < k * w implies (prev + row)[i] == target[i] by {
            if i >= (k - 1) * w {
                let c = i - (k - 1) * w;
                vstd::arithmetic::div_mod::lemma_fundamental_div_mod_converse(i, w, k - 1, c);
            }
        }
        assert(prev + row =~= target);
    }
}

/// With rows of equal width `w`, the span of column `x` in row `y` is the
/// `(y * w + x)`-th created when the grid is laid out: the number that a
/// span update carries for that cell.
pub proof fn lemma_update_index_finds_span(g: Seq<Seq<CellView>>, w: int, y: int, x: int)
    requires
        0 < w <= usize::MAX,
        forall|r: int| 0 <= r < g.len() ==> (#[trigger] g[r]).len() == w,
        0 <= y < g.len(),
        0 <= x < w,
    ensures
        spans_in_order(g, g.len() as int).len() == g.len() * w,
        spans_in_order(g, g.len() as int)[y * w + x] == (y, x),
{
    lemma_spans_in_order_rows(g, w, g.len() as int);
    assert(y * w + x < g.len() * w) by (nonlinear_arith)
        requires
            0 <= y < g.len(),
            0 <= x < w,
    ;
    assert(0 <= y * w) by (nonlinear_arith)
        requires
            0 <= y,
            0 <= w,
    ;
    vstd::arithmetic::div_mod::lemma_fundamental_div_mod_converse(y * w + x, w, y, x);
}

impl DomGrid {
    /// Brings the screen up to date with the buffer. On the first render the
    /// whole buffer has just been laid out and nothing is updated; otherwise,
    /// when the buffer changed, the spans of the changed cells, outside
    /// hyperlinks, are returned in row order. Either way the buffer is then
    /// what is on screen.
    pub fn flush(&mut self, first_render: bool) -> (updates: Vec<CellUpdate>)
        requires
            first_render
                || grid_view(old(self).buffer@) == grid_view(old(self).prev_buffer@)
                || updatable(grid_view(old(self).buffer@), grid_view(old(self).prev_buffer@)),
        ensures
            grid_view(final(self).buffer@) == grid_view(old(self).buffer@),
            grid_view(final(self).prev_buffer@) == grid_view(old(self).buffer@),
            final(self).cursor_position == old(self).cursor_position,
            final(self).cursor_shape == old(self).cursor_shape,
            updates@ == (if first_render || grid_view(old(self).buffer@) == grid_view(old(self).prev_buffer@) {
                Seq::<CellUpdate>::empty()
            } else {
                grid_updates(
                    grid_view(old(self).buffer@),
                    grid_view(old(self).prev_buffer@),
                    true,
                    false,
                    old(self).buffer@.len() as int,
                )
            }),
    {
        let updates = if first_render || grids_equal(&self.buffer, &self.prev_buffer) {
            Vec::new()
        } else {
            cell_updates(&self.buffer, &self.prev_buffer, true, false)
        };
        self.prev_buffer = clone_grid(&self.buffer);
        updates
    }
}

} // verus!
