//! WebGL2 renderer logic: the flat cell buffer, its resizing, the cursor and
//! the glyph style bits handed to the GPU.

use vstd::prelude::*;
use crate::style::{
    apply_style, cell_style, Cell, CellView, Color, Modifier, Position, Style, BOLD, CROSSED_OUT, ITALIC,
    REVERSED, UNDERLINED,
};
use crate::backend::color::{rgb_value, to_rgb};
use crate::backend::cursor::{with_cursor, without_cursor, CursorShape};

verus! {

/// Options for the WebGL2 renderer.
#[derive(Debug)]
pub struct WebGl2BackendOptions {
    /// The element ID.
    pub grid_id: Option<String>,
    /// Size of the render area in pixels; overrides the detected size if set.
    pub size: Option<(u32, u32)>,
    /// Measure performance using the `performance` API.
    pub measure_performance: bool,
}

impl Default for WebGl2BackendOptions {
    fn default() -> (r: Self)
        ensures
            r.grid_id is None,
            r.size is None,
            !r.measure_performance,
    {
        WebGl2BackendOptions { grid_id: None, size: None, measure_performance: false }
    }
}

impl WebGl2BackendOptions {
    /// Constructs the default options.
    pub fn new() -> (r: Self)
        ensures
            r.grid_id is None,
            r.size is None,
            !r.measure_performance,
    {
        Self::default()
    }

    /// Sets the element id of the canvas' parent element.
    pub fn grid_id(self, id: &str) -> (r: Self)
        ensures
            r.grid_id is Some,
            r.grid_id.unwrap()@ == id@,
            r.size == self.size,
            r.measure_performance == self.measure_performance,
    {
        WebGl2BackendOptions { grid_id: Some(String::from_str(id)), ..self }
    }

    /// Sets the size of the canvas, in pixels.
    pub fn size(self, size: (u32, u32)) -> (r: Self)
        ensures
            r.size == Some(size),
            r.grid_id == self.grid_id,
            r.measure_performance == self.measure_performance,
    {
        WebGl2BackendOptions { size: Some(size), ..self }
    }

    /// Enables or disables frame-based performance measurements.
    pub fn measure_performance(self, measure: bool) -> (r: Self)
        ensures
            r.measure_performance == measure,
            r.grid_id == self.grid_id,
            r.size == self.size,
    {
        WebGl2BackendOptions { measure_performance: measure, ..self }
    }
}

/// Bit of the bold font style in a glyph's style bits.
pub const GLYPH_BOLD: u16 = 0x0200;
/// Bit of the italic font style in a glyph's style bits.
pub const GLYPH_ITALIC: u16 = 0x0400;
/// Bit of the underline effect in a glyph's style bits.
pub const GLYPH_UNDERLINE: u16 = 0x1000;
/// Bit of the strike-through effect in a glyph's style bits.
pub const GLYPH_STRIKETHROUGH: u16 = 0x2000;

/// The glyph style bits of a set of modifiers: bold, italic, underline and
/// strike-through each set their own bit; other modifiers set nothing.
pub open spec fn glyph_bits(m: u16) -> u16 {
    (if m & BOLD != 0 { GLYPH_BOLD } else { 0u16 })
    | (if m & ITALIC != 0 { GLYPH_ITALIC } else { 0u16 })
    | (if m & UNDERLINED != 0 { GLYPH_UNDERLINE } else { 0u16 })
    | (if m & CROSSED_OUT != 0 { GLYPH_STRIKETHROUGH } else { 0u16 })
}

/// Extracts glyph styling bits from cell modifiers by shifting each
/// modifier bit to its glyph bit.
pub fn into_glyph_bits(modifier: Modifier) -> (r: u16)
    ensures
        r == glyph_bits(modifier.bits),
{
    let m = modifier.bits;
    let r = (m << 9u16) & (1u16 << 9u16) | (m << 8u16) & (1u16 << 10u16) | (m << 9u16) & (1u16 << 12u16) | (m << 5u16) & (
    1u16 << 13u16);
    assert(r == ((if m & 1 != 0 { 0x0200u16 } else { 0u16 }) | (if m & 4 != 0 { 0x0400u16 } else { 0u16 }) | (if m
        & 8 != 0 { 0x1000u16 } else { 0u16 }) | (if m & 0x100 != 0 { 0x2000u16 } else { 0u16 }))) by (bit_vector)
        requires
            r == (m << 9u16) & (1u16 << 9u16) | (m << 8u16) & (1u16 << 10u16) | (m << 9u16) & (1u16 << 12u16) | (m
                << 5u16) & (1u16 << 13u16),
    ;
    r
}

/// What the GPU receives for one cell: its symbol, its glyph style bits and
/// the packed RGB values of its text and background.
#[derive(Debug)]
pub struct GlyphData {
    pub symbol: String,
    pub style_bits: u16,
    pub fg: u32,
    pub bg: u32,
}

/// The GPU data of a cell: a reset or palette text color becomes white and a
/// reset or palette background black.
pub fn cell_data(cell: &Cell) -> (r: GlyphData)
    ensures
        r.symbol@ == cell.symbol@,
        r.style_bits == glyph_bits(cell.modifier.bits),
        r.fg == rgb_value(cell.fg, 0xffffff),
        r.bg == rgb_value(cell.bg, 0x000000),
{
    GlyphData {
        symbol: cell.symbol.clone(),
        style_bits: into_glyph_bits(cell.modifier),
        fg: to_rgb(cell.fg, 0xffffff),
        bg: to_rgb(cell.bg, 0x000000),
    }
}

/// The empty cell the WebGL2 renderer fills its grid with: a space in white on black.
pub open spec fn webgl_default_cell() -> CellView {
    CellView {
        symbol: seq![' '],
        fg: Color::White,
        bg: Color::Black,
        underline_color: Color::Reset,
        modifier: Modifier { bits: 0 },
        skip: false,
    }
}

/// The empty cell of the WebGL2 renderer: a space in white on black.
pub fn default_cell() -> (c: Cell)
    ensures
        c@ == webgl_default_cell(),
{
    let mut c = Cell::new_default();
    c.set_style(Style::new().fg(Color::White).bg(Color::Black));
    proof {
        assert(0u16 | 0u16 == 0u16 && 0u16 & !0u16 == 0u16) by (bit_vector);
    }
    c
}

/// A cell whose colors are swapped when it is reversed.
pub open spec fn safe_colors(c: CellView) -> CellView {
    if c.modifier.bits & REVERSED == REVERSED {
        CellView { fg: c.bg, bg: c.fg, ..c }
    } else {
        c
    }
}

/// A copy of the cell with foreground and background swapped when it is reversed.
pub fn cell_with_safe_colors(cell: &Cell) -> (r: Cell)
    ensures
        r@ == safe_colors(cell@),
{
    let mut fg = cell.fg;
    let mut bg = cell.bg;
    if cell.modifier.contains(Modifier::from_bits(REVERSED)) {
        let t = fg;
        fg = bg;
        bg = t;
    }
    let mut c = cell.clone();
    c.fg = fg;
    c.bg = bg;
    c
}

/// The cell at column `x`, row `y` of a grid resized from `old_size` to
/// `new_size` (columns, rows): the old cell where the two sizes overlap, an
/// empty cell elsewhere.
pub open spec fn resized_cell(cells: Seq<Cell>, old_size: (u16, u16), x: int, y: int) -> CellView {
    if x < old_size.0 && y < old_size.1 {
        cells[y * old_size.0 + x]@
    } else {
        webgl_default_cell()
    }
}

/// Whether the old buffer holds every cell of the region the two sizes share.
pub open spec fn overlap_in_bounds(len: nat, old_size: (u16, u16), new_size: (u16, u16)) -> bool {
    let w = if old_size.0 < new_size.0 { old_size.0 } else { new_size.0 };
    let h = if old_size.1 < new_size.1 { old_size.1 } else { new_size.1 };
    w == 0 || h == 0 || (h - 1) * old_size.0 + w <= len
}

proof fn lemma_index_bounds(x: int, y: int, w: int, h: int)
    requires
        0 <= x < w,
        0 <= y < h,
    ensures
        0 <= y * w + x < w * h,
{
    assert(y * w + x < w * h) by (nonlinear_arith)
        requires 0 <= x < w, 0 <= y < h;
    assert(0 <= y * w) by (nonlinear_arith)
        requires 0 <= y, 0 <= w;
}

proof fn lemma_index_unique(x1: int, y1: int, x2: int, y2: int, w: int)
    requires
        0 <= x1 < w,
        0 <= x2 < w,
        0 <= y1,
        0 <= y2,
        y1 * w + x1 == y2 * w + x2,
    ensures
        x1 == x2 && y1 == y2,
{
    if y1 < y2 {
        assert(y1 * w + w <= y2 * w) by (nonlinear_arith)
            requires y1 < y2, 0 <= w;
    } else if y2 < y1 {
        assert(y2 * w + w <= y1 * w) by (nonlinear_arith)
            requires y2 < y1, 0 <= w;
    }
}

proof fn lemma_old_index(x: int, y: int, ow: int, w: int, h: int, len: int)
    requires
        0 <= x < w,
        0 <= y < h,
        w <= ow,
        (h - 1) * ow + w <= len,
    ensures
        0 <= y * ow + x < len,
{
    assert(y * ow <= (h - 1) * ow) by (nonlinear_arith)
        requires 0 <= y <= h - 1, 0 <= ow;
    assert(0 <= y * ow) by (nonlinear_arith)
        requires 0 <= y, 0 <= ow;
}

/// Resizes the cell grid to the new size (columns, rows), copying the cells
/// where the old and new grids overlap; all other cells are empty.
pub fn resize_cell_grid(cells: &[Cell], old_size: (u16, u16), new_size: (u16, u16)) -> (r: Vec<Cell>)
    requires
        overlap_in_bounds(cells@.len(), old_size, new_size),
    ensures
        r@.len() == new_size.0 * new_size.1,
        forall|x: int, y: int|
            0 <= x < new_size.0 && 0 <= y < new_size.1 ==> (#[trigger] r@[y * new_size.0 + x])@ == resized_cell(
                cells@,
                old_size,
                x,
                y,
            ),
{
    let ow = old_size.0 as usize;
    let oh = old_size.1 as usize;
    let nw = new_size.0 as usize;
    let nh = new_size.1 as usize;
    proof {
        assert(nw * nh <= 0xffff * 0xffff) by (nonlinear_arith)
            requires nw <= 0xffff, nh <= 0xffff;
    }
    let new_len = nw * nh;
    let mut new_cells: Vec<Cell> = Vec::new();
    let mut i: usize = 0;
    while i < new_len
        invariant
            i <= new_len,
            new_cells@.len() == i,
            forall|k: int| 0 <= k < i ==> (#[trigger] new_cells@[k])@ == webgl_default_cell(),
        decreases new_len - i,
    {
        new_cells.push(default_cell());
        i = i + 1;
    }
    let mw = if ow < nw { ow } else { nw };
    let mh = if oh < nh { oh } else { nh };
    let clen = cells.len();
    proof {
        assert forall|xx: int, yy: int|
            0 <= xx < nw && 0 <= yy < nh implies (#[trigger] new_cells@[yy * nw + xx])@ == webgl_default_cell() by {
            lemma_index_bounds(xx, yy, nw as int, nh as int);
        }
    }
    let mut y: usize = 0;
    while y < mh
        invariant
            ow == old_size.0,
            oh == old_size.1,
            nw == new_size.0,
            nh == new_size.1,
            new_len == nw * nh,
            mw == (if ow < nw { ow } else { nw }),
            mh == (if oh < nh { oh } else { nh }),
            overlap_in_bounds(cells@.len(), old_size, new_size),
            clen == cells@.len(),
            y <= mh,
            new_cells@.len() == new_len,
            forall|xx: int, yy: int|
                0 <= xx < nw && 0 <= yy < nh ==> (#[trigger] new_cells@[yy * nw + xx])@ == (if yy < y && xx < mw {
                    cells@[yy * ow + xx]@
                } else {
                    webgl_default_cell()
                }),
        decreases mh - y,
    {
        let mut x: usize = 0;
        while x < mw
            invariant
                ow == old_size.0,
                oh == old_size.1,
                nw == new_size.0,
                nh == new_size.1,
                new_len == nw * nh,
                mw == (if ow < nw { ow } else { nw }),
                mh == (if oh < nh { oh } else { nh }),
                overlap_in_bounds(cells@.len(), old_size, new_size),
                clen == cells@.len(),
                y < mh,
                x <= mw,
                new_cells@.len() == new_len,
                forall|xx: int, yy: int|
                    0 <= xx < nw && 0 <= yy < nh ==> (#[trigger] new_cells@[yy * nw + xx])@ == (if yy < y && xx < mw
                        || yy == y && xx < x {
                        cells@[yy * ow + xx]@
                    } else {
                        webgl_default_cell()
                    }),
            decreases mw - x,
        {
            proof {
                lemma_index_bounds(x as int, y as int, nw as int, nh as int);
                lemma_old_index(x as int, y as int, ow as int, mw as int, mh as int, cells@.len() as int);
            }
            let new_idx = y * nw + x;
            let old_idx = y * ow + x;
            let ghost prev = new_cells@;
            new_cells.set(new_idx, cells[old_idx].clone());
            proof {
                assert forall|xx: int, yy: int|
                    0 <= xx < nw && 0 <= yy < nh implies (#[trigger] new_cells@[yy * nw + xx])@ == (if yy < y && xx < mw
                        || yy == y && xx < x + 1 {
                        cells@[yy * ow + xx]@
                    } else {
                        webgl_default_cell()
                    }) by {
                    lemma_index_bounds(xx, yy, nw as int, nh as int);
                    if yy * nw + xx == new_idx {
                        lemma_index_unique(xx, yy, x as int, y as int, nw as int);
                    } else {
                        assert(new_cells@[yy * nw + xx] == prev[yy * nw + xx]);
                    }
                }
            }
            x = x + 1;
        }
        y = y + 1;
    }
    proof {
        assert forall|x: int, y: int|
            0 <= x < new_size.0 && 0 <= y < new_size.1 implies (#[trigger] new_cells@[y * new_size.0 + x])@
            == resized_cell(cells@, old_size, x, y) by {
            assert(new_cells@[y * nw + x]@ == (if y < mh && x < mw {
                cells@[y * ow + x]@
            } else {
                webgl_default_cell()
            }));
        }
    }
    new_cells
}

/// The flat index of a cell in a grid `w` columns wide.
pub open spec fn flat_index(x: u16, y: u16, w: u16) -> int {
    y * w + x
}

fn flat_idx(x: u16, y: u16, w: u16) -> (r: usize)
    ensures
        r == flat_index(x, y, w),
{
    proof {
        assert(y * w <= 0xffff * 0xffff) by (nonlinear_arith)
            requires y <= 0xffff, w <= 0xffff;
    }
    y as usize * w as usize + x as usize
}

/// The flat buffer after each changed cell has been written, its colors made safe.
pub open spec fn flat_written(buf: Seq<CellView>, content: Seq<(u16, u16, Cell)>, w: u16) -> Seq<CellView>
    decreases content.len(),
{
    if content.len() == 0 {
        buf
    } else {
        let c = content.last();
        flat_written(buf, content.drop_last(), w).update(flat_index(c.0, c.1, w), safe_colors(c.2@))
    }
}

/// Drawing then reading a cell gives back what was drawn, its colors made
/// safe: a cell within the buffer holds the last changed cell written to it.
pub proof fn lemma_flat_written_reads_back(buf: Seq<CellView>, content: Seq<(u16, u16, Cell)>, w: u16, i: int)
    requires
        0 <= i < content.len(),
        forall|j: int| 0 <= j < content.len()
            ==> 0 <= flat_index((#[trigger] content[j]).0, content[j].1, w) < buf.len(),
        forall|j: int| i < j < content.len()
            ==> flat_index((#[trigger] content[j]).0, content[j].1, w) != flat_index(content[i].0, content[i].1, w),
    ensures
        flat_written(buf, content, w)[flat_index(content[i].0, content[i].1, w)] == safe_colors(content[i].2@),
    decreases content.len(),
{
    let rest = content.drop_last();
    assert forall|j: int| 0 <= j < rest.len()
        implies 0 <= flat_index((#[trigger] rest[j]).0, rest[j].1, w) < buf.len() by {
        assert(rest[j] == content[j]);
    }
    lemma_flat_written_len(buf, rest, w);
    if i < content.len() - 1 {
        assert(rest[i] == content[i]);
        assert forall|j: int| i < j < rest.len()
            implies flat_index((#[trigger] rest[j]).0, rest[j].1, w) != flat_index(content[i].0, content[i].1, w) by {
            assert(rest[j] == content[j]);
        }
        lemma_flat_written_reads_back(buf, rest, w, i);
        assert(content[content.len() - 1] == content.last());
    }
}

proof fn lemma_flat_written_len(buf: Seq<CellView>, content: Seq<(u16, u16, Cell)>, w: u16)
    requires
        forall|j: int| 0 <= j < content.len()
            ==> 0 <= flat_index((#[trigger] content[j]).0, content[j].1, w) < buf.len(),
    ensures
        flat_written(buf, content, w).len() == buf.len(),
    decreases content.len(),
{
    if content.len() > 0 {
        let rest = content.drop_last();
        assert forall|j: int| 0 <= j < rest.len()
            implies 0 <= flat_index((#[trigger] rest[j]).0, rest[j].1, w) < buf.len() by {
            assert(rest[j] == content[j]);
        }
        lemma_flat_written_len(buf, rest, w);
        assert(content[content.len() - 1] == content.last());
    }
}

/// A flat buffer with the cursor drawn at `pos`, when that cell exists.
pub open spec fn flat_with_cursor(buf: Seq<CellView>, pos: Position, w: u16, shape: CursorShape) -> Seq<CellView> {
    let i = flat_index(pos.x, pos.y, w);
    if i < buf.len() { buf.update(i, with_cursor(buf[i], shape)) } else { buf }
}

/// A flat buffer with the cursor taken off `pos`, when that cell exists.
pub open spec fn flat_without_cursor(buf: Seq<CellView>, pos: Position, w: u16, shape: CursorShape) -> Seq<CellView> {
    let i = flat_index(pos.x, pos.y, w);
    if i < buf.len() { buf.update(i, without_cursor(buf[i], shape)) } else { buf }
}

/// The views of a flat buffer.
pub open spec fn flat_view(b: Seq<Cell>) -> Seq<CellView> {
    Seq::new(b.len(), |i: int| b[i]@)
}

/// The flat cell buffer of the WebGL2 renderer and its cursor.
#[derive(Debug)]
pub struct WebGl2Grid {
    /// The cells, row after row.
    pub buffer: Vec<Cell>,
    /// Whether the cells changed since they were last uploaded.
    pub dirty_cell_data: bool,
    /// Cursor position.
    pub cursor_position: Option<Position>,
    /// The cursor shape.
    pub cursor_shape: CursorShape,
}

fn style_cell_at(buffer: &mut Vec<Cell>, i: usize, shape: CursorShape, show: bool)
    requires
        i < old(buffer)@.len(),
    ensures
        flat_view(final(buffer)@) == flat_view(old(buffer)@).update(
            i as int,
            if show { with_cursor(old(buffer)@[i as int]@, shape) } else { without_cursor(old(buffer)@[i as int]@, shape) },
        ),
{
    let mut cell = buffer[i].clone();
    let st = cell.style();
    let st2 = if show { shape.show(st) } else { shape.hide_style(st) };
    cell.set_style(st2);
    buffer.set(i, cell);
    assert(flat_view(buffer@) =~= flat_view(old(buffer)@).update(
        i as int,
        if show { with_cursor(old(buffer)@[i as int]@, shape) } else { without_cursor(old(buffer)@[i as int]@, shape) },
    ));
}

impl WebGl2Grid {
    /// A grid of `cell_count` empty cells, clean, with the cursor hidden and block-shaped.
    pub fn new(cell_count: usize) -> (g: WebGl2Grid)
        ensures
            flat_view(g.buffer@) == Seq::new(cell_count as nat, |i: int| crate::style::default_cell_view()),
            !g.dirty_cell_data,
            g.cursor_position is None,
            g.cursor_shape == CursorShape::SteadyBlock,
    {
        let buffer = crate::style::default_row(cell_count);
        assert(flat_view(buffer@) =~= crate::style::row_view(buffer@));
        WebGl2Grid { buffer, dirty_cell_data: false, cursor_position: None, cursor_shape: CursorShape::SteadyBlock }
    }

    /// Returns the cursor shape.
    pub fn cursor_shape(&self) -> (r: &CursorShape)
        ensures
            *r == self.cursor_shape,
    {
        &self.cursor_shape
    }

    /// Sets the cursor shape.
    pub fn set_cursor_shape(self, shape: CursorShape) -> (r: Self)
        ensures
            r == (WebGl2Grid { cursor_shape: shape, ..self }),
    {
        WebGl2Grid { cursor_shape: shape, ..self }
    }

    /// Resizes the grid from `old_size` to `new_size` (columns, rows) when
    /// they differ, keeping the overlapping cells, and marks it dirty.
    pub fn resize(&mut self, old_size: (u16, u16), new_size: (u16, u16))
        requires
            new_size != old_size ==> overlap_in_bounds(old(self).buffer@.len(), old_size, new_size),
        ensures
            new_size == old_size ==> *final(self) == *old(self),
            new_size != old_size ==> {
                &&& final(self).dirty_cell_data
                &&& final(self).buffer@.len() == new_size.0 * new_size.1
                &&& forall|x: int, y: int|
                    0 <= x < new_size.0 && 0 <= y < new_size.1 ==> (#[trigger] final(self).buffer@[y * new_size.0 + x])@
                        == resized_cell(old(self).buffer@, old_size, x, y)
                &&& final(self).cursor_position == old(self).cursor_position
                &&& final(self).cursor_shape == old(self).cursor_shape
            },
    {
        if new_size.0 != old_size.0 || new_size.1 != old_size.1 {
            self.dirty_cell_data = true;
            self.buffer = resize_cell_grid(self.buffer.as_slice(), old_size, new_size);
        }
    }

    /// Whether the cells must be uploaded; the grid is clean afterwards.
    pub fn take_dirty(&mut self) -> (r: bool)
        ensures
            r == old(self).dirty_cell_data,
            *final(self) == (WebGl2Grid { dirty_cell_data: false, ..*old(self) }),
    {
        let r = self.dirty_cell_data;
        self.dirty_cell_data = false;
        r
    }

    /// Draws the cursor at `pos` in a grid `w` columns wide, when that cell exists.
    pub fn draw_cursor(&mut self, pos: Position, w: u16)
        ensures
            flat_view(final(self).buffer@) == flat_with_cursor(flat_view(old(self).buffer@), pos, w, old(self).cursor_shape),
            final(self).dirty_cell_data == old(self).dirty_cell_data,
            final(self).cursor_position == old(self).cursor_position,
            final(self).cursor_shape == old(self).cursor_shape,
    {
        let idx = flat_idx(pos.x, pos.y, w);
        if idx < self.buffer.len() {
            style_cell_at(&mut self.buffer, idx, self.cursor_shape, true);
        }
    }

    /// Writes the changed cells, colors made safe, into a grid `w` columns
    /// wide, marks it dirty and draws the cursor; nothing changes when there
    /// are no changed cells.
    pub fn draw(&mut self, content: &Vec<(u16, u16, Cell)>, w: u16)
        requires
            forall|i: int| 0 <= i < content@.len() ==> flat_index((#[trigger] content@[i]).0, content@[i].1, w)
                < old(self).buffer@.len(),
        ensures
            content@.len() == 0 ==> *final(self) == *old(self),
            content@.len() > 0 ==> {
                &&& final(self).dirty_cell_data
                &&& final(self).cursor_position == old(self).cursor_position
                &&& final(self).cursor_shape == old(self).cursor_shape
                &&& flat_view(final(self).buffer@) == match old(self).cursor_position {
                    Some(p) => flat_with_cursor(flat_written(flat_view(old(self).buffer@), content@, w), p, w, old(self).cursor_shape),
                    None => flat_written(flat_view(old(self).buffer@), content@, w),
                }
            },
    {
        if content.len() == 0 {
            return;
        }
        self.dirty_cell_data = true;
        let n = content.len();
        let mut i: usize = 0;
        while i < n
            invariant
                n == content@.len(),
                i <= n,
                self.buffer@.len() == old(self).buffer@.len(),
                self.dirty_cell_data,
                self.cursor_position == old(self).cursor_position,
                self.cursor_shape == old(self).cursor_shape,
                forall|k: int| 0 <= k < content@.len() ==> flat_index((#[trigger] content@[k]).0, content@[k].1, w)
                    < old(self).buffer@.len(),
                flat_view(self.buffer@) == flat_written(flat_view(old(self).buffer@), content@.take(i as int), w),
            decreases n - i,
        {
            let x = content[i].0;
            let y = content[i].1;
            assert(flat_index(x, y, w) < self.buffer@.len());
            let idx = flat_idx(x, y, w);
            let ghost prev = flat_view(self.buffer@);
            self.buffer.set(idx, cell_with_safe_colors(&content[i].2));
            proof {
                assert(content@.take(i + 1).drop_last() =~= content@.take(i as int));
                assert(content@.take(i + 1).last() == content@[i as int]);
                assert(flat_view(self.buffer@) =~= prev.update(idx as int, safe_colors(content@[i as int].2@)));
            }
            i = i + 1;
        }
        assert(content@.take(n as int) =~= content@);
        match self.cursor_position {
            Some(pos) => self.draw_cursor(pos, w),
            None => {},
        }
    }

    /// Takes the cursor off its cell, when that cell exists, and hides it.
    pub fn hide_cursor(&mut self, w: u16)
        ensures
            flat_view(final(self).buffer@) == match old(self).cursor_position {
                Some(p) => flat_without_cursor(flat_view(old(self).buffer@), p, w, old(self).cursor_shape),
                None => flat_view(old(self).buffer@),
            },
            final(self).cursor_position is None,
            final(self).dirty_cell_data == old(self).dirty_cell_data,
            final(self).cursor_shape == old(self).cursor_shape,
    {
        if let Some(pos) = self.cursor_position {
            let idx = flat_idx(pos.x, pos.y, w);
            if idx < self.buffer.len() {
                style_cell_at(&mut self.buffer, idx, self.cursor_shape, false);
            }
        }
        self.cursor_position = None;
    }

    /// Fills the grid with empty cells.
    pub fn clear(&mut self)
        ensures
            flat_view(final(self).buffer@) == Seq::new(old(self).buffer@.len(), |i: int| webgl_default_cell()),
            final(self).dirty_cell_data == old(self).dirty_cell_data,
            final(self).cursor_position == old(self).cursor_position,
            final(self).cursor_shape == old(self).cursor_shape,
    {
        let n = self.buffer.len();
        let mut i: usize = 0;
        while i < n
            invariant
                n == self.buffer@.len(),
                i <= n,
                self.dirty_cell_data == old(self).dirty_cell_data,
                self.cursor_position == old(self).cursor_position,
                self.cursor_shape == old(self).cursor_shape,
                forall|k: int| 0 <= k < i ==> (#[trigger] self.buffer@[k])@ == webgl_default_cell(),
            decreases n - i,
        {
            self.buffer.set(i, default_cell());
            i = i + 1;
        }
        assert(flat_view(self.buffer@) =~= Seq::new(n as nat, |i: int| webgl_default_cell()));
    }

    /// The cursor position, the top-left cell when there is none.
    pub fn get_cursor_position(&self) -> (r: Position)
        ensures
            r == (match self.cursor_position {
                Some(p) => p,
                None => Position { x: 0, y: 0 },
            }),
    {
        match self.cursor_position {
            None => Position { x: 0, y: 0 },
            Some(p) => p,
        }
    }

    /// Moves the cursor in a grid `w` columns wide: nothing changes when it
    /// stays; otherwise it is taken off its old cell, when that cell exists.
    pub fn set_cursor_position(&mut self, new_pos: Position, w: u16)
        ensures
            old(self).cursor_position == Some(new_pos) ==> *final(self) == *old(self),
            old(self).cursor_position != Some(new_pos) ==> {
                &&& flat_view(final(self).buffer@) == match old(self).cursor_position {
                    Some(p) => flat_without_cursor(flat_view(old(self).buffer@), p, w, old(self).cursor_shape),
                    None => flat_view(old(self).buffer@),
                }
                &&& final(self).cursor_position == Some(new_pos)
                &&& final(self).dirty_cell_data == old(self).dirty_cell_data
                &&& final(self).cursor_shape == old(self).cursor_shape
            },
    {
        if let Some(old_pos) = self.cursor_position {
            if old_pos == new_pos {
                return;
            }
            let idx = flat_idx(old_pos.x, old_pos.y, w);
            if idx < self.buffer.len() {
                style_cell_at(&mut self.buffer, idx, self.cursor_shape, false);
            }
        }
        self.cursor_position = Some(new_pos);
    }
}

} // verus!
