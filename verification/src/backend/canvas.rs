//! Canvas renderer logic: batching of background regions and the ordered
//! list of drawing operations for a set of changed cells.

use vstd::prelude::*;
use crate::style::{
    blank_row, default_cell_view, default_row, grid_put, grid_view, put_cell, row_view, Cell, CellView, Color,
    Modifier, Position, Rect, Size, BOLD, CROSSED_OUT, ITALIC, REVERSED, UNDERLINED,
};
use crate::backend::color::{actual_bg_color, actual_fg_color, bg_paint, fg_paint, rgb_value, to_rgb};
use crate::backend::cursor::{cursor_bits, CursorShape};

verus! {

/// One pending background region and its color.
pub type Region = (Rect, Color);

/// The optimizer's step on one cell: the new pending region and the region
/// that is finished, if any.
pub open spec fn optimizer_step(pending: Option<Region>, pos: (u16, u16), color: Color) -> (Option<Region>, Option<Region>) {
    match pending {
        Some((r, c)) => {
            if c == color && pos.0 == rect_right(r) && pos.1 == r.y {
                (Some((Rect { width: (r.width + 1) as u16, ..r }, c)), None)
            } else {
                (Some((new_rect(pos.0, pos.1, 1, 1), color)), Some((r, c)))
            }
        },
        None => (Some((new_rect(pos.0, pos.1, 1, 1), color)), None),
    }
}

/// The rectangle that `Rect::new` builds.
pub open spec fn new_rect(x: u16, y: u16, width: u16, height: u16) -> Rect {
    Rect {
        x,
        y,
        width: if width > u16::MAX - x { (u16::MAX - x) as u16 } else { width },
        height: if height > u16::MAX - y { (u16::MAX - y) as u16 } else { height },
    }
}

/// The first column after a rectangle, at most `u16::MAX`.
pub open spec fn rect_right(r: Rect) -> int {
    if r.x + r.width > u16::MAX { u16::MAX as int } else { r.x + r.width }
}

/// Whether extending the pending region by the cell would overflow its width.
pub open spec fn step_overflows(pending: Option<Region>, pos: (u16, u16), color: Color) -> bool {
    match pending {
        Some((r, c)) => c == color && pos.0 == rect_right(r) && pos.1 == r.y && r.width == u16::MAX,
        None => false,
    }
}

/// Batches horizontally adjacent cells of one color into a single rectangle.
pub struct RowColorOptimizer {
    pub pending_region: Option<Region>,
}

impl RowColorOptimizer {
    /// An optimizer with no pending region.
    pub fn new() -> (r: Self)
        ensures
            r.pending_region is None,
    {
        RowColorOptimizer { pending_region: None }
    }

    /// Takes the next cell: extends the pending region when the cell continues
    /// it in the same color, else returns the pending region and starts a new
    /// one with the cell.
    pub fn process_color(&mut self, pos: (u16, u16), color: Color) -> (r: Option<Region>)
        requires
            !step_overflows(old(self).pending_region, pos, color),
        ensures
            (final(self).pending_region, r) == optimizer_step(old(self).pending_region, pos, color),
    {
        match self.pending_region {
            Some((active_rect, active_color)) => {
                if active_color == color && pos.0 == active_rect.right() && pos.1 == active_rect.y {
                    self.pending_region = Some((Rect { width: active_rect.width + 1, ..active_rect }, active_color));
                    None
                } else {
                    self.pending_region = Some((Rect::new(pos.0, pos.1, 1, 1), color));
                    Some((active_rect, active_color))
                }
            },
            None => {
                self.pending_region = Some((Rect::new(pos.0, pos.1, 1, 1), color));
                None
            },
        }
    }

    /// Returns the pending region, if any, and leaves none.
    pub fn flush(&mut self) -> (r: Option<Region>)
        ensures
            r == old(self).pending_region,
            final(self).pending_region is None,
    {
        self.pending_region.take()
    }
}

/// A cell position with the color it is to be painted.
pub type ColoredCell = ((u16, u16), Color);

/// The pending region and the finished regions after the optimizer has taken
/// `cells` in order, starting from `pending`.
pub open spec fn feed(pending: Option<Region>, cells: Seq<ColoredCell>) -> (Option<Region>, Seq<Region>)
    decreases cells.len(),
{
    if cells.len() == 0 {
        (pending, seq![])
    } else {
        let (p, outs) = feed(pending, cells.drop_last());
        let (p2, o) = optimizer_step(p, cells.last().0, cells.last().1);
        (p2, match o { Some(r) => outs.push(r), None => outs })
    }
}

/// Every region a fresh optimizer hands out for `cells`, the final flush included.
pub open spec fn batched_regions(cells: Seq<ColoredCell>) -> Seq<Region> {
    let (p, outs) = feed(None, cells);
    match p {
        Some(r) => outs.push(r),
        None => outs,
    }
}

/// The cells a one-row region covers, left to right, with its color.
pub open spec fn region_cells(r: Region) -> Seq<ColoredCell> {
    Seq::new(r.0.width as nat, |i: int| (((r.0.x + i) as u16, r.0.y), r.1))
}

/// The cells covered by a sequence of regions, in order.
pub open spec fn regions_cells(rs: Seq<Region>) -> Seq<ColoredCell>
    decreases rs.len(),
{
    if rs.len() == 0 {
        seq![]
    } else {
        regions_cells(rs.drop_last()) + region_cells(rs.last())
    }
}

/// Whether no cell lies on the last row or column of the coordinate range.
pub open spec fn cells_inside(cells: Seq<ColoredCell>) -> bool {
    forall|i: int| 0 <= i < cells.len() ==> (#[trigger] cells[i]).0.0 < u16::MAX && cells[i].0.1 < u16::MAX
}

proof fn lemma_feed_tiles(cells: Seq<ColoredCell>)
    requires
        cells_inside(cells),
    ensures
        ({
            let (p, outs) = feed(None, cells);
            &&& cells.len() == 0 ==> p is None && outs.len() == 0
            &&& cells.len() > 0 ==> {
                &&& p is Some
                &&& p.unwrap().0.width >= 1
                &&& p.unwrap().0.height == 1
                &&& p.unwrap().0.x + p.unwrap().0.width <= u16::MAX
                &&& regions_cells(outs) + region_cells(p->0) == cells
            }
            &&& forall|k: int| 0 <= k < outs.len() ==> (#[trigger] outs[k]).0.height == 1 && outs[k].0.width >= 1
        }),
    decreases cells.len(),
{
    if cells.len() > 0 {
        let prefix = cells.drop_last();
        assert(cells_inside(prefix)) by {
            assert forall|i: int| 0 <= i < prefix.len() implies (#[trigger] prefix[i]).0.0 < u16::MAX && prefix[i].0.1 < u16::MAX by {
                assert(prefix[i] == cells[i]);
            }
        }
        lemma_feed_tiles(prefix);
        let (p, outs) = feed(None, prefix);
        let e = cells.last();
        assert(e == cells[cells.len() - 1]);
        let (p2, o) = optimizer_step(p, e.0, e.1);
        if prefix.len() == 0 {
            assert(region_cells(p2->0) =~= seq![e]);
            assert(cells =~= seq![e]);
            assert(regions_cells(outs) =~= seq![]);
        } else {
            let (r, c) = p->0;
            let rc = region_cells((r, c));
            assert(rc.len() == r.width);
            let last = rc[r.width - 1];
            assert(regions_cells(outs) + rc == prefix);
            assert(last == prefix[prefix.len() - 1]) by {
                assert((regions_cells(outs) + rc)[prefix.len() - 1] == rc[rc.len() - 1]);
            }
            assert(r.x + r.width <= u16::MAX);
            if c == e.1 && e.0.0 == rect_right(r) && e.0.1 == r.y {
                let r2 = Rect { width: (r.width + 1) as u16, ..r };
                assert(region_cells((r2, c)) =~= rc.push(e));
                assert(regions_cells(outs) + rc.push(e) =~= (regions_cells(outs) + rc).push(e));
                assert(prefix.push(e) =~= cells);
            } else {
                let outs2 = outs.push((r, c));
                assert(outs2.drop_last() =~= outs);
                assert(regions_cells(outs2) == regions_cells(outs) + rc);
                assert(region_cells(p2->0) =~= seq![e]);
                assert(regions_cells(outs2) + seq![e] =~= prefix.push(e));
                assert(prefix.push(e) =~= cells);
                assert forall|k: int| 0 <= k < outs2.len() implies (#[trigger] outs2[k]).0.height == 1 && outs2[k].0.width >= 1 by {
                    if k < outs.len() {
                        assert(outs2[k] == outs[k]);
                    }
                }
            }
        }
    }
}

/// Whether the `i`-th cell cannot join the region of the cell before it: its
/// color differs, or it is not the next column of the same row.
pub open spec fn opens_region(cells: Seq<ColoredCell>, i: int) -> bool {
    ||| cells[i].1 != cells[i - 1].1
    ||| cells[i].0.0 != cells[i - 1].0.0 + 1
    ||| cells[i].0.1 != cells[i - 1].0.1
}

/// When the optimizer hands a region out: fed the cells in order, the `i`-th
/// call returns the pending region exactly when the cell opens a new region
/// (and never for the first cell); the new pending region is then that one
/// cell alone, and otherwise the pending region grows by that cell; this
/// whenever no cell lies on the last row or column of the coordinate range.
pub proof fn lemma_region_opens(cells: Seq<ColoredCell>, i: int)
    requires
        cells_inside(cells),
        0 <= i < cells.len(),
    ensures
        ({
            let p = feed(None, cells.take(i)).0;
            let (p2, out) = optimizer_step(p, cells[i].0, cells[i].1);
            &&& (out is Some <==> i > 0 && opens_region(cells, i))
            &&& out is Some ==> out == p
            &&& (i == 0 || opens_region(cells, i)) ==> p2 == Some(
                (new_rect(cells[i].0.0, cells[i].0.1, 1, 1), cells[i].1),
            )
            &&& !(i == 0 || opens_region(cells, i)) ==> {
                &&& p is Some
                &&& p2 == Some((Rect { width: (p.unwrap().0.width + 1) as u16, ..p.unwrap().0 }, p.unwrap().1))
            }
        }),
{
    let prefix = cells.take(i);
    assert(cells_inside(prefix)) by {
        assert forall|k: int| 0 <= k < prefix.len() implies (#[trigger] prefix[k]).0.0 < u16::MAX && prefix[k].0.1 < u16::MAX by {
            assert(prefix[k] == cells[k]);
        }
    }
    lemma_feed_tiles(prefix);
    let (p, outs) = feed(None, prefix);
    if i > 0 {
        let (r, c) = p->0;
        let rc = region_cells((r, c));
        assert(regions_cells(outs) + rc == prefix);
        assert(rc[r.width - 1] == prefix[i - 1]) by {
            assert((regions_cells(outs) + rc)[prefix.len() - 1] == rc[rc.len() - 1]);
        }
        assert(prefix[i - 1] == cells[i - 1]);
        assert(rect_right(r) == r.x + r.width);
        assert(cells[i - 1].0.0 == r.x + r.width - 1);
    }
}

/// Batching loses and adds no cell: the regions a fresh optimizer hands out
/// for a sequence of cells, its final flush included, are one cell high and
/// together cover exactly those cells, in order and each in its own color,
/// whenever no cell lies on the last row or column of the coordinate range.
pub proof fn lemma_batched_regions_tile_cells(cells: Seq<ColoredCell>)
    requires
        cells_inside(cells),
    ensures
        regions_cells(batched_regions(cells)) == cells,
        forall|k: int| 0 <= k < batched_regions(cells).len() ==>
            (#[trigger] batched_regions(cells)[k]).0.height == 1 && batched_regions(cells)[k].0.width >= 1,
{
    lemma_feed_tiles(cells);
    let (p, outs) = feed(None, cells);
    if cells.len() > 0 {
        let rs = outs.push(p->0);
        assert(rs.drop_last() =~= outs);
        assert(regions_cells(rs) == regions_cells(outs) + region_cells(p->0));
        assert forall|k: int| 0 <= k < rs.len() implies (#[trigger] rs[k]).0.height == 1 && rs[k].0.width >= 1 by {
            if k < outs.len() {
                assert(rs[k] == outs[k]);
            }
        }
    }
}

/// A drawing operation on the canvas, in the order the canvas is to run them.
#[derive(Debug)]
pub enum CanvasOp {
    /// Clears the whole canvas.
    ClearRect,
    /// Saves the drawing state.
    Save,
    /// Restores the drawing state; the font goes back to regular.
    Restore,
    /// Starts a new path.
    BeginPath,
    /// Clips to the current path.
    Clip,
    /// Switches the font to bold.
    Bold,
    /// Switches the font to italic.
    Italic,
    /// Switches the font to bold italic.
    BoldItalic,
    /// Switches bold off.
    Unbold,
    /// Switches italic off.
    Unitalic,
    /// Switches bold and italic off.
    UnboldItalic,
    /// Adds a rectangle (x, y, width, height) to the path.
    Rect(u16, u16, u16, u16),
    /// Fills the current path.
    Fill,
    /// Fills a rectangle (x, y, width, height).
    FillRect(u16, u16, u16, u16),
    /// Strokes a rectangle (x, y, width, height).
    StrokeRect(u16, u16, u16, u16),
    /// Writes text at (x, y).
    FillText(String, u16, u16),
    /// Sets the fill color to a packed RGB value.
    SetFillStyle(u32),
    /// Sets the stroke color to a CSS color.
    SetStrokeStyleStr(String),
}

/// The abstract value of a drawing operation: its text as characters.
pub enum OpView {
    ClearRect,
    Save,
    Restore,
    BeginPath,
    Clip,
    Bold,
    Italic,
    BoldItalic,
    Unbold,
    Unitalic,
    UnboldItalic,
    Rect(u16, u16, u16, u16),
    Fill,
    FillRect(u16, u16, u16, u16),
    StrokeRect(u16, u16, u16, u16),
    FillText(Seq<char>, u16, u16),
    SetFillStyle(u32),
    SetStrokeStyleStr(Seq<char>),
}

impl View for CanvasOp {
    type V = OpView;

    open spec fn view(&self) -> OpView {
        match self {
            CanvasOp::ClearRect => OpView::ClearRect,
            CanvasOp::Save => OpView::Save,
            CanvasOp::Restore => OpView::Restore,
            CanvasOp::BeginPath => OpView::BeginPath,
            CanvasOp::Clip => OpView::Clip,
            CanvasOp::Bold => OpView::Bold,
            CanvasOp::Italic => OpView::Italic,
            CanvasOp::BoldItalic => OpView::BoldItalic,
            CanvasOp::Unbold => OpView::Unbold,
            CanvasOp::Unitalic => OpView::Unitalic,
            CanvasOp::UnboldItalic => OpView::UnboldItalic,
            CanvasOp::Rect(a, b, c, d) => OpView::Rect(*a, *b, *c, *d),
            CanvasOp::Fill => OpView::Fill,
            CanvasOp::FillRect(a, b, c, d) => OpView::FillRect(*a, *b, *c, *d),
            CanvasOp::StrokeRect(a, b, c, d) => OpView::StrokeRect(*a, *b, *c, *d),
            CanvasOp::FillText(t, a, b) => OpView::FillText(t@, *a, *b),
            CanvasOp::SetFillStyle(v) => OpView::SetFillStyle(*v),
            CanvasOp::SetStrokeStyleStr(t) => OpView::SetStrokeStyleStr(t@),
        }
    }
}

/// The views of a list of operations.
pub open spec fn ops_view(ops: Seq<CanvasOp>) -> Seq<OpView> {
    ops.map_values(|o: CanvasOp| o@)
}

/// Pixel measurements of one cell of the canvas font.
#[derive(Debug, Clone, Copy, PartialEq, Eq, Structural)]
pub struct CellMetrics {
    /// Width of a cell.
    pub cell_width: u16,
    /// Height of a cell.
    pub cell_height: u16,
    /// Distance from the bottom of the cell to the text baseline.
    pub cell_baseline: u16,
    /// Distance from the top of the cell to the underline.
    pub underline_pos: u16,
}

/// What drawing depends on besides the cells: the metrics, whether each cell
/// is clipped to its own rectangle, and the canvas background color.
#[derive(Debug, Clone, Copy, PartialEq, Eq, Structural)]
pub struct DrawSettings {
    pub metrics: CellMetrics,
    pub always_clip_cells: bool,
    pub background_color: Color,
}

/// A changed cell as drawn: column, row, cell and the modifiers it is drawn with.
pub type Entry = (u16, u16, CellView, u16);

/// The pixel column of a cell column.
pub open spec fn px(x: u16, s: DrawSettings) -> u16 {
    (x * s.metrics.cell_width) as u16
}

/// The pixel row of a cell row.
pub open spec fn py(y: u16, s: DrawSettings) -> u16 {
    (y * s.metrics.cell_height) as u16
}

/// Whether the pixel values computed to draw a cell fit in 16 bits: the
/// clip rectangle's corner when every cell is clipped; the underline and
/// strike-through rectangles when the drawn modifiers hold them; the text
/// position, above the baseline, when the symbol is not a space.
pub open spec fn cell_fits(e: Entry, s: DrawSettings) -> bool {
    let (x, y, c, m) = e;
    let cw = s.metrics.cell_width;
    let ch = s.metrics.cell_height;
    &&& s.always_clip_cells ==> x * cw <= u16::MAX && y * ch <= u16::MAX
    &&& m & UNDERLINED != 0 ==> x * cw <= u16::MAX && y * ch + s.metrics.underline_pos <= u16::MAX
    &&& m & CROSSED_OUT != 0 ==> x * cw <= u16::MAX && y * ch + ch / 2 <= u16::MAX
    &&& c.symbol != seq![' '] ==> x * cw <= u16::MAX && y * ch + ch <= u16::MAX && s.metrics.cell_baseline
        <= y * ch + ch
}

/// The font switches for the bold and italic bits of `changed`: switched on
/// when `on`, off otherwise.
pub open spec fn font_ops(changed: u16, on: bool) -> Seq<OpView> {
    let bi = changed & (BOLD | ITALIC);
    if bi == BOLD {
        seq![if on { OpView::Bold } else { OpView::Unbold }]
    } else if bi == ITALIC {
        seq![if on { OpView::Italic } else { OpView::Unitalic }]
    } else if bi == 0 {
        seq![]
    } else {
        seq![if on { OpView::BoldItalic } else { OpView::UnboldItalic }]
    }
}

/// The operations that clip drawing to the cell at (`x`, `y`).
pub open spec fn clip_ops(x: u16, y: u16, s: DrawSettings) -> Seq<OpView> {
    seq![
        OpView::Restore,
        OpView::Save,
        OpView::BeginPath,
        OpView::Rect(px(x, s), py(y, s), s.metrics.cell_width, s.metrics.cell_height),
        OpView::Clip,
    ]
}

/// The underline and strike-through lines of a cell drawn with modifiers `m`.
pub open spec fn decoration_ops(x: u16, y: u16, m: u16, s: DrawSettings) -> Seq<OpView> {
    let underline = if m & UNDERLINED != 0 {
        seq![OpView::FillRect(px(x, s), (py(y, s) + s.metrics.underline_pos) as u16, s.metrics.cell_width, 1)]
    } else {
        seq![]
    };
    let crossed = if m & CROSSED_OUT != 0 {
        seq![OpView::FillRect(px(x, s), (py(y, s) + s.metrics.cell_height / 2) as u16, s.metrics.cell_width, 1)]
    } else {
        seq![]
    };
    underline + crossed
}

/// The text of a cell, unless it is a single space.
pub open spec fn text_ops(x: u16, y: u16, c: CellView, s: DrawSettings) -> Seq<OpView> {
    if c.symbol != seq![' '] {
        seq![OpView::FillText(c.symbol, px(x, s), (py(y, s) + s.metrics.cell_height - s.metrics.cell_baseline) as u16)]
    } else {
        seq![]
    }
}

/// The operations that draw the text and decorations of one cell, given the
/// fill color and modifiers in effect before it, and the color and modifiers
/// in effect after it.
pub open spec fn cell_ops(e: Entry, last_color: Option<Color>, last_mod: u16, s: DrawSettings) -> (Seq<OpView>, Option<Color>, u16) {
    let (x, y, c, m) = e;
    let color = fg_paint(c, m, Color::White, s.background_color);
    let clip = if s.always_clip_cells { clip_ops(x, y, s) } else { seq![] };
    let lc = if s.always_clip_cells { None } else { last_color };
    let lm = if s.always_clip_cells { 0u16 } else { last_mod };
    let fill = if lc != Some(color) { seq![OpView::SetFillStyle(rgb_value(color, 0xFFFFFF))] } else { seq![] };
    (
        clip + fill + decoration_ops(x, y, m, s) + font_ops(lm & !m, false) + font_ops(m & !lm, true) + text_ops(x, y, c, s),
        Some(color),
        m,
    )
}

/// The operations for a run of cells, and the fill color and modifiers in effect after them.
pub open spec fn cells_ops(es: Seq<Entry>, s: DrawSettings) -> (Seq<OpView>, Option<Color>, u16)
    decreases es.len(),
{
    if es.len() == 0 {
        (seq![], None, 0u16)
    } else {
        let (o, lc, lm) = cells_ops(es.drop_last(), s);
        let (o2, lc2, lm2) = cell_ops(es.last(), lc, lm, s);
        (o + o2, lc2, lm2)
    }
}

/// The operations that paint a background region and then the cells within it.
pub open spec fn region_ops(r: Rect, color: Color, es: Seq<Entry>, s: DrawSettings) -> Seq<OpView> {
    seq![
        OpView::Save,
        OpView::SetFillStyle(rgb_value(color, 0)),
        OpView::BeginPath,
        OpView::Rect(px(r.x, s), py(r.y, s), (r.width * s.metrics.cell_width) as u16, (r.height * s.metrics.cell_height) as u16),
        OpView::Clip,
        OpView::Fill,
    ] + cells_ops(es, s).0 + seq![OpView::Restore]
}

/// The operations emitted so far, the pending region and the cells waiting
/// for it, after the changed cells `es`.
pub open spec fn plan_state(es: Seq<Entry>, s: DrawSettings) -> (Seq<OpView>, Option<Region>, Seq<Entry>)
    decreases es.len(),
{
    if es.len() == 0 {
        (seq![], None, seq![])
    } else {
        let (ops, pending, waiting) = plan_state(es.drop_last(), s);
        let e = es.last();
        let (pending2, out) = optimizer_step(pending, (e.0, e.1), bg_paint(e.2, e.3, Color::White, s.background_color));
        match out {
            Some((r, c)) => (ops + region_ops(r, c, waiting, s), pending2, seq![e]),
            None => (ops, pending2, waiting.push(e)),
        }
    }
}

/// All operations that draw the changed cells `es`: each background region
/// once it is finished, followed by the cells within it, and the last region
/// at the end.
pub open spec fn draw_ops(es: Seq<Entry>, s: DrawSettings) -> Seq<OpView> {
    let (ops, pending, waiting) = plan_state(es, s);
    match pending {
        Some((r, c)) => ops + region_ops(r, c, waiting, s),
        None => ops,
    }
}

/// The modifiers a changed cell is drawn with: its own, plus the cursor's
/// when the cursor is on it, restricted to the enabled ones.
pub open spec fn drawn_modifiers(x: u16, y: u16, c: CellView, cursor: Option<Position>, shape: CursorShape, enabled: u16) -> u16 {
    let m = if cursor == Some(Position { x, y }) { c.modifier.bits | cursor_bits(shape) } else { c.modifier.bits };
    m & enabled
}

/// The view of a changed cell as drawn.
pub open spec fn entry_view(e: (u16, u16, Cell, Modifier)) -> Entry {
    (e.0, e.1, e.2@, e.3.bits)
}

/// The views of a list of changed cells.
pub open spec fn entries_view(es: Seq<(u16, u16, Cell, Modifier)>) -> Seq<Entry> {
    es.map_values(|e: (u16, u16, Cell, Modifier)| entry_view(e))
}

/// The number of operations in `ops` that satisfy `pred`.
pub open spec fn count_ops(ops: Seq<OpView>, pred: spec_fn(OpView) -> bool) -> nat
    decreases ops.len(),
{
    if ops.len() == 0 {
        0
    } else {
        count_ops(ops.drop_last(), pred) + if pred(ops.last()) { 1nat } else { 0nat }
    }
}

proof fn lemma_count_add(a: Seq<OpView>, b: Seq<OpView>, pred: spec_fn(OpView) -> bool)
    ensures
        count_ops(a + b, pred) == count_ops(a, pred) + count_ops(b, pred),
    decreases b.len(),
{
    if b.len() == 0 {
        assert(a + b =~= a);
    } else {
        lemma_count_add(a, b.drop_last(), pred);
        assert((a + b).drop_last() =~= a + b.drop_last());
        assert((a + b).last() == b.last());
    }
}

proof fn lemma_count_none(a: Seq<OpView>, pred: spec_fn(OpView) -> bool)
    requires
        forall|i: int| 0 <= i < a.len() ==> !pred(#[trigger] a[i]),
    ensures
        count_ops(a, pred) == 0,
    decreases a.len(),
{
    if a.len() > 0 {
        lemma_count_none(a.drop_last(), pred);
        assert(a.last() == a[a.len() - 1]);
    }
}

proof fn lemma_count_one(o: OpView, pred: spec_fn(OpView) -> bool)
    ensures
        count_ops(seq![o], pred) == if pred(o) { 1nat } else { 0nat },
{
    let one = seq![o];
    assert(one.drop_last() =~= Seq::<OpView>::empty());
    assert(one.last() == o);
    assert(count_ops(Seq::<OpView>::empty(), pred) == 0);
    assert(count_ops(one, pred) == count_ops(one.drop_last(), pred) + if pred(o) { 1nat } else { 0nat });
}

/// The operations that write text.
pub open spec fn text_pred() -> spec_fn(OpView) -> bool {
    |o: OpView| o is FillText
}

/// The operations that fill a rectangle: underlines and strike-through lines.
pub open spec fn rect_pred() -> spec_fn(OpView) -> bool {
    |o: OpView| o is FillRect
}

/// The modifier bits a font switch turns on.
pub open spec fn on_bits(o: OpView) -> u16 {
    match o {
        OpView::Bold => BOLD,
        OpView::Italic => ITALIC,
        OpView::BoldItalic => BOLD | ITALIC,
        _ => 0,
    }
}

/// The modifier bits a font switch turns off.
pub open spec fn off_bits(o: OpView) -> u16 {
    match o {
        OpView::Unbold => BOLD,
        OpView::Unitalic => ITALIC,
        OpView::UnboldItalic => BOLD | ITALIC,
        _ => 0,
    }
}

/// Whether every font switch in `ops` turns on only modifiers in `m` and
/// turns off only modifiers outside `m`.
pub open spec fn switches_follow(ops: Seq<OpView>, m: u16) -> bool {
    forall|i: int| 0 <= i < ops.len() ==> m & on_bits(#[trigger] ops[i]) == on_bits(ops[i]) && m & off_bits(ops[i]) == 0
}

proof fn lemma_switches_add(a: Seq<OpView>, b: Seq<OpView>, m: u16)
    requires
        switches_follow(a, m),
        switches_follow(b, m),
    ensures
        switches_follow(a + b, m),
{
    assert forall|i: int| 0 <= i < (a + b).len() implies m & on_bits(#[trigger] (a + b)[i]) == on_bits((a + b)[i])
        && m & off_bits((a + b)[i]) == 0 by {
        if i < a.len() {
            assert((a + b)[i] == a[i]);
        } else {
            assert((a + b)[i] == b[i - a.len()]);
        }
    }
}

proof fn lemma_no_switches(a: Seq<OpView>, m: u16)
    requires
        forall|i: int| 0 <= i < a.len() ==> on_bits(#[trigger] a[i]) == 0 && off_bits(a[i]) == 0,
    ensures
        switches_follow(a, m),
{
    assert(m & 0u16 == 0u16) by (bit_vector);
}

proof fn lemma_font_switches(changed: u16, m: u16, on: bool)
    requires
        on ==> changed & !m == 0,
        !on ==> changed & m == 0,
    ensures
        switches_follow(font_ops(changed, on), m),
{
    let bi = changed & (BOLD | ITALIC);
    assert(on && bi == BOLD ==> m & BOLD == BOLD) by (bit_vector)
        requires
            on ==> changed & !m == 0,
            bi == changed & (0x001u16 | 0x004u16),
    ;
    assert(on && bi == ITALIC ==> m & ITALIC == ITALIC) by (bit_vector)
        requires
            on ==> changed & !m == 0,
            bi == changed & (0x001u16 | 0x004u16),
    ;
    assert(on && bi != BOLD && bi != ITALIC && bi != 0 ==> m & (BOLD | ITALIC) == (BOLD | ITALIC)) by (bit_vector)
        requires
            on ==> changed & !m == 0,
            bi == changed & (0x001u16 | 0x004u16),
    ;
    assert(!on && bi == BOLD ==> m & BOLD == 0) by (bit_vector)
        requires
            !on ==> changed & m == 0,
            bi == changed & (0x001u16 | 0x004u16),
    ;
    assert(!on && bi == ITALIC ==> m & ITALIC == 0) by (bit_vector)
        requires
            !on ==> changed & m == 0,
            bi == changed & (0x001u16 | 0x004u16),
    ;
    assert(!on && bi != BOLD && bi != ITALIC && bi != 0 ==> m & (BOLD | ITALIC) == 0) by (bit_vector)
        requires
            !on ==> changed & m == 0,
            bi == changed & (0x001u16 | 0x004u16),
    ;
    assert(m & 0u16 == 0u16) by (bit_vector);
}

/// What drawing one cell does: it writes its text once when its symbol is
/// not a space and never otherwise, as the last operation; it fills one
/// underline rectangle when the drawn modifiers hold `UNDERLINED` and one
/// strike-through rectangle when they hold `CROSSED_OUT`, and no other
/// rectangle; and every font switch turns on only drawn modifiers and turns
/// off only modifiers that are not drawn.
pub proof fn lemma_cell_ops_facts(e: Entry, last_color: Option<Color>, last_mod: u16, s: DrawSettings)
    ensures
        ({
            let (x, y, c, m) = e;
            let ops = cell_ops(e, last_color, last_mod, s).0;
            &&& count_ops(ops, text_pred()) == if c.symbol != seq![' '] { 1nat } else { 0nat }
            &&& c.symbol != seq![' '] ==> ops.last() == OpView::FillText(
                c.symbol,
                px(x, s),
                (py(y, s) + s.metrics.cell_height - s.metrics.cell_baseline) as u16,
            )
            &&& count_ops(ops, rect_pred()) == (if m & UNDERLINED != 0 { 1nat } else { 0nat }) + (
            if m & CROSSED_OUT != 0 { 1nat } else { 0nat })
            &&& m & UNDERLINED != 0 ==> ops.contains(
                OpView::FillRect(px(x, s), (py(y, s) + s.metrics.underline_pos) as u16, s.metrics.cell_width, 1),
            )
            &&& m & CROSSED_OUT != 0 ==> ops.contains(
                OpView::FillRect(px(x, s), (py(y, s) + s.metrics.cell_height / 2) as u16, s.metrics.cell_width, 1),
            )
            &&& switches_follow(ops, m)
        }),
{
    let (x, y, c, m) = e;
    let color = fg_paint(c, m, Color::White, s.background_color);
    let clip = if s.always_clip_cells { clip_ops(x, y, s) } else { seq![] };
    let lc = if s.always_clip_cells { None } else { last_color };
    let lm = if s.always_clip_cells { 0u16 } else { last_mod };
    let fill = if lc != Some(color) { seq![OpView::SetFillStyle(rgb_value(color, 0xFFFFFF))] } else { seq![] };
    let deco = decoration_ops(x, y, m, s);
    let off = font_ops(lm & !m, false);
    let on = font_ops(m & !lm, true);
    let text = text_ops(x, y, c, s);
    let ops = cell_ops(e, last_color, last_mod, s).0;
    assert(ops == clip + fill + deco + off + on + text);
    let is_text = text_pred();
    let is_rect = rect_pred();
    let underline = if m & UNDERLINED != 0 {
        seq![OpView::FillRect(px(x, s), (py(y, s) + s.metrics.underline_pos) as u16, s.metrics.cell_width, 1)]
    } else {
        seq![]
    };
    let crossed = if m & CROSSED_OUT != 0 {
        seq![OpView::FillRect(px(x, s), (py(y, s) + s.metrics.cell_height / 2) as u16, s.metrics.cell_width, 1)]
    } else {
        seq![]
    };
    assert(deco == underline + crossed);
    // pieces without text or rectangles
    lemma_count_none(clip, is_text);
    lemma_count_none(clip, is_rect);
    lemma_count_none(fill, is_text);
    lemma_count_none(fill, is_rect);
    lemma_count_none(deco, is_text);
    lemma_count_none(off, is_text);
    lemma_count_none(off, is_rect);
    lemma_count_none(on, is_text);
    lemma_count_none(on, is_rect);
    lemma_count_none(text, is_rect);
    if c.symbol != seq![' '] {
        lemma_count_one(text[0], is_text);
        assert(text =~= seq![text[0]]);
    } else {
        lemma_count_none(text, is_text);
    }
    if m & UNDERLINED != 0 {
        lemma_count_one(underline[0], is_rect);
        assert(underline =~= seq![underline[0]]);
    } else {
        lemma_count_none(underline, is_rect);
    }
    if m & CROSSED_OUT != 0 {
        lemma_count_one(crossed[0], is_rect);
        assert(crossed =~= seq![crossed[0]]);
    } else {
        lemma_count_none(crossed, is_rect);
    }
    lemma_count_add(underline, crossed, is_rect);
    lemma_count_add(clip, fill, is_text);
    lemma_count_add(clip + fill, deco, is_text);
    lemma_count_add(clip + fill + deco, off, is_text);
    lemma_count_add(clip + fill + deco + off, on, is_text);
    lemma_count_add(clip + fill + deco + off + on, text, is_text);
    lemma_count_add(clip, fill, is_rect);
    lemma_count_add(clip + fill, deco, is_rect);
    lemma_count_add(clip + fill + deco, off, is_rect);
    lemma_count_add(clip + fill + deco + off, on, is_rect);
    lemma_count_add(clip + fill + deco + off + on, text, is_rect);
    let pre = clip + fill;
    if m & UNDERLINED != 0 {
        assert(ops[pre.len() as int] == underline[0]);
    }
    if m & CROSSED_OUT != 0 {
        assert(ops[(pre.len() + underline.len()) as int] == crossed[0]);
    }
    // font switches
    lemma_no_switches(clip, m);
    lemma_no_switches(fill, m);
    lemma_no_switches(deco, m);
    lemma_no_switches(text, m);
    assert((lm & !m) & m == 0u16 && (m & !lm) & !m == 0u16) by (bit_vector);
    lemma_font_switches(lm & !m, m, false);
    lemma_font_switches(m & !lm, m, true);
    lemma_switches_add(clip, fill, m);
    lemma_switches_add(clip + fill, deco, m);
    lemma_switches_add(clip + fill + deco, off, m);
    lemma_switches_add(clip + fill + deco + off, on, m);
    lemma_switches_add(clip + fill + deco + off + on, text, m);
}

/// The number of drawn cells whose symbol is not a space.
pub open spec fn text_cells(es: Seq<Entry>) -> nat
    decreases es.len(),
{
    if es.len() == 0 {
        0
    } else {
        text_cells(es.drop_last()) + if es.last().2.symbol != seq![' '] { 1nat } else { 0nat }
    }
}

/// The number of underline and strike-through lines the drawn cells carry.
pub open spec fn line_count(es: Seq<Entry>) -> nat
    decreases es.len(),
{
    if es.len() == 0 {
        0
    } else {
        let m = es.last().3;
        line_count(es.drop_last()) + (if m & UNDERLINED != 0 { 1nat } else { 0nat }) + (if m & CROSSED_OUT
            != 0 { 1nat } else { 0nat })
    }
}

proof fn lemma_cells_ops_counts(es: Seq<Entry>, s: DrawSettings)
    ensures
        count_ops(cells_ops(es, s).0, text_pred()) == text_cells(es),
        count_ops(cells_ops(es, s).0, rect_pred()) == line_count(es),
    decreases es.len(),
{
    if es.len() == 0 {
        assert(cells_ops(es, s).0 =~= Seq::<OpView>::empty());
    } else {
        let prev = es.drop_last();
        lemma_cells_ops_counts(prev, s);
        let (o, lc, lm) = cells_ops(prev, s);
        lemma_cell_ops_facts(es.last(), lc, lm, s);
        let o2 = cell_ops(es.last(), lc, lm, s).0;
        lemma_count_add(o, o2, text_pred());
        lemma_count_add(o, o2, rect_pred());
    }
}

proof fn lemma_region_ops_counts(r: Rect, color: Color, es: Seq<Entry>, s: DrawSettings)
    ensures
        count_ops(region_ops(r, color, es, s), text_pred()) == text_cells(es),
        count_ops(region_ops(r, color, es, s), rect_pred()) == line_count(es),
{
    let head = seq![
        OpView::Save,
        OpView::SetFillStyle(rgb_value(color, 0)),
        OpView::BeginPath,
        OpView::Rect(px(r.x, s), py(r.y, s), (r.width * s.metrics.cell_width) as u16, (r.height * s.metrics.cell_height) as u16),
        OpView::Clip,
        OpView::Fill,
    ];
    let body = cells_ops(es, s).0;
    let tail = seq![OpView::Restore];
    assert(region_ops(r, color, es, s) == head + body + tail);
    lemma_cells_ops_counts(es, s);
    lemma_count_none(head, text_pred());
    lemma_count_none(head, rect_pred());
    lemma_count_none(tail, text_pred());
    lemma_count_none(tail, rect_pred());
    lemma_count_add(head, body, text_pred());
    lemma_count_add(head + body, tail, text_pred());
    lemma_count_add(head, body, rect_pred());
    lemma_count_add(head + body, tail, rect_pred());
}

proof fn lemma_plan_state_counts(es: Seq<Entry>, s: DrawSettings)
    ensures
        ({
            let (ops, pending, waiting) = plan_state(es, s);
            &&& count_ops(ops, text_pred()) + text_cells(waiting) == text_cells(es)
            &&& count_ops(ops, rect_pred()) + line_count(waiting) == line_count(es)
            &&& es.len() == 0 ==> pending is None && waiting.len() == 0
            &&& es.len() > 0 ==> pending is Some
        }),
    decreases es.len(),
{
    if es.len() == 0 {
        assert(count_ops(Seq::<OpView>::empty(), text_pred()) == 0);
        assert(count_ops(Seq::<OpView>::empty(), rect_pred()) == 0);
    } else {
        let prev = es.drop_last();
        lemma_plan_state_counts(prev, s);
        let (ops, pending, waiting) = plan_state(prev, s);
        let e = es.last();
        let (pending2, out) = optimizer_step(pending, (e.0, e.1), bg_paint(e.2, e.3, Color::White, s.background_color));
        let one = seq![e];
        assert(one.drop_last() =~= Seq::<Entry>::empty());
        assert(one.last() == e);
        assert(text_cells(Seq::<Entry>::empty()) == 0);
        assert(line_count(Seq::<Entry>::empty()) == 0);
        assert(text_cells(one) == text_cells(one.drop_last()) + if e.2.symbol != seq![' '] { 1nat } else { 0nat });
        assert(line_count(one) == line_count(one.drop_last()) + (if e.3 & UNDERLINED != 0 { 1nat } else { 0nat })
            + (if e.3 & CROSSED_OUT != 0 { 1nat } else { 0nat }));
        assert(es.last() == e);
        assert(text_cells(es) == text_cells(prev) + if e.2.symbol != seq![' '] { 1nat } else { 0nat });
        assert(line_count(es) == line_count(prev) + (if e.3 & UNDERLINED != 0 { 1nat } else { 0nat })
            + (if e.3 & CROSSED_OUT != 0 { 1nat } else { 0nat }));
        match out {
            Some((r, c)) => {
                assert(plan_state(es, s) == (ops + region_ops(r, c, waiting, s), pending2, one));
                lemma_region_ops_counts(r, c, waiting, s);
                lemma_count_add(ops, region_ops(r, c, waiting, s), text_pred());
                lemma_count_add(ops, region_ops(r, c, waiting, s), rect_pred());
            },
            None => {
                assert(plan_state(es, s) == (ops, pending2, waiting.push(e)));
                let w2 = waiting.push(e);
                assert(w2.drop_last() =~= waiting);
                assert(w2.last() == e);
                assert(text_cells(w2) == text_cells(waiting) + if e.2.symbol != seq![' '] { 1nat } else { 0nat });
                assert(line_count(w2) == line_count(waiting) + (if e.3 & UNDERLINED != 0 { 1nat } else { 0nat })
                    + (if e.3 & CROSSED_OUT != 0 { 1nat } else { 0nat }));
            },
        }
    }
}

/// Drawing writes each changed cell's text once when its symbol is not a
/// space and never otherwise, and fills one rectangle for each underline and
/// each strike-through line the drawn modifiers hold, and no other.
pub proof fn lemma_draw_ops_counts(es: Seq<Entry>, s: DrawSettings)
    ensures
        count_ops(draw_ops(es, s), text_pred()) == text_cells(es),
        count_ops(draw_ops(es, s), rect_pred()) == line_count(es),
{
    lemma_plan_state_counts(es, s);
    let (ops, pending, waiting) = plan_state(es, s);
    match pending {
        Some((r, c)) => {
            lemma_region_ops_counts(r, c, waiting, s);
            lemma_count_add(ops, region_ops(r, c, waiting, s), text_pred());
            lemma_count_add(ops, region_ops(r, c, waiting, s), rect_pred());
        },
        None => {
            assert(text_cells(waiting) == 0);
            assert(line_count(waiting) == 0);
        },
    }
}

fn push_font_ops(ops: &mut Vec<CanvasOp>, changed: Modifier, on: bool)
    ensures
        ops_view(final(ops)@) == ops_view(old(ops)@) + font_ops(changed.bits, on),
{
    let bi = changed.bits & (BOLD | ITALIC);
    if bi == BOLD {
        ops.push(if on { CanvasOp::Bold } else { CanvasOp::Unbold });
    } else if bi == ITALIC {
        ops.push(if on { CanvasOp::Italic } else { CanvasOp::Unitalic });
    } else if bi == 0 {
    } else {
        ops.push(if on { CanvasOp::BoldItalic } else { CanvasOp::UnboldItalic });
    }
    assert(ops_view(ops@) =~= ops_view(old(ops)@) + font_ops(changed.bits, on));
}

fn push_clip_ops(ops: &mut Vec<CanvasOp>, x: u16, y: u16, s: DrawSettings)
    requires
        x * s.metrics.cell_width <= u16::MAX,
        y * s.metrics.cell_height <= u16::MAX,
    ensures
        ops_view(final(ops)@) == ops_view(old(ops)@) + clip_ops(x, y, s),
{
    ops.push(CanvasOp::Restore);
    ops.push(CanvasOp::Save);
    ops.push(CanvasOp::BeginPath);
    ops.push(CanvasOp::Rect(x * s.metrics.cell_width, y * s.metrics.cell_height, s.metrics.cell_width, s.metrics.cell_height));
    ops.push(CanvasOp::Clip);
    assert(ops_view(ops@) =~= ops_view(old(ops)@) + clip_ops(x, y, s));
}

fn push_decoration_ops(ops: &mut Vec<CanvasOp>, x: u16, y: u16, m: Modifier, s: DrawSettings)
    requires
        m.bits & UNDERLINED != 0 ==> x * s.metrics.cell_width <= u16::MAX && y * s.metrics.cell_height
            + s.metrics.underline_pos <= u16::MAX,
        m.bits & CROSSED_OUT != 0 ==> x * s.metrics.cell_width <= u16::MAX && y * s.metrics.cell_height
            + s.metrics.cell_height / 2 <= u16::MAX,
    ensures
        ops_view(final(ops)@) == ops_view(old(ops)@) + decoration_ops(x, y, m.bits, s),
{
    let ghost start = ops_view(ops@);
    if m.bits & UNDERLINED != 0 {
        ops.push(CanvasOp::FillRect(
            x * s.metrics.cell_width,
            y * s.metrics.cell_height + s.metrics.underline_pos,
            s.metrics.cell_width,
            1,
        ));
    }
    let ghost mid = ops_view(ops@);
    if m.bits & CROSSED_OUT != 0 {
        ops.push(CanvasOp::FillRect(
            x * s.metrics.cell_width,
            y * s.metrics.cell_height + s.metrics.cell_height / 2,
            s.metrics.cell_width,
            1,
        ));
    }
    assert(ops_view(ops@) =~= ops_view(old(ops)@) + decoration_ops(x, y, m.bits, s));
}

fn push_text_ops(ops: &mut Vec<CanvasOp>, x: u16, y: u16, cell: &Cell, s: DrawSettings)
    requires
        cell@.symbol != seq![' '] ==> x * s.metrics.cell_width <= u16::MAX && y * s.metrics.cell_height
            + s.metrics.cell_height <= u16::MAX && s.metrics.cell_baseline <= y * s.metrics.cell_height
            + s.metrics.cell_height,
    ensures
        ops_view(final(ops)@) == ops_view(old(ops)@) + text_ops(x, y, cell@, s),
{
    let space = " ";
    proof {
        reveal_strlit(" ");
        assert(space@ =~= seq![' ']);
    }
    if !(cell.symbol == String::from_str(space)) {
        ops.push(CanvasOp::FillText(
            cell.symbol.clone(),
            x * s.metrics.cell_width,
            y * s.metrics.cell_height + s.metrics.cell_height - s.metrics.cell_baseline,
        ));
    }
    assert(ops_view(ops@) =~= ops_view(old(ops)@) + text_ops(x, y, cell@, s));
}

/// Appends the operations that draw the text and decorations of one cell and
/// returns the fill color and modifiers in effect after it.
#[verifier::rlimit(60)]
fn draw_cell_text(
    ops: &mut Vec<CanvasOp>,
    e: &(u16, u16, Cell, Modifier),
    last_color: Option<Color>,
    last_mod: Modifier,
    s: DrawSettings,
) -> (r: (Option<Color>, Modifier))
    requires
        cell_fits(entry_view(*e), s),
    ensures
        ({
            let (o, lc, lm) = cell_ops(entry_view(*e), last_color, last_mod.bits, s);
            &&& ops_view(final(ops)@) == ops_view(old(ops)@) + o
            &&& r.0 == lc
            &&& r.1.bits == lm
        }),
{
    let modifiers = e.3;
    proof {
        let ev = entry_view(*e);
        assert(ev.0 == e.0 && ev.1 == e.1 && ev.2 == e.2@ && ev.3 == e.3.bits);
        assert(s.always_clip_cells ==> e.0 * s.metrics.cell_width <= u16::MAX && e.1 * s.metrics.cell_height <= u16::MAX);
    }
    let color = actual_fg_color(&e.2, modifiers, Color::White, s.background_color);
    let ghost start = ops_view(ops@);
    let mut lc = last_color;
    let mut lm = last_mod;
    if s.always_clip_cells {
        push_clip_ops(ops, e.0, e.1, s);
        lc = None;
        lm = Modifier::empty();
    }
    let ghost after_clip = ops_view(ops@);
    if lc != Some(color) {
        ops.push(CanvasOp::SetFillStyle(to_rgb(color, 0xFFFFFF)));
    }
    let ghost after_fill = ops_view(ops@);
    push_decoration_ops(ops, e.0, e.1, modifiers, s);
    let ghost after_deco = ops_view(ops@);
    push_font_ops(ops, lm.difference(modifiers), false);
    let ghost after_off = ops_view(ops@);
    push_font_ops(ops, modifiers.difference(lm), true);
    let ghost after_on = ops_view(ops@);
    push_text_ops(ops, e.0, e.1, &e.2, s);
    proof {
        let (x_, y_, c_, m_) = entry_view(*e);
        let color_ = fg_paint(c_, m_, Color::White, s.background_color);
        let clip_ = if s.always_clip_cells { clip_ops(x_, y_, s) } else { seq![] };
        let lc_ = if s.always_clip_cells { None } else { last_color };
        let lm_ = if s.always_clip_cells { 0u16 } else { last_mod.bits };
        let fill_ = if lc_ != Some(color_) { seq![OpView::SetFillStyle(rgb_value(color_, 0xFFFFFF))] } else { seq![] };
        assert(after_clip == start + clip_);
        assert(after_fill =~= after_clip + fill_);
        let (o, lc2, lm2) = cell_ops(entry_view(*e), last_color, last_mod.bits, s);
        assert(o =~= clip_ + fill_ + decoration_ops(x_, y_, m_, s) + font_ops(lm_ & !m_, false) + font_ops(m_ & !lm_, true) + text_ops(x_, y_, c_, s));
        assert(ops_view(ops@) =~= ops_view(old(ops)@) + o);
    }
    (Some(color), modifiers)
}

/// Whether the pixel values computed for a background region fit in 16 bits:
/// its corner and its width and height, each in pixels.
pub open spec fn region_fits(r: Rect, m: CellMetrics) -> bool {
    &&& r.x * m.cell_width <= u16::MAX
    &&& r.y * m.cell_height <= u16::MAX
    &&& r.width * m.cell_width <= u16::MAX
    &&& r.height * m.cell_height <= u16::MAX
}

/// Whether every changed cell's pixel values fit.
pub open spec fn all_fit(es: Seq<(u16, u16, Cell, Modifier)>, s: DrawSettings) -> bool {
    forall|i: int| 0 <= i < es.len() ==> cell_fits(entry_view(#[trigger] es[i]), s)
}

/// Appends the operations that paint a background region and then the cells within it.
fn draw_region(ops: &mut Vec<CanvasOp>, r: Rect, color: Color, cells: &Vec<(u16, u16, Cell, Modifier)>, s: DrawSettings)
    requires
        region_fits(r, s.metrics),
        all_fit(cells@, s),
    ensures
        ops_view(final(ops)@) == ops_view(old(ops)@) + region_ops(r, color, entries_view(cells@), s),
{
    let cw = s.metrics.cell_width;
    let ch = s.metrics.cell_height;
    ops.push(CanvasOp::Save);
    ops.push(CanvasOp::SetFillStyle(to_rgb(color, 0x000000)));
    ops.push(CanvasOp::BeginPath);
    ops.push(CanvasOp::Rect(r.x * cw, r.y * ch, r.width * cw, r.height * ch));
    ops.push(CanvasOp::Clip);
    ops.push(CanvasOp::Fill);
    let ghost head = ops_view(ops@);
    assert(head =~= ops_view(old(ops)@) + seq![
        OpView::Save,
        OpView::SetFillStyle(rgb_value(color, 0)),
        OpView::BeginPath,
        OpView::Rect(px(r.x, s), py(r.y, s), (r.width * s.metrics.cell_width) as u16, (r.height * s.metrics.cell_height) as u16),
        OpView::Clip,
        OpView::Fill,
    ]);
    let ghost es = entries_view(cells@);
    let mut last_color: Option<Color> = None;
    let mut last_mod = Modifier::empty();
    let n = cells.len();
    let mut k: usize = 0;
    while k < n
        invariant
            n == cells@.len(),
            es == entries_view(cells@),
            k <= n,
            all_fit(cells@, s),
            ({
                let (o, lc, lm) = cells_ops(es.take(k as int), s);
                &&& ops_view(ops@) == head + o
                &&& last_color == lc
                &&& last_mod.bits == lm
            }),
        decreases n - k,
    {
        assert(cell_fits(entry_view(cells@[k as int]), s));
        let ghost before = ops_view(ops@);
        let (lc, lm) = draw_cell_text(ops, &cells[k], last_color, last_mod, s);
        proof {
            assert(es.take(k + 1).drop_last() =~= es.take(k as int));
            assert(es.take(k + 1).last() == entry_view(cells@[k as int]));
            let (o, lc0, lm0) = cells_ops(es.take(k as int), s);
            let (o2, _, _) = cell_ops(entry_view(cells@[k as int]), lc0, lm0, s);
            assert(ops_view(ops@) =~= head + (o + o2));
        }
        last_color = lc;
        last_mod = lm;
        k = k + 1;
    }
    assert(es.take(n as int) =~= es);
    let ghost body = ops_view(ops@);
    assert(body == head + cells_ops(es, s).0);
    ops.push(CanvasOp::Restore);
    proof {
        assert(ops_view(ops@) =~= body.push(OpView::Restore));
        assert(ops_view(ops@) =~= ops_view(old(ops)@) + region_ops(r, color, es, s));
    }
}

/// Options for the canvas renderer.
#[derive(Debug)]
pub struct CanvasBackendOptions {
    /// The element ID.
    pub grid_id: Option<String>,
    /// Always clip foreground drawing to the cell rectangle.
    pub always_clip_cells: bool,
    /// Modifiers which may be used in rendering.
    pub enabled_modifiers: Modifier,
    /// An optional string which sets a custom font for the canvas.
    pub font_str: Option<String>,
}

/// Bold, italic, underline, reversed and crossed-out: the modifiers enabled by default.
pub open spec fn default_enabled_modifiers() -> u16 {
    BOLD | ITALIC | UNDERLINED | REVERSED | CROSSED_OUT
}

impl Default for CanvasBackendOptions {
    fn default() -> (r: Self)
        ensures
            r.grid_id is None,
            !r.always_clip_cells,
            r.enabled_modifiers.bits == default_enabled_modifiers(),
            r.font_str is None,
    {
        CanvasBackendOptions {
            grid_id: None,
            always_clip_cells: false,
            enabled_modifiers: Modifier::from_bits(BOLD | ITALIC | UNDERLINED | REVERSED | CROSSED_OUT),
            font_str: None,
        }
    }
}

impl CanvasBackendOptions {
    /// Constructs the default options.
    pub fn new() -> (r: Self)
        ensures
            r.grid_id is None,
            !r.always_clip_cells,
            r.enabled_modifiers.bits == default_enabled_modifiers(),
            r.font_str is None,
    {
        Self::default()
    }

    /// Sets the element id of the canvas' parent element.
    pub fn grid_id(self, id: &str) -> (r: Self)
        ensures
            r.grid_id is Some,
            r.grid_id.unwrap()@ == id@,
            r.always_clip_cells == self.always_clip_cells,
            r.enabled_modifiers == self.enabled_modifiers,
            r.font_str == self.font_str,
    {
        CanvasBackendOptions { grid_id: Some(String::from_str(id)), ..self }
    }

    /// Sets the font that the canvas will use.
    pub fn font(self, font: String) -> (r: Self)
        ensures
            r.font_str == Some(font),
            r.grid_id == self.grid_id,
            r.always_clip_cells == self.always_clip_cells,
            r.enabled_modifiers == self.enabled_modifiers,
    {
        CanvasBackendOptions { font_str: Some(font), ..self }
    }

    /// Enables the given modifiers for rendering.
    pub fn enable_modifiers(self, modifiers: Modifier) -> (r: Self)
        ensures
            r.enabled_modifiers.bits == self.enabled_modifiers.bits | modifiers.bits,
            r.grid_id == self.grid_id,
            r.always_clip_cells == self.always_clip_cells,
            r.font_str == self.font_str,
    {
        let m = self.enabled_modifiers.union(modifiers);
        CanvasBackendOptions { enabled_modifiers: m, ..self }
    }

    /// Disables the given modifiers in rendering, for instance italics where
    /// the chosen font lacks them.
    pub fn disable_modifiers(self, modifiers: Modifier) -> (r: Self)
        ensures
            r.enabled_modifiers.bits == self.enabled_modifiers.bits & !modifiers.bits,
            r.grid_id == self.grid_id,
            r.always_clip_cells == self.always_clip_cells,
            r.font_str == self.font_str,
    {
        let m = self.enabled_modifiers.difference(modifiers);
        CanvasBackendOptions { enabled_modifiers: m, ..self }
    }
}

/// Enabling modifiers keeps every modifier that was enabled and enables the
/// given ones; disabling them afterwards leaves none of them enabled and
/// keeps every other modifier as it was.
pub proof fn lemma_enable_then_disable(enabled: Modifier, m: Modifier, other: u16)
    requires
        other & m.bits == 0,
    ensures
        (enabled.bits | m.bits) & m.bits == m.bits,
        ((enabled.bits | m.bits) & !m.bits) & m.bits == 0,
        ((enabled.bits | m.bits) & !m.bits) & other == enabled.bits & other,
{
    let e = enabled.bits;
    let b = m.bits;
    assert((e | b) & b == b) by (bit_vector);
    assert(((e | b) & !b) & b == 0) by (bit_vector);
    assert(((e | b) & !b) & other == e & other) by (bit_vector)
        requires
            other & b == 0,
    ;
}

/// A grid after each changed cell that lies within it has been written, in order.
pub open spec fn grid_written(g: Seq<Seq<CellView>>, content: Seq<(u16, u16, Cell)>) -> Seq<Seq<CellView>>
    decreases content.len(),
{
    if content.len() == 0 {
        g
    } else {
        let c = content.last();
        grid_put(grid_written(g, content.drop_last()), c.0 as int, c.1 as int, c.2@)
    }
}

/// Whether no changed cell after the `i`-th writes column `x` of row `y`.
pub open spec fn last_write_at(content: Seq<(u16, u16, Cell)>, i: int, x: u16, y: u16) -> bool {
    forall|j: int| i < j < content.len() ==> !((#[trigger] content[j]).0 == x && content[j].1 == y)
}

/// Whether no changed cell writes column `x` of row `y`.
pub open spec fn never_written(content: Seq<(u16, u16, Cell)>, x: u16, y: u16) -> bool {
    forall|j: int| 0 <= j < content.len() ==> !((#[trigger] content[j]).0 == x && content[j].1 == y)
}

proof fn lemma_grid_written_shape(g: Seq<Seq<CellView>>, content: Seq<(u16, u16, Cell)>)
    ensures
        grid_written(g, content).len() == g.len(),
        forall|y: int| 0 <= y < g.len() ==> (#[trigger] grid_written(g, content)[y]).len() == g[y].len(),
    decreases content.len(),
{
    if content.len() > 0 {
        lemma_grid_written_shape(g, content.drop_last());
    }
}

/// Drawing then reading a cell gives back what was drawn: a cell within the
/// grid holds the last changed cell written to it.
pub proof fn lemma_grid_written_reads_back(g: Seq<Seq<CellView>>, content: Seq<(u16, u16, Cell)>, i: int)
    requires
        0 <= i < content.len(),
        content[i].1 < g.len(),
        content[i].0 < g[content[i].1 as int].len(),
        last_write_at(content, i, content[i].0, content[i].1),
    ensures
        grid_written(g, content)[content[i].1 as int][content[i].0 as int] == content[i].2@,
    decreases content.len(),
{
    let x = content[i].0 as int;
    let y = content[i].1 as int;
    let rest = content.drop_last();
    lemma_grid_written_shape(g, rest);
    if i < content.len() - 1 {
        assert(rest[i] == content[i]);
        assert forall|j: int| i < j < rest.len() implies !((#[trigger] rest[j]).0 == content[i].0 && rest[j].1 == content[i].1) by {
            assert(rest[j] == content[j]);
        }
        lemma_grid_written_reads_back(g, rest, i);
        let last = content.last();
        assert(!(last.0 == content[i].0 && last.1 == content[i].1));
    }
}

/// Drawing leaves alone every cell that no changed cell writes.
pub proof fn lemma_grid_written_untouched(g: Seq<Seq<CellView>>, content: Seq<(u16, u16, Cell)>, x: u16, y: u16)
    requires
        y < g.len(),
        x < g[y as int].len(),
        never_written(content, x, y),
    ensures
        grid_written(g, content)[y as int][x as int] == g[y as int][x as int],
    decreases content.len(),
{
    if content.len() > 0 {
        let rest = content.drop_last();
        assert forall|j: int| 0 <= j < rest.len() implies !((#[trigger] rest[j]).0 == x && rest[j].1 == y) by {
            assert(rest[j] == content[j]);
        }
        lemma_grid_written_untouched(g, rest, x, y);
        lemma_grid_written_shape(g, rest);
        assert(!(content.last().0 == x && content.last().1 == y));
    }
}

/// The changed cells as drawn, with the modifiers each is drawn with.
pub open spec fn drawn_entries(content: Seq<(u16, u16, Cell)>, cursor: Option<Position>, shape: CursorShape, enabled: u16) -> Seq<Entry> {
    Seq::new(
        content.len(),
        |i: int| (content[i].0, content[i].1, content[i].2@, drawn_modifiers(content[i].0, content[i].1, content[i].2@, cursor, shape, enabled)),
    )
}

/// Whether the pixel values of the plan for `es` fit in 16 bits, as far as
/// it goes: every cell's, every region handed out, and no region grows past
/// the widest one.
pub open spec fn plan_fits(es: Seq<Entry>, s: DrawSettings) -> bool
    decreases es.len(),
{
    if es.len() == 0 {
        true
    } else {
        let prev = es.drop_last();
        let pending = plan_state(prev, s).1;
        let e = es.last();
        let color = bg_paint(e.2, e.3, Color::White, s.background_color);
        &&& plan_fits(prev, s)
        &&& cell_fits(e, s)
        &&& !step_overflows(pending, (e.0, e.1), color)
        &&& match optimizer_step(pending, (e.0, e.1), color).1 {
            Some((r, _)) => region_fits(r, s.metrics),
            None => true,
        }
    }
}

/// Whether drawing `es` computes only pixel values that fit in 16 bits: the
/// plan's and those of the region left pending at its end.
pub open spec fn draw_fits(es: Seq<Entry>, s: DrawSettings) -> bool {
    &&& plan_fits(es, s)
    &&& match plan_state(es, s).1 {
        Some((r, _)) => region_fits(r, s.metrics),
        None => true,
    }
}

proof fn lemma_plan_fits_prefix(es: Seq<Entry>, s: DrawSettings, i: int)
    requires
        plan_fits(es, s),
        0 <= i <= es.len(),
    ensures
        plan_fits(es.take(i), s),
    decreases es.len(),
{
    if i < es.len() {
        lemma_plan_fits_prefix(es.drop_last(), s, i);
        assert(es.drop_last().take(i) =~= es.take(i));
    } else {
        assert(es.take(i) =~= es);
    }
}

/// The cell grid of the canvas renderer and what drawing depends on.
#[derive(Debug)]
pub struct CanvasGrid {
    /// The cells on screen, row by row.
    pub buffer: Vec<Vec<Cell>>,
    /// Cursor position.
    pub cursor_position: Option<Position>,
    /// The cursor shape.
    pub cursor_shape: CursorShape,
    /// Draw cell boundaries with this CSS color.
    pub debug_mode: Option<String>,
    /// Modifiers which may be used in rendering.
    pub enabled_modifiers: Modifier,
    /// Metrics, clipping and background color.
    pub settings: DrawSettings,
}

impl CanvasGrid {
    /// Writes the changed cells into the grid and returns the operations that
    /// draw them: background regions batched by color, each followed by the
    /// text and decorations of its cells.
    pub fn draw_plan(&mut self, content: &Vec<(u16, u16, Cell)>) -> (ops: Vec<CanvasOp>)
        requires
            draw_fits(
                drawn_entries(content@, old(self).cursor_position, old(self).cursor_shape, old(self).enabled_modifiers.bits),
                old(self).settings,
            ),
        ensures
            grid_view(final(self).buffer@) == grid_written(grid_view(old(self).buffer@), content@),
            final(self).cursor_position == old(self).cursor_position,
            final(self).cursor_shape == old(self).cursor_shape,
            final(self).debug_mode == old(self).debug_mode,
            final(self).enabled_modifiers == old(self).enabled_modifiers,
            final(self).settings == old(self).settings,
            ops_view(ops@) == draw_ops(
                drawn_entries(content@, old(self).cursor_position, old(self).cursor_shape, old(self).enabled_modifiers.bits),
                old(self).settings,
            ),
            count_ops(ops_view(ops@), text_pred()) == text_cells(
                drawn_entries(content@, old(self).cursor_position, old(self).cursor_shape, old(self).enabled_modifiers.bits),
            ),
            count_ops(ops_view(ops@), rect_pred()) == line_count(
                drawn_entries(content@, old(self).cursor_position, old(self).cursor_shape, old(self).enabled_modifiers.bits),
            ),
    {
        let s = self.settings;
        let ghost es = drawn_entries(content@, self.cursor_position, self.cursor_shape, self.enabled_modifiers.bits);
        let ghost g0 = grid_view(self.buffer@);
        let mut ops: Vec<CanvasOp> = Vec::new();
        let mut optimizer = RowColorOptimizer::new();
        let mut waiting: Vec<(u16, u16, Cell, Modifier)> = Vec::new();
        let n = content.len();
        let mut i: usize = 0;
        while i < n
            invariant
                n == content@.len(),
                i <= n,
                s == self.settings,
                s == old(self).settings,
                self.cursor_position == old(self).cursor_position,
                self.cursor_shape == old(self).cursor_shape,
                self.debug_mode == old(self).debug_mode,
                self.enabled_modifiers == old(self).enabled_modifiers,
                es == drawn_entries(content@, self.cursor_position, self.cursor_shape, self.enabled_modifiers.bits),
                draw_fits(es, s),
                es.len() == n,
                g0 == grid_view(old(self).buffer@),
                grid_view(self.buffer@) == grid_written(g0, content@.take(i as int)),
                (ops_view(ops@), optimizer.pending_region, entries_view(waiting@)) == plan_state(es.take(i as int), s),
                all_fit(waiting@, s),
            decreases n - i,
        {
            let x = content[i].0;
            let y = content[i].1;
            let cell = &content[i].2;
            proof {
                lemma_plan_fits_prefix(es, s, i + 1);
                assert(es.take(i + 1).drop_last() =~= es.take(i as int));
                assert(es.take(i + 1).last() == es[i as int]);
            }
            let ghost g_before = grid_view(self.buffer@);
            put_cell(&mut self.buffer, x as usize, y as usize, cell.clone());
            proof {
                assert(content@.take(i + 1).drop_last() =~= content@.take(i as int));
                assert(content@.take(i + 1).last() == content@[i as int]);
            }
            let mut modifiers = cell.modifier;
            let on_cursor = match self.cursor_position {
                Some(pos) => pos.x == x && pos.y == y,
                None => false,
            };
            if on_cursor {
                modifiers = self.cursor_shape.show_modifiers(modifiers);
            }
            modifiers = modifiers.intersection(self.enabled_modifiers);
            assert(modifiers.bits == es[i as int].3);
            let bg = actual_bg_color(cell, modifiers, Color::White, s.background_color);
            let ghost pre_ops = ops_view(ops@);
            let ghost pre_pending = optimizer.pending_region;
            let ghost pre_waiting = entries_view(waiting@);
            let finished = optimizer.process_color((x, y), bg);
            match finished {
                Some((r, c)) => {
                    draw_region(&mut ops, r, c, &waiting, s);
                    waiting = Vec::new();
                },
                None => {},
            }
            let ghost mid_waiting = entries_view(waiting@);
            let ghost mid_w = waiting@;
            assert(all_fit(mid_w, s));
            waiting.push((x, y, cell.clone(), modifiers));
            proof {
                let e = es[i as int];
                assert(es.take(i + 1).drop_last() =~= es.take(i as int));
                assert(es.take(i + 1).last() == e);
                assert(entries_view(waiting@) =~= mid_waiting.push(e));
                match finished {
                    Some(_) => {
                        assert(mid_waiting =~= seq![]);
                    },
                    None => {},
                }
                assert forall|k: int| 0 <= k < waiting@.len() implies cell_fits(entry_view(#[trigger] waiting@[k]), s) by {
                    if k < waiting@.len() - 1 {
                        assert(waiting@[k] == mid_w[k]);
                    } else {
                        assert(entry_view(waiting@[k]) == e);
                    }
                }
            }
            i = i + 1;
        }
        assert(content@.take(n as int) =~= content@);
        assert(es.take(n as int) =~= es);
        let ghost pre_ops = ops_view(ops@);
        match optimizer.flush() {
            Some((r, c)) => {
                draw_region(&mut ops, r, c, &waiting, s);
            },
            None => {},
        }
        proof {
            lemma_draw_ops_counts(es, s);
        }
        ops
    }
}

/// Whether the pixel values drawing a cell computes fit in 16 bits.
fn cell_fits_exec(x: u16, y: u16, cell: &Cell, m: Modifier, s: DrawSettings) -> (r: bool)
    ensures
        r == cell_fits((x, y, cell@, m.bits), s),
{
    let cw = s.metrics.cell_width as u32;
    let ch = s.metrics.cell_height as u32;
    proof {
        assert(x * cw <= 0xffff * 0xffff) by (nonlinear_arith)
            requires x <= 0xffff, cw <= 0xffff;
        assert(y * ch <= 0xffff * 0xffff) by (nonlinear_arith)
            requires y <= 0xffff, ch <= 0xffff;
    }
    let xw = x as u32 * cw;
    let yh = y as u32 * ch;
    let max: u32 = 0xffff;
    let clip_ok = !s.always_clip_cells || (xw <= max && yh <= max);
    let underline_ok = m.bits & UNDERLINED == 0 || (xw <= max && yh + s.metrics.underline_pos as u32 <= max);
    let crossed_ok = m.bits & CROSSED_OUT == 0 || (xw <= max && yh + ch / 2 <= max);
    let space = " ";
    proof {
        reveal_strlit(" ");
        assert(space@ =~= seq![' ']);
    }
    let is_space = cell.symbol == String::from_str(space);
    let text_ok = is_space || (xw <= max && yh + ch <= max && s.metrics.cell_baseline as u32 <= yh + ch);
    clip_ok && underline_ok && crossed_ok && text_ok
}

/// Whether the pixel values of a background region fit in 16 bits.
fn region_fits_exec(r: Rect, m: CellMetrics) -> (b: bool)
    ensures
        b == region_fits(r, m),
{
    proof {
        assert(r.x * m.cell_width <= 0xffff * 0xffff) by (nonlinear_arith)
            requires r.x <= 0xffff, m.cell_width <= 0xffff;
        assert(r.y * m.cell_height <= 0xffff * 0xffff) by (nonlinear_arith)
            requires r.y <= 0xffff, m.cell_height <= 0xffff;
        assert(r.width * m.cell_width <= 0xffff * 0xffff) by (nonlinear_arith)
            requires r.width <= 0xffff, m.cell_width <= 0xffff;
        assert(r.height * m.cell_height <= 0xffff * 0xffff) by (nonlinear_arith)
            requires r.height <= 0xffff, m.cell_height <= 0xffff;
    }
    let max: u32 = 0xffff;
    r.x as u32 * m.cell_width as u32 <= max && r.y as u32 * m.cell_height as u32 <= max
        && r.width as u32 * m.cell_width as u32 <= max && r.height as u32 * m.cell_height as u32 <= max
}

/// Whether taking a cell would grow the pending region past the widest one.
fn step_overflows_exec(pending: Option<Region>, pos: (u16, u16), color: Color) -> (b: bool)
    ensures
        b == step_overflows(pending, pos, color),
{
    match pending {
        Some((r, c)) => c == color && pos.0 == r.right() && pos.1 == r.y && r.width == u16::MAX,
        None => false,
    }
}

impl CanvasGrid {
    /// The modifiers a changed cell is drawn with: its own, with the cursor's
    /// added when the cursor is on it, cut to the enabled ones.
    fn drawn_modifiers_of(&self, x: u16, y: u16, cell: &Cell) -> (m: Modifier)
        ensures
            m.bits == drawn_modifiers(x, y, cell@, self.cursor_position, self.cursor_shape, self.enabled_modifiers.bits),
    {
        let mut modifiers = cell.modifier;
        let on_cursor = match self.cursor_position {
            Some(pos) => pos.x == x && pos.y == y,
            None => false,
        };
        if on_cursor {
            modifiers = self.cursor_shape.show_modifiers(modifiers);
        }
        modifiers.intersection(self.enabled_modifiers)
    }

    /// Whether drawing the changed cells would compute only pixel values that
    /// fit in 16 bits, as [`CanvasGrid::draw_plan`] requires.
    pub fn fits_to_draw(&self, content: &Vec<(u16, u16, Cell)>) -> (r: bool)
        ensures
            r == draw_fits(
                drawn_entries(content@, self.cursor_position, self.cursor_shape, self.enabled_modifiers.bits),
                self.settings,
            ),
    {
        let s = self.settings;
        let ghost es = drawn_entries(content@, self.cursor_position, self.cursor_shape, self.enabled_modifiers.bits);
        let mut pending: Option<Region> = None;
        let n = content.len();
        let mut i: usize = 0;
        while i < n
            invariant
                n == content@.len(),
                es.len() == n,
                s == self.settings,
                es == drawn_entries(content@, self.cursor_position, self.cursor_shape, self.enabled_modifiers.bits),
                i <= n,
                plan_fits(es.take(i as int), s),
                pending == plan_state(es.take(i as int), s).1,
            decreases n - i,
        {
            let x = content[i].0;
            let y = content[i].1;
            let cell = &content[i].2;
            let m = self.drawn_modifiers_of(x, y, cell);
            let bg = actual_bg_color(cell, m, Color::White, s.background_color);
            let ghost next = es.take(i + 1);
            proof {
                assert(next.drop_last() =~= es.take(i as int));
                assert(next.last() == es[i as int]);
                assert(es[i as int] == (x, y, cell@, m.bits));
            }
            if !cell_fits_exec(x, y, cell, m, s) || step_overflows_exec(pending, (x, y), bg) {
                proof {
                    if plan_fits(es, s) {
                        lemma_plan_fits_prefix(es, s, i + 1);
                    }
                }
                return false;
            }
            let mut optimizer = RowColorOptimizer { pending_region: pending };
            let out = optimizer.process_color((x, y), bg);
            match out {
                Some((r, _)) => {
                    if !region_fits_exec(r, s.metrics) {
                        proof {
                            if plan_fits(es, s) {
                                lemma_plan_fits_prefix(es, s, i + 1);
                            }
                        }
                        return false;
                    }
                },
                None => {},
            }
            pending = optimizer.pending_region;
            i = i + 1;
        }
        assert(es.take(n as int) =~= es);
        match pending {
            Some((r, _)) => region_fits_exec(r, s.metrics),
            None => true,
        }
    }

    /// Whether redrawing the cell at `pos`, where it exists, with the cursor
    /// at `cursor` would compute only pixel values that fit in 16 bits, as
    /// the cursor operations require.
    pub fn fits_to_redraw(&self, pos: Option<Position>, cursor: Option<Position>) -> (r: bool)
        ensures
            r == redraw_fits(
                grid_view(self.buffer@),
                pos,
                cursor,
                self.cursor_shape,
                self.enabled_modifiers.bits,
                self.settings,
            ),
    {
        match pos {
            Some(p) => {
                let x = p.x as usize;
                let y = p.y as usize;
                if y < self.buffer.len() && x < self.buffer[y].len() {
                    let cell = &self.buffer[y][x];
                    let mut modifiers = cell.modifier;
                    let on_cursor = match cursor {
                        Some(c) => c.x == p.x && c.y == p.y,
                        None => false,
                    };
                    if on_cursor {
                        modifiers = self.cursor_shape.show_modifiers(modifiers);
                    }
                    modifiers = modifiers.intersection(self.enabled_modifiers);
                    proof {
                        let g = grid_view(self.buffer@);
                        assert(g[y as int][x as int] == cell@);
                        lemma_single_cell_fits((p.x, p.y, cell@, modifiers.bits), self.settings);
                    }
                    cell_fits_exec(p.x, p.y, cell, modifiers, self.settings)
                        && region_fits_exec(Rect::new(p.x, p.y, 1, 1), self.settings.metrics)
                } else {
                    true
                }
            },
            None => true,
        }
    }
}

/// The size of a grid: the length of its first row and its number of rows,
/// each cut to 16 bits.
pub open spec fn grid_size(g: Seq<Seq<CellView>>) -> Size {
    Size { width: (if g.len() > 0 { g[0].len() } else { 0 }) as u16, height: g.len() as u16 }
}

/// A row cut or padded with empty cells to `w` cells.
pub open spec fn resized_row(r: Seq<CellView>, w: nat) -> Seq<CellView> {
    Seq::new(w, |x: int| if x < r.len() { r[x] } else { default_cell_view() })
}

/// A grid with every row cut or padded to `w` cells and `h` rows, new rows empty.
pub open spec fn resized_grid(g: Seq<Seq<CellView>>, w: nat, h: nat) -> Seq<Seq<CellView>> {
    Seq::new(h, |y: int| if y < g.len() { resized_row(g[y], w) } else { blank_row(w) })
}

/// A grid of the same shape with every cell empty.
pub open spec fn cleared_grid(g: Seq<Seq<CellView>>) -> Seq<Seq<CellView>> {
    Seq::new(g.len(), |y: int| blank_row(g[y].len()))
}

/// The operations that redraw the cell at `pos`, if there is one and the cell
/// exists, with the cursor at `cursor`.
pub open spec fn redraw_ops(
    g: Seq<Seq<CellView>>,
    pos: Option<Position>,
    cursor: Option<Position>,
    shape: CursorShape,
    enabled: u16,
    s: DrawSettings,
) -> Seq<OpView> {
    match pos {
        Some(p) => if p.y < g.len() && p.x < g[p.y as int].len() {
            let c = g[p.y as int][p.x as int];
            draw_ops(seq![(p.x, p.y, c, drawn_modifiers(p.x, p.y, c, cursor, shape, enabled))], s)
        } else {
            seq![]
        },
        None => seq![],
    }
}

/// The debug outlines of the first `w` cells of row `y`.
pub open spec fn debug_row_ops(y: u16, w: nat, color: Seq<char>, s: DrawSettings) -> Seq<OpView>
    decreases w,
{
    if w == 0 {
        seq![]
    } else {
        debug_row_ops(y, (w - 1) as nat, color, s) + seq![
            OpView::SetStrokeStyleStr(color),
            OpView::StrokeRect(px((w - 1) as u16, s), py(y, s), s.metrics.cell_width, s.metrics.cell_height),
        ]
    }
}

/// The debug outlines of the first `h` rows of `w` cells.
pub open spec fn debug_grid_ops(h: nat, w: nat, color: Seq<char>, s: DrawSettings) -> Seq<OpView>
    decreases h,
{
    if h == 0 {
        seq![]
    } else {
        debug_grid_ops((h - 1) as nat, w, color, s) + debug_row_ops((h - 1) as u16, w, color, s)
    }
}

/// Whether the debug outlines of a grid of this size fit in 16-bit pixel values.
pub open spec fn debug_fits(size: Size, m: CellMetrics) -> bool {
    size.width == 0 || size.height == 0 || ((size.width - 1) * m.cell_width <= u16::MAX && (size.height - 1)
        * m.cell_height <= u16::MAX)
}

fn resize_row(row: &mut Vec<Cell>, w: usize)
    ensures
        row_view(final(row)@) == resized_row(row_view(old(row)@), w as nat),
{
    if w <= row.len() {
        row.truncate(w);
        assert(row_view(row@) =~= resized_row(row_view(old(row)@), w as nat));
    } else {
        let mut i = row.len();
        while i < w
            invariant
                old(row)@.len() <= i <= w,
                row@.len() == i,
                forall|k: int| 0 <= k < old(row)@.len() ==> row@[k] == old(row)@[k],
                forall|k: int| old(row)@.len() <= k < i ==> row@[k]@ == default_cell_view(),
            decreases w - i,
        {
            row.push(Cell::new_default());
            i = i + 1;
        }
        assert(row_view(row@) =~= resized_row(row_view(old(row)@), w as nat));
    }
}

impl CanvasGrid {
    /// A grid with no cells, the cursor hidden and block-shaped, no debug
    /// outlines, and the clipping and modifiers of the options on a black
    /// background.
    pub fn from_options(options: &CanvasBackendOptions, metrics: CellMetrics) -> (g: CanvasGrid)
        ensures
            g.buffer@.len() == 0,
            g.cursor_position is None,
            g.cursor_shape == CursorShape::SteadyBlock,
            g.debug_mode is None,
            g.enabled_modifiers == options.enabled_modifiers,
            g.settings == (DrawSettings {
                metrics,
                always_clip_cells: options.always_clip_cells,
                background_color: Color::Black,
            }),
    {
        CanvasGrid {
            buffer: Vec::new(),
            cursor_position: None,
            cursor_shape: CursorShape::SteadyBlock,
            debug_mode: None,
            enabled_modifiers: options.enabled_modifiers,
            settings: DrawSettings {
                metrics,
                always_clip_cells: options.always_clip_cells,
                background_color: Color::Black,
            },
        }
    }

    /// The size of the grid in cells.
    pub fn buffer_size(&self) -> (r: Size)
        ensures
            r == grid_size(grid_view(self.buffer@)),
    {
        let w = if self.buffer.len() > 0 { self.buffer[0].len() } else { 0 };
        Size { width: w as u16, height: self.buffer.len() as u16 }
    }

    /// Brings the grid to the given size when its size differs: rows are cut
    /// or padded with empty cells, missing rows are added empty.
    pub fn initialize(&mut self, new_size: Size)
        ensures
            grid_view(final(self).buffer@) == (if grid_size(grid_view(old(self).buffer@)) != new_size {
                resized_grid(grid_view(old(self).buffer@), new_size.width as nat, new_size.height as nat)
            } else {
                grid_view(old(self).buffer@)
            }),
            final(self).cursor_position == old(self).cursor_position,
            final(self).cursor_shape == old(self).cursor_shape,
            final(self).debug_mode == old(self).debug_mode,
            final(self).enabled_modifiers == old(self).enabled_modifiers,
            final(self).settings == old(self).settings,
    {
        if self.buffer_size() != new_size {
            let w = new_size.width as usize;
            let h = new_size.height as usize;
            let ghost g0 = grid_view(self.buffer@);
            if h < self.buffer.len() {
                self.buffer.truncate(h);
            }
            let n = self.buffer.len();
            let mut y: usize = 0;
            while y < n
                invariant
                    self.cursor_position == old(self).cursor_position,
                    self.cursor_shape == old(self).cursor_shape,
                    self.debug_mode == old(self).debug_mode,
                    self.enabled_modifiers == old(self).enabled_modifiers,
                    self.settings == old(self).settings,
                    n == self.buffer@.len(),
                    n <= h,
                    n <= g0.len(),
                    y <= n,
                    forall|k: int| 0 <= k < y ==> row_view(#[trigger] self.buffer@[k]@) == resized_row(g0[k], w as nat),
                    forall|k: int| y <= k < n ==> row_view(#[trigger] self.buffer@[k]@) == g0[k],
                decreases n - y,
            {
                resize_row(&mut self.buffer[y], w);
                y = y + 1;
            }
            while self.buffer.len() < h
                invariant
                    self.cursor_position == old(self).cursor_position,
                    self.cursor_shape == old(self).cursor_shape,
                    self.debug_mode == old(self).debug_mode,
                    self.enabled_modifiers == old(self).enabled_modifiers,
                    self.settings == old(self).settings,
                    n <= self.buffer@.len() <= h,
                    n <= g0.len(),
                    n == g0.len() || n == h,
                    forall|k: int| 0 <= k < n ==> row_view(#[trigger] self.buffer@[k]@) == resized_row(g0[k], w as nat),
                    forall|k: int| n <= k < self.buffer@.len() ==> row_view(#[trigger] self.buffer@[k]@) == blank_row(w as nat),
                decreases h - self.buffer@.len(),
            {
                self.buffer.push(default_row(w));
            }
            assert(grid_view(self.buffer@) =~= resized_grid(g0, w as nat, h as nat));
        }
    }

    /// Sets the background color of the canvas.
    pub fn set_background_color(&mut self, color: Color)
        ensures
            final(self).settings == (DrawSettings { background_color: color, ..old(self).settings }),
            final(self).buffer == old(self).buffer,
            final(self).cursor_position == old(self).cursor_position,
            final(self).cursor_shape == old(self).cursor_shape,
            final(self).debug_mode == old(self).debug_mode,
            final(self).enabled_modifiers == old(self).enabled_modifiers,
    {
        self.settings.background_color = color;
    }

    /// Returns the cursor shape.
    pub fn cursor_shape(&self) -> (r: &CursorShape)
        ensures
            *r == self.cursor_shape,
    {
        &self.cursor_shape
    }

    /// Sets the cursor shape.
    pub fn set_cursor_shape(self, shape: CursorShape) -> (r: Self)
        ensures
            r == (CanvasGrid { cursor_shape: shape, ..self }),
    {
        CanvasGrid { cursor_shape: shape, ..self }
    }

    /// Enables or disables debug outlines drawn in the given CSS color.
    pub fn set_debug_mode(&mut self, color: Option<String>)
        ensures
            *final(self) == (CanvasGrid { debug_mode: color, ..*old(self) }),
    {
        self.debug_mode = color;
    }

    /// The cursor position, the top-left cell when there is none.
    pub fn get_cursor_position(&self) -> (r: Position)
        ensures
            r == (match self.cursor_position {
                Some(p) => p,
                None => Position { x: 0, y: 0 },
            }),
    {
        match self.cursor_position {
            None => Position { x: 0, y: 0 },
            Some(p) => p,
        }
    }
}

/// Whether redrawing the cell at `pos`, where it exists, with the cursor at
/// `cursor` computes only pixel values that fit in 16 bits.
pub open spec fn redraw_fits(
    g: Seq<Seq<CellView>>,
    pos: Option<Position>,
    cursor: Option<Position>,
    shape: CursorShape,
    enabled: u16,
    s: DrawSettings,
) -> bool {
    match pos {
        Some(p) => p.y < g.len() && p.x < g[p.y as int].len() ==> {
            let c = g[p.y as int][p.x as int];
            draw_fits(seq![(p.x, p.y, c, drawn_modifiers(p.x, p.y, c, cursor, shape, enabled))], s)
        },
        None => true,
    }
}

/// Drawing a single cell computes its own pixel values and those of its
/// one-cell background region, and nothing else.
pub proof fn lemma_single_cell_fits(e: Entry, s: DrawSettings)
    ensures
        draw_fits(seq![e], s) <==> cell_fits(e, s) && region_fits(new_rect(e.0, e.1, 1, 1), s.metrics),
{
    let es = seq![e];
    let empty = Seq::<Entry>::empty();
    assert(es.drop_last() =~= empty);
    assert(es.last() == e);
    assert(plan_state(empty, s) == (Seq::<OpView>::empty(), None::<Region>, Seq::<Entry>::empty()));
    assert(plan_fits(empty, s));
    let color = bg_paint(e.2, e.3, Color::White, s.background_color);
    assert(optimizer_step(None, (e.0, e.1), color) == (Some((new_rect(e.0, e.1, 1, 1), color)), None::<Region>));
    assert(plan_state(es, s).1 == Some((new_rect(e.0, e.1, 1, 1), color)));
}

/// What drawing one changed cell alone puts on the canvas, written out: its
/// one-cell background region is saved, filled in the background paint
/// (the cell's foreground, white when reset, if reversed; else its
/// background, the canvas background when reset) and clipped to; when every
/// cell is clipped the clip is redone for the cell; the text paint (the
/// other of the two) is set; the underline and then the strike-through are
/// drawn as one-pixel lines across the cell, at the underline position and at
/// half the cell height; bold and italic are switched on as one operation
/// when both are drawn; the symbol is drawn above the baseline unless it is a
/// single space; and the region is restored.
pub open spec fn one_cell_drawing(e: Entry, s: DrawSettings) -> Seq<OpView> {
    let (x, y, c, m) = e;
    let cw = s.metrics.cell_width;
    let ch = s.metrics.cell_height;
    let left = (x * cw) as u16;
    let top = (y * ch) as u16;
    let fg = if c.fg == Color::Reset { Color::White } else { c.fg };
    let bg = if c.bg == Color::Reset { s.background_color } else { c.bg };
    let reversed = m & REVERSED == REVERSED;
    let region_paint = if reversed { fg } else { bg };
    let text_paint = if reversed { bg } else { fg };
    let region_w: u16 = if x < u16::MAX { 1 } else { 0 };
    let region_h: u16 = if y < u16::MAX { 1 } else { 0 };
    let region = seq![
        OpView::Save,
        OpView::SetFillStyle(rgb_value(region_paint, 0)),
        OpView::BeginPath,
        OpView::Rect(left, top, (region_w * cw) as u16, (region_h * ch) as u16),
        OpView::Clip,
        OpView::Fill,
    ];
    let clip = if s.always_clip_cells {
        seq![OpView::Restore, OpView::Save, OpView::BeginPath, OpView::Rect(left, top, cw, ch), OpView::Clip]
    } else {
        seq![]
    };
    let paint = seq![OpView::SetFillStyle(rgb_value(text_paint, 0xFFFFFF))];
    let underline = if m & UNDERLINED != 0 {
        seq![OpView::FillRect(left, (top + s.metrics.underline_pos) as u16, cw, 1)]
    } else {
        seq![]
    };
    let strike = if m & CROSSED_OUT != 0 {
        seq![OpView::FillRect(left, (top + ch / 2) as u16, cw, 1)]
    } else {
        seq![]
    };
    let fonts = if m & (BOLD | ITALIC) == (BOLD | ITALIC) {
        seq![OpView::BoldItalic]
    } else if m & BOLD != 0 {
        seq![OpView::Bold]
    } else if m & ITALIC != 0 {
        seq![OpView::Italic]
    } else {
        seq![]
    };
    let text = if c.symbol != seq![' '] {
        seq![OpView::FillText(c.symbol, left, (top + ch - s.metrics.cell_baseline) as u16)]
    } else {
        seq![]
    };
    region + (clip + paint + (underline + strike) + fonts + text) + seq![OpView::Restore]
}

/// Drawing one changed cell alone gives exactly the operations written out
/// in `one_cell_drawing`.
pub proof fn lemma_one_cell_drawing(e: Entry, s: DrawSettings)
    ensures
        draw_ops(seq![e], s) == one_cell_drawing(e, s),
{
    let es = seq![e];
    let (x, y, c, m) = e;
    let color = bg_paint(c, m, Color::White, s.background_color);
    let r = new_rect(x, y, 1, 1);
    lemma_one_cell_plan(e, s);
    lemma_one_cell_fonts(m);
    let (o, lc, lm) = cell_ops(e, None, 0u16, s);
    let fg = if c.fg == Color::Reset { Color::White } else { c.fg };
    let bg = if c.bg == Color::Reset { s.background_color } else { c.bg };
    let reversed = m & REVERSED == REVERSED;
    let text_paint = if reversed { bg } else { fg };
    assert(fg_paint(c, m, Color::White, s.background_color) == text_paint);
    assert(r.width == (if x < u16::MAX { 1u16 } else { 0u16 }));
    assert(r.height == (if y < u16::MAX { 1u16 } else { 0u16 }));
    let clip = if s.always_clip_cells { clip_ops(x, y, s) } else { seq![] };
    let paint = seq![OpView::SetFillStyle(rgb_value(text_paint, 0xFFFFFF))];
    let fonts = font_ops(m & !0u16, true);
    let text = text_ops(x, y, c, s);
    assert(o == clip + paint + decoration_ops(x, y, m, s) + font_ops(0u16 & !m, false) + fonts + text);
    assert(clip + paint + decoration_ops(x, y, m, s) + Seq::<OpView>::empty() =~= clip + paint + decoration_ops(x, y, m, s));
    assert(o == clip + paint + decoration_ops(x, y, m, s) + fonts + text);
}

/// The plan of one changed cell alone: its one-cell region, and the cell in it.
proof fn lemma_one_cell_plan(e: Entry, s: DrawSettings)
    ensures
        draw_ops(seq![e], s) == region_ops(
            new_rect(e.0, e.1, 1, 1),
            bg_paint(e.2, e.3, Color::White, s.background_color),
            seq![e],
            s,
        ),
        cells_ops(seq![e], s).0 == cell_ops(e, None, 0u16, s).0,
{
    let es = seq![e];
    let empty = Seq::<Entry>::empty();
    assert(es.drop_last() =~= empty);
    assert(es.last() == e);
    assert(plan_state(empty, s) == (Seq::<OpView>::empty(), None::<Region>, Seq::<Entry>::empty()));
    let color = bg_paint(e.2, e.3, Color::White, s.background_color);
    let r = new_rect(e.0, e.1, 1, 1);
    assert(optimizer_step(None, (e.0, e.1), color) == (Some((r, color)), None::<Region>));
    assert(plan_state(es, s) == (Seq::<OpView>::empty(), Some((r, color)), es));
    assert(cells_ops(empty, s) == (Seq::<OpView>::empty(), None::<Color>, 0u16));
    let (o, lc, lm) = cell_ops(e, None, 0u16, s);
    assert(cells_ops(es, s).0 =~= Seq::<OpView>::empty() + o);
}

/// The font switches of a cell drawn first: nothing switched off, and bold
/// and italic switched on, as one operation when both are drawn.
proof fn lemma_one_cell_fonts(m: u16)
    ensures
        font_ops(0u16 & !m, false) == Seq::<OpView>::empty(),
        font_ops(m & !0u16, true) == (if m & (BOLD | ITALIC) == (BOLD | ITALIC) {
            seq![OpView::BoldItalic]
        } else if m & BOLD != 0 {
            seq![OpView::Bold]
        } else if m & ITALIC != 0 {
            seq![OpView::Italic]
        } else {
            seq![]
        }),
{
    assert(BOLD == 0x001u16);
    assert(ITALIC == 0x004u16);
    assert(0u16 & !m == 0u16) by (bit_vector);
    assert(m & !0u16 == m) by (bit_vector);
    assert(0u16 & (0x001u16 | 0x004u16) == 0u16) by (bit_vector);
    let bi = m & (0x001u16 | 0x004u16);
    assert(bi == 0u16 || bi == 1u16 || bi == 4u16 || bi == 5u16) by (bit_vector)
        requires bi == m & (0x001u16 | 0x004u16);
    assert(bi == 5u16 ==> m & 0x001u16 != 0) by (bit_vector)
        requires bi == m & (0x001u16 | 0x004u16);
    assert(bi == 1u16 ==> m & 0x001u16 != 0) by (bit_vector)
        requires bi == m & (0x001u16 | 0x004u16);
    assert(bi == 4u16 ==> m & 0x001u16 == 0 && m & 0x004u16 != 0) by (bit_vector)
        requires bi == m & (0x001u16 | 0x004u16);
    assert(bi == 0u16 ==> m & 0x001u16 == 0 && m & 0x004u16 == 0) by (bit_vector)
        requires bi == m & (0x001u16 | 0x004u16);
    assert(0x001u16 | 0x004u16 == 5u16) by (bit_vector);
    assert(font_ops(m, true) == (if bi == 5u16 {
        seq![OpView::BoldItalic]
    } else if bi == 1u16 {
        seq![OpView::Bold]
    } else if bi == 4u16 {
        seq![OpView::Italic]
    } else {
        seq![]
    }));
}

/// A single changed cell drawn with `REVERSED` among its modifiers swaps its
/// colors on the canvas: its background region is filled with its own
/// foreground (white when reset) and its text is then filled with its own
/// background (the canvas background when reset). The region's fill style is
/// the second operation; the text's fill style comes right after the region
/// is opened, or after the cell's clip when every cell is clipped.
pub proof fn lemma_reversed_cell_swaps_fills(e: Entry, s: DrawSettings)
    requires
        e.3 & REVERSED == REVERSED,
    ensures
        draw_ops(seq![e], s)[1] == OpView::SetFillStyle(
            rgb_value(if e.2.fg == Color::Reset { Color::White } else { e.2.fg }, 0),
        ),
        draw_ops(seq![e], s)[if s.always_clip_cells { 11int } else { 6int }] == OpView::SetFillStyle(
            rgb_value(if e.2.bg == Color::Reset { s.background_color } else { e.2.bg }, 0xFFFFFF),
        ),
{
    let es = seq![e];
    let empty = Seq::<Entry>::empty();
    assert(es.drop_last() =~= empty);
    assert(es.last() == e);
    assert(plan_state(empty, s) == (Seq::<OpView>::empty(), None::<Region>, Seq::<Entry>::empty()));
    let color = bg_paint(e.2, e.3, Color::White, s.background_color);
    let r = new_rect(e.0, e.1, 1, 1);
    assert(optimizer_step(None, (e.0, e.1), color) == (Some((r, color)), None::<Region>));
    assert(plan_state(es, s) == (Seq::<OpView>::empty(), Some((r, color)), es));
    assert(draw_ops(es, s) == region_ops(r, color, es, s));
    assert(cells_ops(empty, s) == (Seq::<OpView>::empty(), None::<Color>, 0u16));
    let (o, lc, lm) = cell_ops(e, None, 0u16, s);
    assert(cells_ops(es, s).0 =~= Seq::<OpView>::empty() + o);
    let fg = fg_paint(e.2, e.3, Color::White, s.background_color);
    let clip = if s.always_clip_cells { clip_ops(e.0, e.1, s) } else { seq![] };
    let rest = decoration_ops(e.0, e.1, e.3, s) + font_ops(0u16 & !e.3, false) + font_ops(e.3 & !0u16, true)
        + text_ops(e.0, e.1, e.2, s);
    assert(o == clip + seq![OpView::SetFillStyle(rgb_value(fg, 0xFFFFFF))] + rest);
    assert(o[clip.len() as int] == OpView::SetFillStyle(rgb_value(fg, 0xFFFFFF)));
}

impl CanvasGrid {
    /// Redraws the cell at `pos`, if it exists, as the cursor now stands.
    fn redraw(&mut self, pos: Position) -> (ops: Vec<CanvasOp>)
        requires
            redraw_fits(
                grid_view(old(self).buffer@),
                Some(pos),
                old(self).cursor_position,
                old(self).cursor_shape,
                old(self).enabled_modifiers.bits,
                old(self).settings,
            ),
        ensures
            grid_view(final(self).buffer@) == grid_view(old(self).buffer@),
            final(self).cursor_position == old(self).cursor_position,
            final(self).cursor_shape == old(self).cursor_shape,
            final(self).debug_mode == old(self).debug_mode,
            final(self).enabled_modifiers == old(self).enabled_modifiers,
            final(self).settings == old(self).settings,
            ops_view(ops@) == redraw_ops(
                grid_view(old(self).buffer@),
                Some(pos),
                old(self).cursor_position,
                old(self).cursor_shape,
                old(self).enabled_modifiers.bits,
                old(self).settings,
            ),
    {
        let x = pos.x as usize;
        let y = pos.y as usize;
        let ghost g = grid_view(self.buffer@);
        if y < self.buffer.len() && x < self.buffer[y].len() {
            let cell = self.buffer[y][x].clone();
            let mut content: Vec<(u16, u16, Cell)> = Vec::new();
            content.push((pos.x, pos.y, cell));
            assert(drawn_entries(content@, self.cursor_position, self.cursor_shape, self.enabled_modifiers.bits) =~= seq![
                (pos.x, pos.y, g[y as int][x as int], drawn_modifiers(pos.x, pos.y, g[y as int][x as int], self.cursor_position, self.cursor_shape, self.enabled_modifiers.bits))]);
            let ops = self.draw_plan(&content);
            proof {
                let es = drawn_entries(content@, self.cursor_position, self.cursor_shape, self.enabled_modifiers.bits);
                let c = g[y as int][x as int];
                assert(es =~= seq![(pos.x, pos.y, c, drawn_modifiers(pos.x, pos.y, c, self.cursor_position, self.cursor_shape, self.enabled_modifiers.bits))]);
                assert(content@.drop_last() =~= seq![]);
                assert(grid_written(g, content@.drop_last()) == g);
                assert(content@.last().2@ == c);
                assert(g[y as int].update(x as int, c) =~= g[y as int]);
                assert(g.update(y as int, g[y as int]) =~= g);
                assert(grid_view(self.buffer@) =~= g);
            }
            ops
        } else {
            Vec::new()
        }
    }

    /// Takes the cursor away and returns the operations that redraw the cell
    /// under it without the cursor.
    pub fn hide_cursor(&mut self) -> (ops: Vec<CanvasOp>)
        requires
            redraw_fits(
                grid_view(old(self).buffer@),
                old(self).cursor_position,
                None,
                old(self).cursor_shape,
                old(self).enabled_modifiers.bits,
                old(self).settings,
            ),
        ensures
            grid_view(final(self).buffer@) == grid_view(old(self).buffer@),
            final(self).cursor_position is None,
            final(self).cursor_shape == old(self).cursor_shape,
            final(self).debug_mode == old(self).debug_mode,
            final(self).enabled_modifiers == old(self).enabled_modifiers,
            final(self).settings == old(self).settings,
            ops_view(ops@) == redraw_ops(
                grid_view(old(self).buffer@),
                old(self).cursor_position,
                None,
                old(self).cursor_shape,
                old(self).enabled_modifiers.bits,
                old(self).settings,
            ),
    {
        match self.cursor_position.take() {
            Some(pos) => self.redraw(pos),
            None => Vec::new(),
        }
    }

    /// Returns the operations that redraw the cell under the cursor with the cursor.
    pub fn show_cursor(&mut self) -> (ops: Vec<CanvasOp>)
        requires
            redraw_fits(
                grid_view(old(self).buffer@),
                old(self).cursor_position,
                old(self).cursor_position,
                old(self).cursor_shape,
                old(self).enabled_modifiers.bits,
                old(self).settings,
            ),
        ensures
            grid_view(final(self).buffer@) == grid_view(old(self).buffer@),
            final(self).cursor_position == old(self).cursor_position,
            final(self).cursor_shape == old(self).cursor_shape,
            final(self).debug_mode == old(self).debug_mode,
            final(self).enabled_modifiers == old(self).enabled_modifiers,
            final(self).settings == old(self).settings,
            ops_view(ops@) == redraw_ops(
                grid_view(old(self).buffer@),
                old(self).cursor_position,
                old(self).cursor_position,
                old(self).cursor_shape,
                old(self).enabled_modifiers.bits,
                old(self).settings,
            ),
    {
        match self.cursor_position {
            Some(pos) => self.redraw(pos),
            None => Vec::new(),
        }
    }

    /// Moves the cursor: the old cell is redrawn without it, then the new
    /// cell with it.
    pub fn set_cursor_position(&mut self, position: Position) -> (ops: Vec<CanvasOp>)
        requires
            redraw_fits(
                grid_view(old(self).buffer@),
                old(self).cursor_position,
                None,
                old(self).cursor_shape,
                old(self).enabled_modifiers.bits,
                old(self).settings,
            ),
            redraw_fits(
                grid_view(old(self).buffer@),
                Some(position),
                Some(position),
                old(self).cursor_shape,
                old(self).enabled_modifiers.bits,
                old(self).settings,
            ),
        ensures
            grid_view(final(self).buffer@) == grid_view(old(self).buffer@),
            final(self).cursor_position == Some(position),
            final(self).cursor_shape == old(self).cursor_shape,
            final(self).debug_mode == old(self).debug_mode,
            final(self).enabled_modifiers == old(self).enabled_modifiers,
            final(self).settings == old(self).settings,
            ops_view(ops@) == redraw_ops(
                grid_view(old(self).buffer@),
                old(self).cursor_position,
                None,
                old(self).cursor_shape,
                old(self).enabled_modifiers.bits,
                old(self).settings,
            ) + redraw_ops(
                grid_view(old(self).buffer@),
                Some(position),
                Some(position),
                old(self).cursor_shape,
                old(self).enabled_modifiers.bits,
                old(self).settings,
            ),
    {
        let mut ops = self.hide_cursor();
        self.cursor_position = Some(position);
        let mut shown = self.show_cursor();
        let ghost a = ops_view(ops@);
        let ghost b = ops_view(shown@);
        ops.append(&mut shown);
        assert(ops_view(ops@) =~= a + b);
        ops
    }

    /// Clears the canvas and empties every cell.
    pub fn clear(&mut self) -> (ops: Vec<CanvasOp>)
        ensures
            grid_view(final(self).buffer@) == cleared_grid(grid_view(old(self).buffer@)),
            final(self).cursor_position == old(self).cursor_position,
            final(self).cursor_shape == old(self).cursor_shape,
            final(self).debug_mode == old(self).debug_mode,
            final(self).enabled_modifiers == old(self).enabled_modifiers,
            final(self).settings == old(self).settings,
            ops_view(ops@) == seq![OpView::ClearRect],
    {
        let ghost g0 = grid_view(self.buffer@);
        let n = self.buffer.len();
        let mut y: usize = 0;
        while y < n
            invariant
                self.cursor_position == old(self).cursor_position,
                self.cursor_shape == old(self).cursor_shape,
                self.debug_mode == old(self).debug_mode,
                self.enabled_modifiers == old(self).enabled_modifiers,
                self.settings == old(self).settings,
                n == self.buffer@.len(),
                g0 == grid_view(old(self).buffer@),
                n == g0.len(),
                y <= n,
                forall|k: int| 0 <= k < y ==> row_view(#[trigger] self.buffer@[k]@) == blank_row(g0[k].len()),
                forall|k: int| y <= k < n ==> row_view(#[trigger] self.buffer@[k]@) == g0[k],
            decreases n - y,
        {
            let w = self.buffer[y].len();
            assert(row_view(self.buffer@[y as int]@).len() == w);
            self.buffer.set(y, default_row(w));
            y = y + 1;
        }
        assert(grid_view(self.buffer@) =~= cleared_grid(g0));
        let mut ops = Vec::new();
        ops.push(CanvasOp::ClearRect);
        assert(ops_view(ops@) =~= seq![OpView::ClearRect]);
        ops
    }

    /// The operations that outline every cell in the debug color.
    pub fn debug_plan(&self) -> (ops: Vec<CanvasOp>)
        requires
            self.debug_mode is Some,
            debug_fits(grid_size(grid_view(self.buffer@)), self.settings.metrics),
        ensures
            ops_view(ops@) == seq![OpView::Save] + debug_grid_ops(
                grid_size(grid_view(self.buffer@)).height as nat,
                grid_size(grid_view(self.buffer@)).width as nat,
                self.debug_mode.unwrap()@,
                self.settings,
            ) + seq![OpView::Restore],
    {
        let s = self.settings;
        let color = match &self.debug_mode {
            Some(c) => c,
            None => { return Vec::new(); },
        };
        let size = self.buffer_size();
        let mut ops = Vec::new();
        ops.push(CanvasOp::Save);
        let ghost head = ops_view(ops@);
        assert(head =~= seq![OpView::Save]);
        let mut y: u16 = 0;
        while y < size.height
            invariant
                y <= size.height,
                debug_fits(size, s.metrics),
                ops_view(ops@) == head + debug_grid_ops(y as nat, size.width as nat, color@, s),
            decreases size.height - y,
        {
            let ghost row_start = ops_view(ops@);
            let mut x: u16 = 0;
            while x < size.width
                invariant
                    x <= size.width,
                    y < size.height,
                    debug_fits(size, s.metrics),
                    ops_view(ops@) == row_start + debug_row_ops(y, x as nat, color@, s),
                decreases size.width - x,
            {
                proof {
                    assert(x * s.metrics.cell_width <= (size.width - 1) * s.metrics.cell_width) by (nonlinear_arith)
                        requires x <= size.width - 1;
                    assert(y * s.metrics.cell_height <= (size.height - 1) * s.metrics.cell_height) by (nonlinear_arith)
                        requires y <= size.height - 1;
                }
                let ghost before = ops_view(ops@);
                ops.push(CanvasOp::SetStrokeStyleStr(color.clone()));
                ops.push(CanvasOp::StrokeRect(x * s.metrics.cell_width, y * s.metrics.cell_height, s.metrics.cell_width, s.metrics.cell_height));
                x = x + 1;
                assert(ops_view(ops@) =~= before + seq![
                    OpView::SetStrokeStyleStr(color@),
                    OpView::StrokeRect(px((x - 1) as u16, s), py(y, s), s.metrics.cell_width, s.metrics.cell_height),
                ]);
            }
            y = y + 1;
            assert(ops_view(ops@) =~= head + debug_grid_ops(y as nat, size.width as nat, color@, s));
        }
        let ghost body = ops_view(ops@);
        ops.push(CanvasOp::Restore);
        assert(ops_view(ops@) =~= body.push(OpView::Restore));
        ops
    }

    /// The operations a flush draws before the canvas shows them: the debug
    /// outlines when debug mode is on, nothing otherwise.
    pub fn flush_plan(&self) -> (ops: Vec<CanvasOp>)
        requires
            self.debug_mode is Some ==> debug_fits(grid_size(grid_view(self.buffer@)), self.settings.metrics),
        ensures
            self.debug_mode is None ==> ops@.len() == 0,
            self.debug_mode is Some ==> ops_view(ops@) == seq![OpView::Save] + debug_grid_ops(
                grid_size(grid_view(self.buffer@)).height as nat,
                grid_size(grid_view(self.buffer@)).width as nat,
                self.debug_mode.unwrap()@,
                self.settings,
            ) + seq![OpView::Restore],
    {
        if self.debug_mode.is_some() {
            self.debug_plan()
        } else {
            Vec::new()
        }
    }
}

} // verus!
