//! Plain-value models of the terminal styling types: colors, modifier sets,
//! styles, cells and geometry.

use vstd::prelude::*;

verus! {

/// A terminal color.
#[derive(Debug, Clone, Copy, PartialEq, Eq, Structural)]
pub enum Color {
    /// Resets the color to the terminal default.
    Reset,
    Black,
    Red,
    Green,
    Yellow,
    Blue,
    Magenta,
    Cyan,
    Gray,
    DarkGray,
    LightRed,
    LightGreen,
    LightYellow,
    LightBlue,
    LightMagenta,
    LightCyan,
    White,
    /// A 24-bit color.
    Rgb(u8, u8, u8),
    /// An entry of the 256-color palette.
    Indexed(u8),
}

/// A set of text modifiers, held as bits.
#[derive(Debug, Clone, Copy, PartialEq, Eq, Structural)]
pub struct Modifier {
    pub bits: u16,
}

/// Bit of the bold modifier.
pub const BOLD: u16 = 0x001;
/// Bit of the dim modifier.
pub const DIM: u16 = 0x002;
/// Bit of the italic modifier.
pub const ITALIC: u16 = 0x004;
/// Bit of the underline modifier.
pub const UNDERLINED: u16 = 0x008;
/// Bit of the slow-blink modifier.
pub const SLOW_BLINK: u16 = 0x010;
/// Bit of the rapid-blink modifier.
pub const RAPID_BLINK: u16 = 0x020;
/// Bit of the reversed-video modifier.
pub const REVERSED: u16 = 0x040;
/// Bit of the hidden modifier.
pub const HIDDEN: u16 = 0x080;
/// Bit of the crossed-out modifier.
pub const CROSSED_OUT: u16 = 0x100;

impl Modifier {
    /// The set holding the given bits.
    pub fn from_bits(bits: u16) -> (r: Modifier)
        ensures
            r.bits == bits,
    {
        Modifier { bits }
    }

    /// The empty set.
    pub fn empty() -> (r: Modifier)
        ensures
            r.bits == 0,
    {
        Modifier { bits: 0 }
    }

    /// Whether no modifier is set.
    pub fn is_empty(self) -> (r: bool)
        ensures
            r == (self.bits == 0),
    {
        self.bits == 0
    }

    /// Whether every modifier of `other` is set in `self`.
    pub fn contains(self, other: Modifier) -> (r: bool)
        ensures
            r == (self.bits & other.bits == other.bits),
    {
        self.bits & other.bits == other.bits
    }

    /// The modifiers set in either.
    pub fn union(self, other: Modifier) -> (r: Modifier)
        ensures
            r.bits == self.bits | other.bits,
    {
        Modifier { bits: self.bits | other.bits }
    }

    /// The modifiers set in both.
    pub fn intersection(self, other: Modifier) -> (r: Modifier)
        ensures
            r.bits == self.bits & other.bits,
    {
        Modifier { bits: self.bits & other.bits }
    }

    /// The modifiers of `self` that are not in `other`.
    pub fn difference(self, other: Modifier) -> (r: Modifier)
        ensures
            r.bits == self.bits & !other.bits,
    {
        Modifier { bits: self.bits & !other.bits }
    }

    /// The modifiers set in exactly one of the two.
    pub fn symmetric_difference(self, other: Modifier) -> (r: Modifier)
        ensures
            r.bits == self.bits ^ other.bits,
    {
        Modifier { bits: self.bits ^ other.bits }
    }
}

/// A style: colors that override, modifiers to add and to remove.
#[derive(Debug, Clone, Copy, PartialEq, Eq, Structural)]
pub struct Style {
    pub fg: Option<Color>,
    pub bg: Option<Color>,
    pub underline_color: Option<Color>,
    pub add_modifier: Modifier,
    pub sub_modifier: Modifier,
}

impl Style {
    /// The style that changes nothing.
    pub fn new() -> (r: Style)
        ensures
            r.fg is None,
            r.bg is None,
            r.underline_color is None,
            r.add_modifier.bits == 0,
            r.sub_modifier.bits == 0,
    {
        Style {
            fg: None,
            bg: None,
            underline_color: None,
            add_modifier: Modifier::empty(),
            sub_modifier: Modifier::empty(),
        }
    }

    /// Sets the foreground color.
    pub fn fg(self, color: Color) -> (r: Style)
        ensures
            r == (Style { fg: Some(color), ..self }),
    {
        Style { fg: Some(color), ..self }
    }

    /// Sets the background color.
    pub fn bg(self, color: Color) -> (r: Style)
        ensures
            r == (Style { bg: Some(color), ..self }),
    {
        Style { bg: Some(color), ..self }
    }

    /// Adds the given modifiers and stops removing them.
    pub fn add_modifier(self, m: Modifier) -> (r: Style)
        ensures
            r.fg == self.fg,
            r.bg == self.bg,
            r.underline_color == self.underline_color,
            r.add_modifier.bits == self.add_modifier.bits | m.bits,
            r.sub_modifier.bits == self.sub_modifier.bits & !m.bits,
    {
        Style {
            sub_modifier: self.sub_modifier.difference(m),
            add_modifier: self.add_modifier.union(m),
            ..self
        }
    }

    /// Removes the given modifiers and stops adding them.
    pub fn remove_modifier(self, m: Modifier) -> (r: Style)
        ensures
            r.fg == self.fg,
            r.bg == self.bg,
            r.underline_color == self.underline_color,
            r.add_modifier.bits == self.add_modifier.bits & !m.bits,
            r.sub_modifier.bits == self.sub_modifier.bits | m.bits,
    {
        Style {
            add_modifier: self.add_modifier.difference(m),
            sub_modifier: self.sub_modifier.union(m),
            ..self
        }
    }
}

/// The abstract value of a cell: its symbol as characters.
pub struct CellView {
    pub symbol: Seq<char>,
    pub fg: Color,
    pub bg: Color,
    pub underline_color: Color,
    pub modifier: Modifier,
    pub skip: bool,
}

/// One cell of a terminal buffer.
#[derive(Debug)]
pub struct Cell {
    pub symbol: String,
    pub fg: Color,
    pub bg: Color,
    pub underline_color: Color,
    pub modifier: Modifier,
    pub skip: bool,
}

impl View for Cell {
    type V = CellView;

    open spec fn view(&self) -> CellView {
        CellView {
            symbol: self.symbol@,
            fg: self.fg,
            bg: self.bg,
            underline_color: self.underline_color,
            modifier: self.modifier,
            skip: self.skip,
        }
    }
}

/// The view of the empty cell: a space with reset colors and no modifiers.
pub open spec fn default_cell_view() -> CellView {
    CellView {
        symbol: seq![' '],
        fg: Color::Reset,
        bg: Color::Reset,
        underline_color: Color::Reset,
        modifier: Modifier { bits: 0 },
        skip: false,
    }
}

/// The style that a cell carries.
pub open spec fn cell_style(c: CellView) -> Style {
    Style {
        fg: Some(c.fg),
        bg: Some(c.bg),
        underline_color: Some(c.underline_color),
        add_modifier: c.modifier,
        sub_modifier: Modifier { bits: 0 },
    }
}

/// A cell after a style is applied to it.
pub open spec fn apply_style(c: CellView, s: Style) -> CellView {
    CellView {
        fg: match s.fg { Some(x) => x, None => c.fg },
        bg: match s.bg { Some(x) => x, None => c.bg },
        underline_color: match s.underline_color { Some(x) => x, None => c.underline_color },
        modifier: Modifier { bits: (c.modifier.bits | s.add_modifier.bits) & !s.sub_modifier.bits },
        ..c
    }
}

impl Clone for Cell {
    fn clone(&self) -> (r: Cell)
        ensures
            r == *self,
    {
        Cell {
            symbol: self.symbol.clone(),
            fg: self.fg,
            bg: self.bg,
            underline_color: self.underline_color,
            modifier: self.modifier,
            skip: self.skip,
        }
    }
}

impl Cell {
    /// The empty cell: a space with reset colors and no modifiers.
    pub fn new_default() -> (r: Cell)
        ensures
            r@ == default_cell_view(),
    {
        let s = " ";
        proof {
            reveal_strlit(" ");
            assert(s@ =~= seq![' ']);
        }
        Cell {
            symbol: String::from_str(s),
            fg: Color::Reset,
            bg: Color::Reset,
            underline_color: Color::Reset,
            modifier: Modifier::empty(),
            skip: false,
        }
    }

    /// The cell's symbol.
    pub fn symbol(&self) -> (r: &str)
        ensures
            r@ == self.symbol@,
    {
        self.symbol.as_str()
    }

    /// The style the cell carries.
    pub fn style(&self) -> (r: Style)
        ensures
            r == cell_style(self@),
    {
        Style {
            fg: Some(self.fg),
            bg: Some(self.bg),
            underline_color: Some(self.underline_color),
            add_modifier: self.modifier,
            sub_modifier: Modifier::empty(),
        }
    }

    /// Applies a style: its colors replace the cell's, its added modifiers are
    /// inserted and then its removed modifiers are taken out.
    pub fn set_style(&mut self, style: Style)
        ensures
            final(self)@ == apply_style(old(self)@, style),
    {
        if let Some(c) = style.fg {
            self.fg = c;
        }
        if let Some(c) = style.bg {
            self.bg = c;
        }
        if let Some(c) = style.underline_color {
            self.underline_color = c;
        }
        self.modifier = self.modifier.union(style.add_modifier).difference(style.sub_modifier);
    }

    /// Whether two cells hold the same symbol, colors, modifiers and skip flag.
    pub fn same_as(&self, other: &Cell) -> (r: bool)
        ensures
            r == (self@ == other@),
    {
        self.symbol == other.symbol && self.fg == other.fg && self.bg == other.bg
            && self.underline_color == other.underline_color && self.modifier == other.modifier
            && self.skip == other.skip
    }
}

/// The views of a row of cells.
pub open spec fn row_view(r: Seq<Cell>) -> Seq<CellView> {
    Seq::new(r.len(), |i: int| r[i]@)
}

/// The views of a grid of cells, row by row.
pub open spec fn grid_view(g: Seq<Vec<Cell>>) -> Seq<Seq<CellView>> {
    Seq::new(g.len(), |i: int| row_view(g[i]@))
}

/// A grid with the cell at column `x` of row `y` replaced, when that cell exists.
pub open spec fn grid_put(g: Seq<Seq<CellView>>, x: int, y: int, c: CellView) -> Seq<Seq<CellView>> {
    if 0 <= y < g.len() && 0 <= x < g[y].len() {
        g.update(y, g[y].update(x, c))
    } else {
        g
    }
}

/// Replaces the cell at column `x` of row `y`, when that cell exists.
pub fn put_cell(grid: &mut Vec<Vec<Cell>>, x: usize, y: usize, cell: Cell)
    ensures
        grid_view(final(grid)@) == grid_put(grid_view(old(grid)@), x as int, y as int, cell@),
{
    if y < grid.len() && x < grid[y].len() {
        grid[y].set(x, cell);
        assert(grid_view(grid@) =~= grid_put(grid_view(old(grid)@), x as int, y as int, cell@)) by {
            assert(row_view(grid@[y as int]@) =~= row_view(old(grid)@[y as int]@).update(x as int, cell@));
        }
    } else {
        assert(grid_view(grid@) =~= grid_put(grid_view(old(grid)@), x as int, y as int, cell@));
    }
}

/// A row of `w` empty cells.
pub open spec fn blank_row(w: nat) -> Seq<CellView> {
    Seq::new(w, |i: int| default_cell_view())
}

/// A grid of `h` rows of `w` empty cells.
pub open spec fn blank_grid(w: nat, h: nat) -> Seq<Seq<CellView>> {
    Seq::new(h, |i: int| blank_row(w))
}

/// A row of `w` empty cells.
pub fn default_row(w: usize) -> (r: Vec<Cell>)
    ensures
        row_view(r@) == blank_row(w as nat),
{
    let mut r: Vec<Cell> = Vec::new();
    let mut i: usize = 0;
    while i < w
        invariant
            i <= w,
            row_view(r@) == blank_row(i as nat),
        decreases w - i,
    {
        let ghost prev = r@;
        let c = Cell::new_default();
        r.push(c);
        i = i + 1;
        assert forall|k: int| 0 <= k < r@.len() implies r@[k]@ == default_cell_view() by {
            assert(r@ == prev.push(c));
            if k < prev.len() {
                assert(r@[k] == prev[k]);
                assert(row_view(prev)[k] == prev[k]@);
                assert(row_view(prev) == blank_row((i - 1) as nat));
                assert(blank_row((i - 1) as nat)[k] == default_cell_view());
            } else {
                assert(r@[k] == c);
            }
        }
        assert(row_view(prev).len() == prev.len());
        assert(r@.len() == i);
        assert(row_view(r@) =~= blank_row(i as nat));
    }
    r
}

/// A grid of `h` rows of `w` empty cells.
pub fn sized_grid(w: usize, h: usize) -> (g: Vec<Vec<Cell>>)
    ensures
        grid_view(g@) == blank_grid(w as nat, h as nat),
{
    let mut g: Vec<Vec<Cell>> = Vec::new();
    let mut i: usize = 0;
    while i < h
        invariant
            i <= h,
            grid_view(g@) == blank_grid(w as nat, i as nat),
        decreases h - i,
    {
        let ghost prev = g@;
        g.push(default_row(w));
        i = i + 1;
        assert forall|k: int| 0 <= k < g@.len() implies row_view(g@[k]@) == blank_row(w as nat) by {
            if k < prev.len() {
                assert(g@[k] == prev[k]);
                assert(grid_view(prev)[k] == row_view(prev[k]@));
                assert(grid_view(prev) == blank_grid(w as nat, (i - 1) as nat));
            }
        }
        assert(grid_view(prev).len() == prev.len());
        assert(grid_view(g@) =~= blank_grid(w as nat, i as nat));
    }
    g
}

/// A copy of a row of cells.
pub fn clone_row(r: &Vec<Cell>) -> (c: Vec<Cell>)
    ensures
        row_view(c@) == row_view(r@),
{
    let mut c: Vec<Cell> = Vec::new();
    let n = r.len();
    let mut i: usize = 0;
    while i < n
        invariant
            n == r@.len(),
            i <= n,
            c@.len() == i,
            forall|k: int| 0 <= k < i ==> (#[trigger] c@[k])@ == r@[k]@,
        decreases n - i,
    {
        c.push(r[i].clone());
        i = i + 1;
    }
    assert(row_view(c@) =~= row_view(r@));
    c
}

/// A copy of a grid of cells.
pub fn clone_grid(g: &Vec<Vec<Cell>>) -> (c: Vec<Vec<Cell>>)
    ensures
        grid_view(c@) == grid_view(g@),
{
    let mut c: Vec<Vec<Cell>> = Vec::new();
    let n = g.len();
    let mut i: usize = 0;
    while i < n
        invariant
            n == g@.len(),
            i <= n,
            c@.len() == i,
            forall|k: int| 0 <= k < i ==> row_view((#[trigger] c@[k])@) == row_view(g@[k]@),
        decreases n - i,
    {
        c.push(clone_row(&g[i]));
        i = i + 1;
    }
    assert(grid_view(c@) =~= grid_view(g@));
    c
}

/// Whether two rows hold the same cells.
pub fn rows_equal(a: &Vec<Cell>, b: &Vec<Cell>) -> (r: bool)
    ensures
        r == (row_view(a@) == row_view(b@)),
{
    let n = a.len();
    if n != b.len() {
        assert(row_view(a@).len() != row_view(b@).len());
        return false;
    }
    let mut i: usize = 0;
    while i < n
        invariant
            n == a@.len(),
            n == b@.len(),
            i <= n,
            forall|k: int| 0 <= k < i ==> (#[trigger] a@[k])@ == b@[k]@,
        decreases n - i,
    {
        if !a[i].same_as(&b[i]) {
            assert(row_view(a@)[i as int] != row_view(b@)[i as int]);
            return false;
        }
        i = i + 1;
    }
    assert(row_view(a@) =~= row_view(b@));
    true
}

/// Whether two grids hold the same rows.
pub fn grids_equal(a: &Vec<Vec<Cell>>, b: &Vec<Vec<Cell>>) -> (r: bool)
    ensures
        r == (grid_view(a@) == grid_view(b@)),
{
    let n = a.len();
    if n != b.len() {
        assert(grid_view(a@).len() != grid_view(b@).len());
        return false;
    }
    let mut i: usize = 0;
    while i < n
        invariant
            n == a@.len(),
            n == b@.len(),
            i <= n,
            forall|k: int| 0 <= k < i ==> row_view((#[trigger] a@[k])@) == row_view(b@[k]@),
        decreases n - i,
    {
        if !rows_equal(&a[i], &b[i]) {
            assert(grid_view(a@)[i as int] != grid_view(b@)[i as int]);
            return false;
        }
        i = i + 1;
    }
    assert(grid_view(a@) =~= grid_view(b@));
    true
}

/// A rectangle of cells.
#[derive(Debug, Clone, Copy, PartialEq, Eq, Structural)]
pub struct Rect {
    pub x: u16,
    pub y: u16,
    pub width: u16,
    pub height: u16,
}

impl Rect {
    /// A rectangle at (`x`, `y`), its width and height cut so that it ends
    /// within the coordinate range.
    pub fn new(x: u16, y: u16, width: u16, height: u16) -> (r: Rect)
        ensures
            r.x == x,
            r.y == y,
            r.width == (if width > u16::MAX - x { (u16::MAX - x) as u16 } else { width }),
            r.height == (if height > u16::MAX - y { (u16::MAX - y) as u16 } else { height }),
    {
        let max_width = u16::MAX - x;
        let max_height = u16::MAX - y;
        let width = if width > max_width { max_width } else { width };
        let height = if height > max_height { max_height } else { height };
        Rect { x, y, width, height }
    }

    /// The first column after the rectangle, at most `u16::MAX`.
    pub fn right(self) -> (r: u16)
        ensures
            r == (if self.x + self.width > u16::MAX { u16::MAX as int } else { self.x + self.width }),
    {
        self.x.saturating_add(self.width)
    }
}

/// A cell position: column and row.
#[derive(Debug, Clone, Copy, PartialEq, Eq, Structural)]
pub struct Position {
    pub x: u16,
    pub y: u16,
}

/// A size in cells.
#[derive(Debug, Clone, Copy, PartialEq, Eq, Structural)]
pub struct Size {
    pub width: u16,
    pub height: u16,
}

} // verus!
