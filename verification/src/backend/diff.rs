//! Which cells of a grid must be redrawn against the grid on screen.

use vstd::prelude::*;
use crate::style::{grid_view, row_view, Cell, CellView};
use crate::widgets::{is_hyperlink, is_link};

verus! {

/// One cell to redraw: the cell at column `x` of row `y`, the `index`-th in
/// row order when each row is as wide as the first.
#[derive(Debug, Clone, Copy, PartialEq, Eq, Structural)]
pub struct CellUpdate {
    pub x: usize,
    pub y: usize,
    pub index: usize,
}

/// Whether a cell must be redrawn: always when everything is redrawn;
/// otherwise when it differs from the cell on screen and is not a hyperlink
/// cell that is left alone.
pub open spec fn needs_update(c: CellView, p: CellView, skip_links: bool, all: bool) -> bool {
    all || (!(skip_links && is_link(c)) && c != p)
}

/// The updates of the first `k` cells of row `y`, spans numbered as if each
/// row were `w` cells wide.
pub open spec fn row_updates(y: int, row: Seq<CellView>, prev: Seq<CellView>, w: int, skip_links: bool, all: bool, k: int) -> Seq<CellUpdate>
    decreases k,
{
    if k <= 0 {
        seq![]
    } else {
        let rest = row_updates(y, row, prev, w, skip_links, all, k - 1);
        let x = k - 1;
        if needs_update(row[x], prev[x], skip_links, all) {
            rest.push(CellUpdate { x: x as usize, y: y as usize, index: (y * w + x) as usize })
        } else {
            rest
        }
    }
}

/// The updates of the first `k` rows of a grid against the grid on screen,
/// spans numbered by the length of the first row.
pub open spec fn grid_updates(g: Seq<Seq<CellView>>, p: Seq<Seq<CellView>>, skip_links: bool, all: bool, k: int) -> Seq<CellUpdate>
    decreases k,
{
    if k <= 0 {
        seq![]
    } else {
        grid_updates(g, p, skip_links, all, k - 1) + row_updates(k - 1, g[k - 1], p[k - 1], g[0].len() as int, skip_links, all, g[k - 1].len() as int)
    }
}

/// Whether the grid on screen reaches every cell of the grid, and every span
/// number fits in a `usize`.
pub open spec fn updatable(g: Seq<Seq<CellView>>, p: Seq<Seq<CellView>>) -> bool {
    &&& g.len() <= p.len()
    &&& forall|y: int| 0 <= y < g.len() ==> (#[trigger] g[y]).len() <= p[y].len()
    &&& forall|y: int| 0 <= y < g.len() ==> y * g[0].len() + (#[trigger] g[y]).len() <= usize::MAX
}

/// The span updates of one row.
fn row_updates_exec(
    out: &mut Vec<CellUpdate>,
    y: usize,
    row: &Vec<Cell>,
    prev: &Vec<Cell>,
    w: usize,
    skip_links: bool,
    all: bool,
)
    requires
        row@.len() <= prev@.len(),
        y * w + row@.len() <= usize::MAX,
    ensures
        final(out)@ == old(out)@ + row_updates(
            y as int,
            row_view(row@),
            row_view(prev@),
            w as int,
            skip_links,
            all,
            row@.len() as int,
        ),
{
    let ghost o0 = out@;
    let n = row.len();
    let base = y * w;
    let mut x: usize = 0;
    while x < n
        invariant
            n == row@.len(),
            n <= prev@.len(),
            base == y * w,
            base + n <= usize::MAX,
            x <= n,
            out@ == o0 + row_updates(y as int, row_view(row@), row_view(prev@), w as int, skip_links, all, x as int),
        decreases n - x,
    {
        let ghost before = out@;
        let c = &row[x];
        if all || (!(skip_links && is_hyperlink(c.modifier)) && !c.same_as(&prev[x])) {
            out.push(CellUpdate { x, y, index: base + x });
        }
        proof {
            assert(row_view(row@)[x as int] == row@[x as int]@);
            assert(row_view(prev@)[x as int] == prev@[x as int]@);
            assert(out@ =~= o0 + row_updates(y as int, row_view(row@), row_view(prev@), w as int, skip_links, all, x + 1));
        }
        x = x + 1;
    }
}

/// An unchanged grid needs no updates unless everything is redrawn.
pub proof fn lemma_no_updates_when_unchanged(g: Seq<Seq<CellView>>, skip_links: bool, k: int)
    requires
        0 <= k <= g.len(),
    ensures
        grid_updates(g, g, skip_links, false, k) == Seq::<CellUpdate>::empty(),
    decreases k,
{
    if k > 0 {
        lemma_no_updates_when_unchanged(g, skip_links, k - 1);
        lemma_no_row_updates_when_unchanged(k - 1, g[k - 1], g[0].len() as int, skip_links, g[k - 1].len() as int);
        assert(grid_updates(g, g, skip_links, false, k) =~= Seq::<CellUpdate>::empty());
    }
}

proof fn lemma_no_row_updates_when_unchanged(y: int, row: Seq<CellView>, w: int, skip_links: bool, k: int)
    ensures
        row_updates(y, row, row, w, skip_links, false, k) == Seq::<CellUpdate>::empty(),
    decreases k,
{
    if k > 0 {
        lemma_no_row_updates_when_unchanged(y, row, w, skip_links, k - 1);
    }
}

/// Each update of the first `k` cells of a row carries the row, a column
/// below `k` whose cell must be redrawn, and its span number.
proof fn lemma_row_update_elem(
    y: int,
    row: Seq<CellView>,
    prev: Seq<CellView>,
    w: int,
    skip_links: bool,
    all: bool,
    k: int,
    i: int,
)
    requires
        0 <= k <= row.len(),
        0 <= y <= usize::MAX,
        row.len() <= usize::MAX,
        0 <= i < row_updates(y, row, prev, w, skip_links, all, k).len(),
    ensures
        ({
            let u = row_updates(y, row, prev, w, skip_links, all, k)[i];
            &&& u.y == y as usize
            &&& (u.x as int) < k
            &&& u.index == (y * w + u.x) as usize
            &&& (all || (!(skip_links && is_link(row[u.x as int])) && row[u.x as int] != prev[u.x as int]))
        }),
    decreases k,
{
    let rest = row_updates(y, row, prev, w, skip_links, all, k - 1);
    let x0 = k - 1;
    let u0 = CellUpdate { x: x0 as usize, y: y as usize, index: (y * w + x0) as usize };
    if needs_update(row[x0], prev[x0], skip_links, all) {
        assert(row_updates(y, row, prev, w, skip_links, all, k) == rest.push(u0));
        if i < rest.len() {
            lemma_row_update_elem(y, row, prev, w, skip_links, all, k - 1, i);
        }
    } else {
        assert(row_updates(y, row, prev, w, skip_links, all, k) == rest);
        lemma_row_update_elem(y, row, prev, w, skip_links, all, k - 1, i);
    }
}

/// The cell at column `x` below `k` has an update among those of the first
/// `k` cells of a row if and only if it must be redrawn: everything is
/// redrawn, or it differs from the cell on screen in its whole view and is
/// not a hyperlink cell left alone.
proof fn lemma_row_update_member(
    y: int,
    row: Seq<CellView>,
    prev: Seq<CellView>,
    w: int,
    skip_links: bool,
    all: bool,
    k: int,
    x: int,
)
    requires
        0 <= k <= row.len(),
        0 <= y <= usize::MAX,
        row.len() <= usize::MAX,
        0 <= x < k,
    ensures
        row_updates(y, row, prev, w, skip_links, all, k).contains(
            CellUpdate { x: x as usize, y: y as usize, index: (y * w + x) as usize },
        ) <==> (all || (!(skip_links && is_link(row[x])) && row[x] != prev[x])),
    decreases k,
{
    broadcast use vstd::seq_lib::lemma_seq_contains_after_push;
    let rest = row_updates(y, row, prev, w, skip_links, all, k - 1);
    let x0 = k - 1;
    let u0 = CellUpdate { x: x0 as usize, y: y as usize, index: (y * w + x0) as usize };
    let v = CellUpdate { x: x as usize, y: y as usize, index: (y * w + x) as usize };
    let s = row_updates(y, row, prev, w, skip_links, all, k);
    if needs_update(row[x0], prev[x0], skip_links, all) {
        assert(s == rest.push(u0));
    } else {
        assert(s == rest);
    }
    if x < x0 {
        lemma_row_update_member(y, row, prev, w, skip_links, all, k - 1, x);
        assert(v.x != u0.x);
    } else if !needs_update(row[x0], prev[x0], skip_links, all) && rest.contains(v) {
        let i = choose|i: int| 0 <= i < rest.len() && rest[i] == v;
        lemma_row_update_elem(y, row, prev, w, skip_links, all, k - 1, i);
    }
}

/// A cell of the grid has an update if and only if it must be redrawn: the
/// cell at column `x` of row `y` is among the updates, with span number `y`
/// times the first row's length plus `x`, exactly when everything is redrawn
/// or it differs from the cell on screen in its whole view (symbol, colors,
/// underline color, modifiers, skip flag) and is not a hyperlink cell left
/// alone.
pub proof fn lemma_cell_update_iff_changed(
    g: Seq<Seq<CellView>>,
    p: Seq<Seq<CellView>>,
    skip_links: bool,
    all: bool,
    y: int,
    x: int,
)
    requires
        updatable(g, p),
        g.len() <= usize::MAX,
        0 <= y < g.len(),
        0 <= x < g[y].len(),
    ensures
        grid_updates(g, p, skip_links, all, g.len() as int).contains(
            CellUpdate { x: x as usize, y: y as usize, index: (y * g[0].len() + x) as usize },
        ) <==> (all || (!(skip_links && is_link(g[y][x])) && g[y][x] != p[y][x])),
{
    lemma_grid_update_member(g, p, skip_links, all, g.len() as int, y, x);
}

/// Every update is of a cell of the grid that must be redrawn, and carries
/// its span number: row times the first row's length plus column.
pub proof fn lemma_update_is_of_changed_cell(
    g: Seq<Seq<CellView>>,
    p: Seq<Seq<CellView>>,
    skip_links: bool,
    all: bool,
    i: int,
)
    requires
        updatable(g, p),
        g.len() <= usize::MAX,
        0 <= i < grid_updates(g, p, skip_links, all, g.len() as int).len(),
    ensures
        ({
            let u = grid_updates(g, p, skip_links, all, g.len() as int)[i];
            &&& (u.y as int) < g.len()
            &&& (u.x as int) < g[u.y as int].len()
            &&& u.index == (u.y * g[0].len() + u.x) as usize
            &&& (all || (!(skip_links && is_link(g[u.y as int][u.x as int])) && g[u.y as int][u.x as int]
                != p[u.y as int][u.x as int]))
        }),
{
    lemma_grid_update_elem(g, p, skip_links, all, g.len() as int, i);
}

/// Each update of the first `k` rows carries a row below `k`, a column of
/// that row whose cell must be redrawn, and its span number.
proof fn lemma_grid_update_elem(g: Seq<Seq<CellView>>, p: Seq<Seq<CellView>>, skip_links: bool, all: bool, k: int, i: int)
    requires
        updatable(g, p),
        g.len() <= usize::MAX,
        0 <= k <= g.len(),
        0 <= i < grid_updates(g, p, skip_links, all, k).len(),
    ensures
        ({
            let u = grid_updates(g, p, skip_links, all, k)[i];
            &&& (u.y as int) < k
            &&& (u.x as int) < g[u.y as int].len()
            &&& u.index == (u.y * g[0].len() + u.x) as usize
            &&& (all || (!(skip_links && is_link(g[u.y as int][u.x as int])) && g[u.y as int][u.x as int] != p[u.y as int][u.x as int]))
        }),
    decreases k,
{
    let y0 = k - 1;
    let w = g[0].len() as int;
    let a = grid_updates(g, p, skip_links, all, k - 1);
    let b = row_updates(y0, g[y0], p[y0], w, skip_links, all, g[y0].len() as int);
    assert(grid_updates(g, p, skip_links, all, k) == a + b);
    if i < a.len() {
        assert((a + b)[i] == a[i]);
        lemma_grid_update_elem(g, p, skip_links, all, k - 1, i);
    } else {
        assert((a + b)[i] == b[i - a.len()]);
        assert(y0 * w + g[y0].len() <= usize::MAX);
        lemma_row_update_elem(y0, g[y0], p[y0], w, skip_links, all, g[y0].len() as int, i - a.len());
    }
}

/// The cell at column `x` of row `y` below `k` has an update among those of
/// the first `k` rows if and only if it must be redrawn.
proof fn lemma_grid_update_member(g: Seq<Seq<CellView>>, p: Seq<Seq<CellView>>, skip_links: bool, all: bool, k: int, y: int, x: int)
    requires
        updatable(g, p),
        g.len() <= usize::MAX,
        0 <= k <= g.len(),
        0 <= y < k,
        0 <= x < g[y].len(),
    ensures
        grid_updates(g, p, skip_links, all, k).contains(
            CellUpdate { x: x as usize, y: y as usize, index: (y * g[0].len() + x) as usize },
        ) <==> (all || (!(skip_links && is_link(g[y][x])) && g[y][x] != p[y][x])),
    decreases k,
{
    broadcast use vstd::seq_lib::lemma_seq_concat_contains_all_elements;
    let y0 = k - 1;
    let w = g[0].len() as int;
    let a = grid_updates(g, p, skip_links, all, k - 1);
    let b = row_updates(y0, g[y0], p[y0], w, skip_links, all, g[y0].len() as int);
    let v = CellUpdate { x: x as usize, y: y as usize, index: (y * g[0].len() + x) as usize };
    assert(grid_updates(g, p, skip_links, all, k) == a + b);
    assert(y0 * w + g[y0].len() <= usize::MAX);
    if y < y0 {
        lemma_grid_update_member(g, p, skip_links, all, k - 1, y, x);
        if b.contains(v) {
            let j = choose|j: int| 0 <= j < b.len() && b[j] == v;
            lemma_row_update_elem(y0, g[y0], p[y0], w, skip_links, all, g[y0].len() as int, j);
        }
    } else {
        lemma_row_update_member(y0, g[y0], p[y0], w, skip_links, all, g[y0].len() as int, x);
        if a.contains(v) {
            let j = choose|j: int| 0 <= j < a.len() && a[j] == v;
            lemma_grid_update_elem(g, p, skip_links, all, k - 1, j);
        }
    }
}

/// The cells to redraw, in row order: every cell when `all` is set, otherwise
/// each cell that differs from the one on screen, hyperlink cells left out
/// when `skip_links` is set.
pub fn cell_updates(buffer: &Vec<Vec<Cell>>, prev: &Vec<Vec<Cell>>, skip_links: bool, all: bool) -> (updates: Vec<CellUpdate>)
    requires
        updatable(grid_view(buffer@), grid_view(prev@)),
    ensures
        updates@ == grid_updates(grid_view(buffer@), grid_view(prev@), skip_links, all, buffer@.len() as int),
{
    let ghost g = grid_view(buffer@);
    let ghost p = grid_view(prev@);
    let mut updates: Vec<CellUpdate> = Vec::new();
    let n = buffer.len();
    let w = if n > 0 { buffer[0].len() } else { 0 };
    let mut y: usize = 0;
    while y < n
        invariant
            n == buffer@.len(),
            g == grid_view(buffer@),
            p == grid_view(prev@),
            n > 0 ==> w == g[0].len(),
            updatable(g, p),
            y <= n,
            updates@ == grid_updates(g, p, skip_links, all, y as int),
        decreases n - y,
    {
        assert(g[y as int].len() <= p[y as int].len());
        assert(y * w + g[y as int].len() <= usize::MAX);
        row_updates_exec(&mut updates, y, &buffer[y], &prev[y], w, skip_links, all);
        y = y + 1;
    }
    updates
}

} // verus!
