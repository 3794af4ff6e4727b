//! Grids of cells: rows of possibly different lengths, and the row operations on them.

use vstd::prelude::*;
use crate::cell::{Cell, CellColor, blank_cell};

verus! {

/// The mathematical view of a grid: each row by its cells.
pub open spec fn grid_view(g: Seq<Vec<Cell>>) -> Seq<Seq<Cell>> {
    g.map_values(|r: Vec<Cell>| r@)
}

/// A row of `cols` blank cells.
pub open spec fn blank_row(cols: nat) -> Seq<Cell> {
    Seq::new(cols, |j: int| blank_cell())
}

/// A grid of `rows` blank rows of `cols` cells.
pub open spec fn blank_grid(rows: nat, cols: nat) -> Seq<Seq<Cell>> {
    Seq::new(rows, |i: int| blank_row(cols))
}

/// A row cut or padded with blanks to exactly `cols` cells.
pub open spec fn fit_row(r: Seq<Cell>, cols: nat) -> Seq<Cell> {
    Seq::new(cols, |j: int| if j < r.len() { r[j] } else { blank_cell() })
}

/// The row with every cell from column `c` on blanked.
pub open spec fn blank_from(r: Seq<Cell>, c: int) -> Seq<Cell> {
    Seq::new(r.len(), |j: int| if j >= c { blank_cell() } else { r[j] })
}

/// The row with every cell up to and including column `e` blanked.
pub open spec fn blank_through(r: Seq<Cell>, e: int) -> Seq<Cell> {
    Seq::new(r.len(), |j: int| if j <= e { blank_cell() } else { r[j] })
}

/// The row with every cell in columns `lo <= j < hi` blanked.
pub open spec fn blank_between(r: Seq<Cell>, lo: int, hi: int) -> Seq<Cell> {
    Seq::new(r.len(), |j: int| if lo <= j < hi { blank_cell() } else { r[j] })
}

/// At most `cols` cells of a row: a row longer than `cols` is cut.
pub open spec fn cut_row(r: Seq<Cell>, cols: nat) -> Seq<Cell> {
    if cols < r.len() { r.take(cols as int) } else { r }
}

/// Deleting `n` cells at column `col` (the cells to the right move left and
/// blanks come in at the end), then cutting to `cols` cells.
pub open spec fn delete_chars_row(r: Seq<Cell>, col: int, n: int, cols: nat) -> Seq<Cell> {
    if col < r.len() {
        let k = if n < r.len() - col { n } else { r.len() - col };
        cut_row(r.take(col) + r.skip(col + k) + blank_row(k as nat), cols)
    } else {
        cut_row(r, cols)
    }
}

/// Inserting `n` blanks at column `col` (the cells there move right), then
/// cutting to `cols` cells. A column beyond the end of the row inserts nothing.
pub open spec fn insert_chars_row(r: Seq<Cell>, col: int, n: nat, cols: nat) -> Seq<Cell> {
    if col <= r.len() {
        cut_row(r.take(col) + blank_row(n) + r.skip(col), cols)
    } else {
        cut_row(r, cols)
    }
}

/// Every row of the grid blanked, each keeping its length.
pub open spec fn blank_all_rows(g: Seq<Seq<Cell>>) -> Seq<Seq<Cell>> {
    Seq::new(g.len(), |i: int| blank_row(g[i].len()))
}

/// The grid with the rows `lo <= i < hi` blanked (each keeping its length).
pub open spec fn blank_rows_between(g: Seq<Seq<Cell>>, lo: int, hi: int) -> Seq<Seq<Cell>> {
    Seq::new(g.len(), |i: int| if lo <= i < hi { blank_row(g[i].len()) } else { g[i] })
}

pub fn new_blank_cell() -> (c: Cell)
    ensures
        c == blank_cell(),
{
    Cell {
        ch: ' ',
        fg: CellColor::Default,
        bg: CellColor::Default,
        bold: false,
        dim: false,
        italic: false,
        underline: false,
        inverse: false,
        wide_continuation: false,
    }
}

/// A new row of `cols` blank cells.
pub fn new_blank_row(cols: usize) -> (v: Vec<Cell>)
    ensures
        v@ == blank_row(cols as nat),
{
    let mut v: Vec<Cell> = Vec::new();
    let mut j: usize = 0;
    while j < cols
        invariant
            j <= cols,
            v@ == blank_row(j as nat),
        decreases cols - j,
    {
        v.push(new_blank_cell());
        j += 1;
    }
    v
}

/// A new grid of `rows` blank rows of `cols` cells.
pub fn new_blank_grid(rows: usize, cols: usize) -> (g: Vec<Vec<Cell>>)
    ensures
        grid_view(g@) == blank_grid(rows as nat, cols as nat),
{
    let mut g: Vec<Vec<Cell>> = Vec::new();
    let mut i: usize = 0;
    while i < rows
        invariant
            i <= rows,
            g@.len() == i,
            forall|k: int| 0 <= k < i ==> (#[trigger] g@[k])@ == blank_row(cols as nat),
        decreases rows - i,
    {
        let row = new_blank_row(cols);
        g.push(row);
        i += 1;
    }
    assert(grid_view(g@) =~~= blank_grid(rows as nat, cols as nat));
    g
}

/// Overwrites one cell of a grid.
pub fn set_cell(grid: &mut Vec<Vec<Cell>>, r: usize, c: usize, cell: Cell)
    requires
        r < old(grid)@.len(),
        c < old(grid)@[r as int]@.len(),
    ensures
        grid_view(final(grid)@) == grid_view(old(grid)@).update(
            r as int,
            grid_view(old(grid)@)[r as int].update(c as int, cell),
        ),
        final(grid)@.len() == old(grid)@.len(),
        final(grid)@[r as int]@.len() == old(grid)@[r as int]@.len(),
{
    grid[r].set(c, cell);
    assert(grid_view(grid@) =~~= grid_view(old(grid)@).update(
        r as int,
        grid_view(old(grid)@)[r as int].update(c as int, cell),
    ));
}

/// Replaces one row of a grid.
pub fn set_row(grid: &mut Vec<Vec<Cell>>, r: usize, row: Vec<Cell>)
    requires
        r < old(grid)@.len(),
    ensures
        grid_view(final(grid)@) == grid_view(old(grid)@).update(r as int, row@),
        final(grid)@.len() == old(grid)@.len(),
{
    let ghost row_view = row@;
    grid.set(r, row);
    assert(grid_view(grid@) =~~= grid_view(old(grid)@).update(r as int, row_view));
}

/// Removes one row of a grid.
pub fn remove_row(grid: &mut Vec<Vec<Cell>>, r: usize) -> (removed: Vec<Cell>)
    requires
        r < old(grid)@.len(),
    ensures
        grid_view(final(grid)@) == grid_view(old(grid)@).remove(r as int),
        removed@ == grid_view(old(grid)@)[r as int],
        final(grid)@.len() == old(grid)@.len() - 1,
{
    let removed = grid.remove(r);
    assert(grid_view(grid@) =~~= grid_view(old(grid)@).remove(r as int));
    removed
}

/// Inserts one row into a grid.
pub fn insert_row(grid: &mut Vec<Vec<Cell>>, r: usize, row: Vec<Cell>)
    requires
        r <= old(grid)@.len(),
    ensures
        grid_view(final(grid)@) == grid_view(old(grid)@).insert(r as int, row@),
        final(grid)@.len() == old(grid)@.len() + 1,
{
    let ghost row_view = row@;
    grid.insert(r, row);
    assert(grid_view(grid@) =~~= grid_view(old(grid)@).insert(r as int, row_view));
}

/// Appends a row to a grid.
pub fn push_row(grid: &mut Vec<Vec<Cell>>, row: Vec<Cell>)
    ensures
        grid_view(final(grid)@) == grid_view(old(grid)@).push(row@),
        final(grid)@.len() == old(grid)@.len() + 1,
{
    let ghost row_view = row@;
    grid.push(row);
    assert(grid_view(grid@) =~~= grid_view(old(grid)@).push(row_view));
}

/// Blanks the rows `lo <= i < hi` of a grid, each keeping its length.
pub fn blank_rows(grid: &mut Vec<Vec<Cell>>, lo: usize, hi: usize)
    ensures
        grid_view(final(grid)@) == blank_rows_between(grid_view(old(grid)@), lo as int, hi as int),
        final(grid)@.len() == old(grid)@.len(),
{
    let ghost g0 = grid_view(grid@);
    let mut i = lo;
    while i < hi && i < grid.len()
        invariant
            lo <= i,
            i <= hi || i == lo,
            grid@.len() == g0.len(),
            forall|k: int| 0 <= k < g0.len() ==> (#[trigger] grid_view(grid@)[k]) == (if lo <= k < i {
                blank_row(g0[k].len())
            } else {
                g0[k]
            }),
        decreases grid@.len() - i,
    {
        let len = grid[i].len();
        assert(grid_view(grid@)[i as int] == g0[i as int]);
        let row = new_blank_row(len);
        let ghost prev = grid_view(grid@);
        set_row(grid, i, row);
        assert forall|k: int| 0 <= k < g0.len() implies (#[trigger] grid_view(grid@)[k]) == (if lo <= k < i + 1 {
            blank_row(g0[k].len())
        } else {
            g0[k]
        }) by {
            if k != i {
                assert(grid_view(grid@)[k] == prev[k]);
            }
        }
        i += 1;
    }
    assert(grid_view(grid@) =~~= blank_rows_between(g0, lo as int, hi as int));
}

/// A copy of a row with the cells in columns `lo <= j < hi` blanked.
pub fn row_blank_between(r: &Vec<Cell>, lo: usize, hi: usize) -> (v: Vec<Cell>)
    ensures
        v@ == blank_between(r@, lo as int, hi as int),
{
    let mut v: Vec<Cell> = Vec::new();
    let mut j: usize = 0;
    while j < r.len()
        invariant
            j <= r@.len(),
            v@ == blank_between(r@, lo as int, hi as int).take(j as int),
        decreases r@.len() - j,
    {
        if lo <= j && j < hi {
            v.push(new_blank_cell());
        } else {
            v.push(r[j]);
        }
        assert(v@ =~= blank_between(r@, lo as int, hi as int).take(j + 1));
        j += 1;
    }
    assert(v@ =~= blank_between(r@, lo as int, hi as int));
    v
}

/// The first `n` cells of a row (all of them if it is shorter).
fn row_take(r: &Vec<Cell>, n: usize) -> (v: Vec<Cell>)
    ensures
        v@ == (if n < r@.len() { r@.take(n as int) } else { r@ }),
{
    let mut v: Vec<Cell> = Vec::new();
    let mut j: usize = 0;
    while j < r.len() && j < n
        invariant
            j <= r@.len(),
            j <= n,
            v@ == r@.take(j as int),
        decreases r@.len() - j,
    {
        v.push(r[j]);
        assert(v@ =~= r@.take(j + 1));
        j += 1;
    }
    assert(n >= r@.len() ==> v@ =~= r@);
    v
}

/// Appends the cells of `r` from column `from` on.
fn row_append_from(v: &mut Vec<Cell>, r: &Vec<Cell>, from: usize)
    requires
        from <= r@.len(),
    ensures
        final(v)@ == old(v)@ + r@.skip(from as int),
{
    let mut j = from;
    while j < r.len()
        invariant
            from <= j <= r@.len(),
            v@ == old(v)@ + r@.subrange(from as int, j as int),
        decreases r@.len() - j,
    {
        v.push(r[j]);
        assert(v@ =~= old(v)@ + r@.subrange(from as int, j + 1));
        j += 1;
    }
    assert(r@.subrange(from as int, j as int) =~= r@.skip(from as int));
}

/// Appends `n` blank cells.
fn row_append_blanks(v: &mut Vec<Cell>, n: usize)
    ensures
        final(v)@ == old(v)@ + blank_row(n as nat),
{
    let mut j: usize = 0;
    while j < n
        invariant
            j <= n,
            v@ == old(v)@ + blank_row(j as nat),
        decreases n - j,
    {
        v.push(new_blank_cell());
        assert(v@ =~= old(v)@ + blank_row((j + 1) as nat));
        j += 1;
    }
}

/// Cuts a row to at most `cols` cells.
fn row_cut(v: &mut Vec<Cell>, cols: usize)
    ensures
        final(v)@ == cut_row(old(v)@, cols as nat),
{
    v.truncate(cols);
}

/// A copy of a row with `n` cells deleted at column `col`, cut to `cols` cells.
pub fn row_delete_chars(r: &Vec<Cell>, col: usize, n: usize, cols: usize) -> (v: Vec<Cell>)
    ensures
        v@ == delete_chars_row(r@, col as int, n as int, cols as nat),
{
    if col < r.len() {
        let k = if n < r.len() - col { n } else { r.len() - col };
        let mut v = row_take(r, col);
        row_append_from(&mut v, r, col + k);
        row_append_blanks(&mut v, k);
        row_cut(&mut v, cols);
        v
    } else {
        let mut v = row_take(r, r.len());
        row_cut(&mut v, cols);
        v
    }
}

/// A copy of a row with `n` blanks inserted at column `col`, cut to `cols` cells.
pub fn row_insert_chars(r: &Vec<Cell>, col: usize, n: usize, cols: usize) -> (v: Vec<Cell>)
    ensures
        v@ == insert_chars_row(r@, col as int, n as nat, cols as nat),
{
    if col <= r.len() {
        let mut v = row_take(r, col);
        // Blanks past `cols` would be cut again; the row is the same either way.
        row_append_blanks(&mut v, n);
        row_append_from(&mut v, r, col);
        row_cut(&mut v, cols);
        v
    } else {
        let mut v = row_take(r, r.len());
        row_cut(&mut v, cols);
        v
    }
}

/// A row cut or padded with blanks to exactly `cols` cells.
pub fn row_fit(v: &mut Vec<Cell>, cols: usize)
    ensures
        final(v)@ == fit_row(old(v)@, cols as nat),
{
    if cols <= v.len() {
        v.truncate(cols);
        assert(v@ =~= fit_row(old(v)@, cols as nat));
    } else {
        let n = cols - v.len();
        row_append_blanks(v, n);
        assert(v@ =~= fit_row(old(v)@, cols as nat));
    }
}

} // verus!
