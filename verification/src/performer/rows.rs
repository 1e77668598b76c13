use vstd::prelude::*;

use crate::cell::{repeat_cell, Cell, CellView};

use super::model::{blank_row_of, fill_row, normalize_grid, resize_row};
use super::{row_view, rows_view};

verus! {

/// Cuts or pads `row` to `n` cells.
pub fn resize_row_in_place(row: &mut Vec<Cell>, n: usize, blank: &Cell)
    ensures
        row_view(*final(row)) == resize_row(row_view(*old(row)), n as nat, blank@),
{
    let ghost r0 = row_view(*row);
    if n <= row.len() {
        row.truncate(n);
        assert(row_view(*row) =~= r0.subrange(0, n as int));
    } else {
        let len0 = row.len();
        while row.len() < n
            invariant
                len0 <= row@.len() <= n,
                len0 == r0.len(),
                row_view(*row) =~= r0 + Seq::new((row@.len() - len0) as nat, |i: int| blank@),
            decreases n - row@.len(),
        {
            let ghost before = row_view(*row);
            let c = blank.duplicate();
            row.push(c);
            assert(row_view(*row) =~= before.push(blank@));
            assert(row_view(*row) =~= r0 + Seq::new((row@.len() - len0) as nat, |i: int| blank@));
        }
    }
}

/// Replaces the cells `from..to` of `row` by copies of `blank`.
pub fn fill_row_in_place(row: &mut Vec<Cell>, from: usize, to: usize, blank: &Cell)
    ensures
        row_view(*final(row)) == fill_row(row_view(*old(row)), from as int, to as int, blank@),
{
    let ghost r0 = row_view(*row);
    let end = if to <= row.len() {
        to
    } else {
        row.len()
    };
    let mut x = from;
    while x < end
        invariant
            end <= row@.len(),
            end == (if to <= r0.len() { to as int } else { r0.len() as int }),
            row@.len() == r0.len(),
            x <= end || x == from,
            x >= from,
            forall|i: int|
                0 <= i < row@.len() ==> (#[trigger] row@[i])@ == (if from <= i < x {
                    blank@
                } else {
                    r0[i]
                }),
        decreases end - x,
    {
        row[x] = blank.duplicate();
        x = x + 1;
    }
    assert forall|i: int| 0 <= i < row@.len() implies row_view(*row)[i] == fill_row(
        r0,
        from as int,
        to as int,
        blank@,
    )[i] by {
        assert(row_view(*row)[i] == row@[i]@);
    }
    assert(row_view(*row) =~= fill_row(r0, from as int, to as int, blank@));
}

/// Cuts or pads `grid` to `rows` rows of `cols` cells.
pub fn normalize_rows(grid: &mut Vec<Vec<Cell>>, rows: usize, cols: usize, blank: &Cell)
    ensures
        rows_view(final(grid)@) == normalize_grid(rows_view(old(grid)@), rows as nat, cols as nat, blank@),
{
    let ghost g0 = rows_view(grid@);
    if grid.len() > rows {
        grid.truncate(rows);
    }
    let m = grid.len();
    let ghost target = normalize_grid(g0, rows as nat, cols as nat, blank@);
    let mut r: usize = 0;
    while r < m
        invariant
            m == grid@.len(),
            target == normalize_grid(g0, rows as nat, cols as nat, blank@),
            m <= rows,
            m <= g0.len(),
            r <= m,
            forall|i: int| 0 <= i < r ==> row_view(#[trigger] grid@[i]) == target[i],
            forall|i: int| r <= i < m ==> row_view(#[trigger] grid@[i]) == g0[i],
        decreases m - r,
    {
        let ghost before = grid@;
        resize_row_in_place(&mut grid[r], cols, blank);
        assert(grid@.len() == before.len());
        assert(forall|i: int| 0 <= i < grid@.len() && i != r ==> grid@[i] == before[i]);
        assert(row_view(grid@[r as int]) == target[r as int]);
        r = r + 1;
    }
    while grid.len() < rows
        invariant
            m <= grid@.len() <= rows,
            target == normalize_grid(g0, rows as nat, cols as nat, blank@),
            m == if g0.len() < rows { g0.len() as int } else { rows as int },
            forall|i: int| 0 <= i < grid@.len() ==> row_view(#[trigger] grid@[i]) == target[i],
        decreases rows - grid@.len(),
    {
        let row = repeat_cell(blank, cols);
        assert(row_view(row) =~= blank_row_of(cols as nat, blank@));
        grid.push(row);
    }
    assert(rows_view(grid@) =~= target);
}

} // verus!

