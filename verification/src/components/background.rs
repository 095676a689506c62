//! The blinking background grid: which cells are lit after each tick.
use vstd::prelude::*;

verus! {

/// A lit cell of the background grid, at column `x` and row `y`.
#[derive(Debug, Clone, Copy, PartialEq, Eq, Structural)]
pub struct GridCell {
    pub id: u64,
    pub x: u32,
    pub y: u32,
}

/// The lit cells after one tick: the new cell is appended and the oldest
/// cells are dropped until at most `target` remain.
pub open spec fn next_cells(cells: Seq<GridCell>, cell: GridCell, target: nat) -> Seq<GridCell> {
    let all = cells.push(cell);
    if all.len() > target {
        all.skip(all.len() - target)
    } else {
        all
    }
}

/// One tick of the blinking grid. While the page is hidden or shown in the
/// dark colour scheme the grid rests: the cells and the next id stay as they
/// are. Otherwise a new cell is lit at `(x, y)` with the next id and at most
/// `target` of the most recent cells are kept. Returns the cells and the id
/// for the following tick (ids wrap around).
pub fn advance_blinking_grid(
    cells: &Vec<GridCell>,
    next_id: u64,
    page_hidden: bool,
    dark_scheme: bool,
    x: u32,
    y: u32,
    target: usize,
) -> (r: (Vec<GridCell>, u64))
    ensures
        (page_hidden || dark_scheme) ==> r.0@ == cells@ && r.1 == next_id,
        !(page_hidden || dark_scheme) ==> {
            &&& r.0@ == next_cells(cells@, GridCell { id: next_id, x, y }, target as nat)
            &&& r.1 == (if next_id == u64::MAX { 0 } else { next_id + 1 })
            &&& (r.0@.len() <= target || r.0@.len() == cells@.len() + 1)
        },
{
    let mut next: Vec<GridCell> = Vec::new();
    let mut i: usize = 0;
    while i < cells.len()
        invariant
            i <= cells.len(),
            next@ == cells@.take(i as int),
        decreases cells.len() - i,
    {
        next.push(cells[i]);
        assert(next@ =~= cells@.take(i + 1));
        i = i + 1;
    }
    assert(cells@.take(cells.len() as int) =~= cells@);
    if page_hidden || dark_scheme {
        return (next, next_id);
    }
    next.push(GridCell { id: next_id, x, y });
    let following = if next_id == u64::MAX { 0 } else { next_id + 1 };
    if next.len() > target {
        let remove = next.len() - target;
        let kept = next.split_off(remove);
        (kept, following)
    } else {
        (next, following)
    }
}

} // verus!
