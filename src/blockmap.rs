//! The playfield: a grid of locked cells, with row 0 at the top.
use vstd::prelude::*;
use crate::{BOARD_HEIGHT, BOARD_WIDTH};

verus! {

/// A row with no occupied cell.
pub open spec fn empty_row() -> Seq<bool> {
    Seq::new(BOARD_WIDTH as nat, |c: int| false)
}

/// A grid of the playfield's size with no occupied cell.
pub open spec fn empty_grid() -> Seq<Seq<bool>> {
    Seq::new(BOARD_HEIGHT as nat, |r: int| empty_row())
}

/// The grid has the playfield's dimensions.
pub open spec fn grid_shaped(g: Seq<Seq<bool>>) -> bool {
    &&& g.len() == BOARD_HEIGHT
    &&& forall|r: int| 0 <= r < BOARD_HEIGHT ==> (#[trigger] g[r]).len() == BOARD_WIDTH
}

/// Is the cell at (`col`, `row`) inside the playfield?
pub open spec fn in_bounds(col: int, row: int) -> bool {
    0 <= col < BOARD_WIDTH && 0 <= row < BOARD_HEIGHT
}

/// Every cell of row `r` is occupied.
pub open spec fn row_full(g: Seq<Seq<bool>>, r: int) -> bool {
    forall|c: int| 0 <= c < BOARD_WIDTH ==> #[trigger] g[r][c]
}

/// The grid after clearing row `r`: the rows above it move down by one and
/// an empty row enters at the top.
pub open spec fn cleared(g: Seq<Seq<bool>>, r: int) -> Seq<Seq<bool>> {
    Seq::new(
        BOARD_HEIGHT as nat,
        |i: int| if i == 0 { empty_row() } else if i <= r { g[i - 1] } else { g[i] },
    )
}

/// The grid with the cell at (`col`, `row`) marked occupied.
pub open spec fn with_cell(g: Seq<Seq<bool>>, col: int, row: int) -> Seq<Seq<bool>> {
    g.update(row, g[row].update(col, true))
}

/// The occupancy grid of locked cells.
pub struct BlockMap {
    pub cells: [[bool; BOARD_WIDTH]; BOARD_HEIGHT],
}

impl View for BlockMap {
    type V = Seq<Seq<bool>>;

    open spec fn view(&self) -> Seq<Seq<bool>> {
        Seq::new(BOARD_HEIGHT as nat, |r: int| self.cells[r]@)
    }
}

/// Clearing a full row leaves an empty top row, moves every row above the
/// cleared one down by exactly one and keeps the rows below it.
pub proof fn lemma_clear_row_shifts(g: Seq<Seq<bool>>, r: int)
    requires
        grid_shaped(g),
        0 <= r < BOARD_HEIGHT,
        row_full(g, r),
    ensures
        grid_shaped(cleared(g, r)),
        cleared(g, r)[0] == empty_row(),
        forall|i: int| 0 < i <= r ==> #[trigger] cleared(g, r)[i] == g[i - 1],
        forall|i: int| r < i < BOARD_HEIGHT ==> #[trigger] cleared(g, r)[i] == g[i],
{
}

/// Number of occupied cells among the first `n` cells of `row`.
pub open spec fn count_row(row: Seq<bool>, n: int) -> int
    decreases n,
{
    if n <= 0 { 0 } else { count_row(row, n - 1) + if row[n - 1] { 1int } else { 0int } }
}

/// Number of occupied cells in the first `n` rows of `g`.
pub open spec fn count_cells(g: Seq<Seq<bool>>, n: int) -> int
    decreases n,
{
    if n <= 0 { 0 } else { count_cells(g, n - 1) + count_row(g[n - 1], BOARD_WIDTH as int) }
}

proof fn lemma_count_empty_row(n: int)
    requires
        n <= BOARD_WIDTH,
    ensures
        count_row(empty_row(), n) == 0,
    decreases n,
{
    if n > 0 {
        lemma_count_empty_row(n - 1);
    }
}

proof fn lemma_count_full_row(row: Seq<bool>, n: int)
    requires
        0 <= n <= BOARD_WIDTH,
        forall|c: int| 0 <= c < BOARD_WIDTH ==> #[trigger] row[c],
    ensures
        count_row(row, n) == n,
    decreases n,
{
    if n > 0 {
        lemma_count_full_row(row, n - 1);
    }
}

proof fn lemma_count_cleared_prefix(g: Seq<Seq<bool>>, r: int, n: int)
    requires
        0 <= r < BOARD_HEIGHT,
        0 <= n <= BOARD_HEIGHT,
    ensures
        n <= r ==> count_cells(cleared(g, r), n) == if n == 0 { 0 } else { count_cells(g, n - 1) },
        n > r ==> count_cells(cleared(g, r), n) == count_cells(g, n) - count_row(g[r], BOARD_WIDTH as int),
    decreases n,
{
    lemma_count_empty_row(BOARD_WIDTH as int);
    if n > 0 {
        lemma_count_cleared_prefix(g, r, n - 1);
        let c = cleared(g, r);
        if n - 1 == 0 {
            assert(c[0] == empty_row());
        } else if n - 1 <= r {
            assert(c[n - 1] == g[n - 2]);
        } else {
            assert(c[n - 1] == g[n - 1]);
        }
    }
}

/// Clearing a row removes exactly the cells of that row and keeps every
/// other cell: a full row takes ten cells with it.
pub proof fn lemma_clear_row_count(g: Seq<Seq<bool>>, r: int)
    requires
        0 <= r < BOARD_HEIGHT,
    ensures
        count_cells(cleared(g, r), BOARD_HEIGHT as int)
            == count_cells(g, BOARD_HEIGHT as int) - count_row(g[r], BOARD_WIDTH as int),
        row_full(g, r) ==> count_row(g[r], BOARD_WIDTH as int) == BOARD_WIDTH,
{
    lemma_count_cleared_prefix(g, r, BOARD_HEIGHT as int);
    if row_full(g, r) {
        lemma_count_full_row(g[r], BOARD_WIDTH as int);
    }
}

impl BlockMap {
    pub proof fn lemma_shaped(&self)
        ensures
            grid_shaped(self@),
    {
    }

    /// An empty playfield.
    pub fn new() -> (r: Self)
        ensures
            r@ == empty_grid(),
    {
        let r = BlockMap { cells: [[false; BOARD_WIDTH]; BOARD_HEIGHT] };
        assert(r@ =~~= empty_grid());
        r
    }

    /// Is the cell at (`col`, `row`) occupied?
    pub fn is_occupied(&self, col: usize, row: usize) -> (r: bool)
        requires
            in_bounds(col as int, row as int),
        ensures
            r == self@[row as int][col as int],
    {
        self.cells[row][col]
    }

    /// Marks the cell at (`col`, `row`) occupied.
    pub fn insert(&mut self, col: usize, row: usize)
        requires
            in_bounds(col as int, row as int),
        ensures
            final(self)@ == with_cell(old(self)@, col as int, row as int),
    {
        let mut line = self.cells[row];
        line[col] = true;
        self.cells[row] = line;
        assert(self@ =~~= with_cell(old(self)@, col as int, row as int));
    }

    /// Is every cell of row `row` occupied?
    pub fn is_row_full(&self, row: usize) -> (r: bool)
        requires
            row < BOARD_HEIGHT,
        ensures
            r == row_full(self@, row as int),
    {
        let mut c: usize = 0;
        while c < BOARD_WIDTH
            invariant
                row < BOARD_HEIGHT,
                c <= BOARD_WIDTH,
                forall|k: int| 0 <= k < c ==> #[trigger] self@[row as int][k],
            decreases BOARD_WIDTH - c,
        {
            if !self.cells[row][c] {
                assert(!self@[row as int][c as int]);
                return false;
            }
            c = c + 1;
        }
        true
    }

    /// Clears row `index`: the rows above it move down by one and the top
    /// row becomes empty.
    pub fn clearline(&mut self, index: usize)
        requires
            index < BOARD_HEIGHT,
        ensures
            final(self)@ == cleared(old(self)@, index as int),
    {
        let mut i: usize = index;
        while i > 0
            invariant
                i <= index < BOARD_HEIGHT,
                forall|k: int| 0 <= k <= i ==> #[trigger] self.cells[k] == old(self).cells[k],
                forall|k: int| i < k <= index ==> #[trigger] self.cells[k] == old(self).cells[k - 1],
                forall|k: int| index < k < BOARD_HEIGHT ==> #[trigger] self.cells[k] == old(self).cells[k],
            decreases i,
        {
            self.cells[i] = self.cells[i - 1];
            i = i - 1;
        }
        self.cells[0] = [false; BOARD_WIDTH];
        assert(self@ =~~= cleared(old(self)@, index as int));
    }

    /// Empties the whole playfield.
    pub fn reset(&mut self)
        ensures
            final(self)@ == empty_grid(),
    {
        self.cells = [[false; BOARD_WIDTH]; BOARD_HEIGHT];
        assert(self@ =~~= empty_grid());
    }
}

} // verus!
