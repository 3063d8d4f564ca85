//! The falling piece: its type, orientation and anchor on the playfield.
use vstd::prelude::*;
use crate::blockmap::{in_bounds, BlockMap};
use crate::blocktype::{offset_col, offset_row, BlockType, ROTATION_COUNT};
use crate::{BOARD_HEIGHT, BOARD_WIDTH};

verus! {

/// Column of the anchor of a freshly spawned piece.
pub const SPAWN_COL: i32 = 3;

/// Row of the anchor of a freshly spawned piece: the first visible row.
pub const SPAWN_ROW: i32 = 4;

/// A cell position on the playfield: column from the left, row from the top.
#[derive(Clone, Copy, Debug, PartialEq, Eq, Structural)]
pub struct GridPos {
    pub col: i32,
    pub row: i32,
}

/// The piece under the player's control.
#[derive(Clone, Copy, Debug, PartialEq, Eq, Structural)]
pub struct CurrentBlocks {
    pub blocktype: BlockType,
    /// Orientation, 0..=3; each step is a quarter turn clockwise.
    pub blockid: usize,
    /// Playfield cell of the top-left corner of the piece's 4x4 box.
    pub pos: GridPos,
}

/// Is the cell at (`col`, `row`) inside the playfield and unoccupied?
pub open spec fn cell_free(g: Seq<Seq<bool>>, col: int, row: int) -> bool {
    in_bounds(col, row) && !g[row][col]
}

/// Does a piece of type `t` in orientation `rot` with its anchor at
/// (`col`, `row`) lie inside the playfield on free cells only?
pub open spec fn spec_fits(g: Seq<Seq<bool>>, t: BlockType, rot: int, col: int, row: int) -> bool {
    forall|id: int| 1 <= id <= 4 ==> #[trigger] cell_free(g, col + offset_col(t, rot, id), row + offset_row(t, rot, id))
}

impl CurrentBlocks {
    /// The orientation is valid and the anchor lies near enough to the
    /// playfield that any cell of the piece can be reached from it.
    pub open spec fn wf(&self) -> bool {
        &&& self.blockid < ROTATION_COUNT
        &&& -4 <= self.pos.col <= BOARD_WIDTH
        &&& -4 <= self.pos.row <= BOARD_HEIGHT
    }

    /// Column of cell `id` on the playfield.
    pub open spec fn cell_col(&self, id: int) -> int {
        self.pos.col + offset_col(self.blocktype, self.blockid as int, id)
    }

    /// Row of cell `id` on the playfield.
    pub open spec fn cell_row(&self, id: int) -> int {
        self.pos.row + offset_row(self.blocktype, self.blockid as int, id)
    }

    /// The piece lies inside the playfield on free cells of `g`.
    pub open spec fn fits_in(&self, g: Seq<Seq<bool>>) -> bool {
        spec_fits(g, self.blocktype, self.blockid as int, self.pos.col as int, self.pos.row as int)
    }

    /// An I piece in its first orientation at the spawn anchor.
    pub fn new() -> (r: Self)
        ensures
            r.blocktype == BlockType::TypeI,
            r.blockid == 0,
            r.pos == (GridPos { col: SPAWN_COL, row: SPAWN_ROW }),
            r.wf(),
    {
        CurrentBlocks { blocktype: BlockType::TypeI, blockid: 0, pos: GridPos { col: SPAWN_COL, row: SPAWN_ROW } }
    }

    /// Playfield position of cell `id` (1..=4).
    pub fn position(&self, id: usize) -> (r: GridPos)
        requires
            self.wf(),
            1 <= id <= 4,
        ensures
            r.col == self.cell_col(id as int),
            r.row == self.cell_row(id as int),
    {
        let i = self.blocktype.cell_index(self.blockid, id);
        GridPos { col: self.pos.col + (i % 4) as i32, row: self.pos.row + (i / 4) as i32 }
    }
}

/// Does a piece of type `t` in orientation `rot` with its anchor at
/// (`col`, `row`) lie inside the playfield on free cells only?
pub fn fits(board: &BlockMap, t: BlockType, rot: usize, col: i32, row: i32) -> (r: bool)
    requires
        rot < ROTATION_COUNT,
    ensures
        r == spec_fits(board@, t, rot as int, col as int, row as int),
{
    let mut id: usize = 1;
    while id <= 4
        invariant
            1 <= id <= 5,
            rot < ROTATION_COUNT,
            forall|k: int| 1 <= k < id ==> #[trigger] cell_free(board@, col + offset_col(t, rot as int, k), row + offset_row(t, rot as int, k)),
        decreases 5 - id,
    {
        let i = t.cell_index(rot, id);
        let c: i64 = col as i64 + (i % 4) as i64;
        let r: i64 = row as i64 + (i / 4) as i64;
        assert(c == col + offset_col(t, rot as int, id as int));
        assert(r == row + offset_row(t, rot as int, id as int));
        if c < 0 || c >= BOARD_WIDTH as i64 || r < 0 || r >= BOARD_HEIGHT as i64 {
            assert(!cell_free(board@, c as int, r as int));
            return false;
        }
        if board.is_occupied(c as usize, r as usize) {
            assert(!cell_free(board@, c as int, r as int));
            return false;
        }
        id = id + 1;
    }
    true
}

} // verus!
