//! The seven piece types, their four orientations and their colours.
use vstd::prelude::*;
use crate::randomizer::random_below;

verus! {

/// Number of piece types.
pub const TYPE_COUNT: usize = 7;

/// Number of piece types that may open a game.
pub const FIRST_CANDIDATE_COUNT: usize = 4;

/// Number of orientations of every piece.
pub const ROTATION_COUNT: usize = 4;

/// The seven tetromino types.
#[derive(Clone, Copy, Debug, PartialEq, Eq, Structural)]
pub enum BlockType {
    TypeI,
    TypeJ,
    TypeL,
    TypeO,
    TypeS,
    TypeT,
    TypeZ,
}

/// A colour as 8-bit sRGB channels.
#[derive(Clone, Copy, Debug, PartialEq, Eq, Structural)]
pub struct Rgb {
    pub r: u8,
    pub g: u8,
    pub b: u8,
}

/// Where the cells 1, 2, 3 and 4 of a piece lie inside its 4x4 box, each
/// given as `row * 4 + column`.
pub open spec fn spec_layout(t: BlockType, rot: int) -> (usize, usize, usize, usize) {
    match t {
        BlockType::TypeI => if rot == 0 { (4, 5, 6, 7) } else if rot == 1 { (2, 6, 10, 14) }
            else if rot == 2 { (8, 9, 10, 11) } else { (1, 5, 9, 13) },
        BlockType::TypeJ => if rot == 0 { (0, 4, 5, 6) } else if rot == 1 { (1, 2, 5, 9) }
            else if rot == 2 { (4, 5, 6, 10) } else { (1, 5, 8, 9) },
        BlockType::TypeL => if rot == 0 { (2, 6, 5, 4) } else if rot == 1 { (1, 5, 9, 10) }
            else if rot == 2 { (4, 5, 6, 8) } else { (0, 1, 5, 9) },
        BlockType::TypeO => (5, 6, 9, 10),
        BlockType::TypeS => if rot == 0 { (5, 6, 8, 9) } else if rot == 1 { (1, 5, 6, 10) }
            else if rot == 2 { (2, 1, 4, 5) } else { (1, 5, 6, 10) },
        BlockType::TypeT => if rot == 0 { (1, 4, 5, 6) } else if rot == 1 { (1, 5, 6, 9) }
            else if rot == 2 { (4, 5, 6, 9) } else { (1, 4, 5, 9) },
        BlockType::TypeZ => if rot == 0 { (4, 5, 9, 10) } else if rot == 1 { (2, 5, 6, 9) }
            else if rot == 2 { (0, 1, 5, 6) } else { (2, 5, 6, 9) },
    }
}

/// Box index of cell `id` (1..=4) of a piece in orientation `rot`.
pub open spec fn box_index(t: BlockType, rot: int, id: int) -> int {
    let l = spec_layout(t, rot);
    if id == 1 { l.0 as int } else if id == 2 { l.1 as int } else if id == 3 { l.2 as int } else { l.3 as int }
}

/// Column offset of cell `id` from the piece's anchor.
pub open spec fn offset_col(t: BlockType, rot: int, id: int) -> int {
    box_index(t, rot, id) % 4
}

/// Row offset of cell `id` from the piece's anchor (rows grow downwards).
pub open spec fn offset_row(t: BlockType, rot: int, id: int) -> int {
    box_index(t, rot, id) / 4
}

/// The cell id (1..=4) that occupies box index `i`, or 0 where the box is empty.
pub open spec fn box_cell(t: BlockType, rot: int, i: int) -> usize {
    let l = spec_layout(t, rot);
    if i == l.0 { 1 } else if i == l.1 { 2 } else if i == l.2 { 3 } else if i == l.3 { 4 } else { 0 }
}

pub open spec fn spec_color(t: BlockType) -> Rgb {
    match t {
        BlockType::TypeI => Rgb { r: 135, g: 224, b: 252 },
        BlockType::TypeJ => Rgb { r: 13, g: 184, b: 214 },
        BlockType::TypeL => Rgb { r: 255, g: 150, b: 107 },
        BlockType::TypeO => Rgb { r: 255, g: 199, b: 120 },
        BlockType::TypeS => Rgb { r: 79, g: 214, b: 191 },
        BlockType::TypeT => Rgb { r: 191, g: 153, b: 255 },
        BlockType::TypeZ => Rgb { r: 255, g: 117, b: 128 },
    }
}

/// The piece types in table order.
pub open spec fn type_at(i: int) -> BlockType {
    if i == 0 { BlockType::TypeI } else if i == 1 { BlockType::TypeJ } else if i == 2 { BlockType::TypeL }
    else if i == 3 { BlockType::TypeO } else if i == 4 { BlockType::TypeS } else if i == 5 { BlockType::TypeT }
    else { BlockType::TypeZ }
}

/// The opening candidates in table order.
pub open spec fn first_candidate_at(i: int) -> BlockType {
    if i == 0 { BlockType::TypeI } else if i == 1 { BlockType::TypeJ } else if i == 2 { BlockType::TypeL }
    else { BlockType::TypeT }
}

/// The piece types that may open a game.
pub open spec fn is_first_candidate(t: BlockType) -> bool {
    t == BlockType::TypeI || t == BlockType::TypeJ || t == BlockType::TypeL || t == BlockType::TypeT
}

/// Every orientation of every piece has exactly four distinct cells, all
/// inside the 4x4 box.
pub proof fn lemma_shape_cells_distinct(t: BlockType, rot: int)
    requires
        0 <= rot < 4,
    ensures
        forall|id: int| 1 <= id <= 4 ==> 0 <= #[trigger] box_index(t, rot, id) < 16,
        forall|a: int, b: int|
            1 <= a <= 4 && 1 <= b <= 4 && a != b ==> #[trigger] box_index(t, rot, a) != #[trigger] box_index(t, rot, b),
        forall|id: int| 1 <= id <= 4 ==> box_cell(t, rot, #[trigger] box_index(t, rot, id)) == id,
{
}

impl BlockType {
    /// The piece type at position `i` of the table I, J, L, O, S, T, Z.
    pub fn from_index(i: usize) -> (r: BlockType)
        requires
            i < TYPE_COUNT,
        ensures
            r == type_at(i as int),
    {
        if i == 0 { BlockType::TypeI } else if i == 1 { BlockType::TypeJ } else if i == 2 { BlockType::TypeL }
        else if i == 3 { BlockType::TypeO } else if i == 4 { BlockType::TypeS } else if i == 5 { BlockType::TypeT }
        else { BlockType::TypeZ }
    }

    /// The opening candidate at position `i` of the list I, J, L, T.
    pub fn first_candidate(i: usize) -> (r: BlockType)
        requires
            i < FIRST_CANDIDATE_COUNT,
        ensures
            r == first_candidate_at(i as int),
            is_first_candidate(r),
    {
        if i == 0 { BlockType::TypeI } else if i == 1 { BlockType::TypeJ } else if i == 2 { BlockType::TypeL }
        else { BlockType::TypeT }
    }

    /// A piece type drawn uniformly at random.
    pub fn random() -> (r: BlockType) {
        BlockType::from_index(random_below(TYPE_COUNT))
    }

    /// Positions of the cells 1..=4 in the 4x4 box for orientation `rot`.
    pub fn layout(&self, rot: usize) -> (r: (usize, usize, usize, usize))
        requires
            rot < ROTATION_COUNT,
        ensures
            r == spec_layout(*self, rot as int),
    {
        match self {
            BlockType::TypeI => if rot == 0 { (4, 5, 6, 7) } else if rot == 1 { (2, 6, 10, 14) }
                else if rot == 2 { (8, 9, 10, 11) } else { (1, 5, 9, 13) },
            BlockType::TypeJ => if rot == 0 { (0, 4, 5, 6) } else if rot == 1 { (1, 2, 5, 9) }
                else if rot == 2 { (4, 5, 6, 10) } else { (1, 5, 8, 9) },
            BlockType::TypeL => if rot == 0 { (2, 6, 5, 4) } else if rot == 1 { (1, 5, 9, 10) }
                else if rot == 2 { (4, 5, 6, 8) } else { (0, 1, 5, 9) },
            BlockType::TypeO => (5, 6, 9, 10),
            BlockType::TypeS => if rot == 0 { (5, 6, 8, 9) } else if rot == 1 { (1, 5, 6, 10) }
                else if rot == 2 { (2, 1, 4, 5) } else { (1, 5, 6, 10) },
            BlockType::TypeT => if rot == 0 { (1, 4, 5, 6) } else if rot == 1 { (1, 5, 6, 9) }
                else if rot == 2 { (4, 5, 6, 9) } else { (1, 4, 5, 9) },
            BlockType::TypeZ => if rot == 0 { (4, 5, 9, 10) } else if rot == 1 { (2, 5, 6, 9) }
                else if rot == 2 { (0, 1, 5, 6) } else { (2, 5, 6, 9) },
        }
    }

    /// Box index (`row * 4 + column`) of cell `id` in orientation `rot`.
    pub fn cell_index(&self, rot: usize, id: usize) -> (r: usize)
        requires
            rot < ROTATION_COUNT,
            1 <= id <= 4,
        ensures
            r == box_index(*self, rot as int, id as int),
            r < 16,
    {
        proof { lemma_shape_cells_distinct(*self, rot as int); }
        let l = self.layout(rot);
        if id == 1 { l.0 } else if id == 2 { l.1 } else if id == 3 { l.2 } else { l.3 }
    }

    /// The rotation table: for each orientation, the 4x4 box in row-major
    /// order, holding the id (1..=4) of the cell there or 0.
    pub fn blockdata(&self) -> (r: [[usize; 16]; 4])
        ensures
            forall|rot: int, i: int| 0 <= rot < 4 && 0 <= i < 16 ==> #[trigger] r[rot][i] == box_cell(*self, rot, i),
    {
        let mut grid = [[0usize; 16]; 4];
        let mut rot: usize = 0;
        while rot < ROTATION_COUNT
            invariant
                rot <= 4,
                forall|q: int, i: int| 0 <= q < rot && 0 <= i < 16 ==> #[trigger] grid[q][i] == box_cell(*self, q, i),
            decreases 4 - rot,
        {
            let l = self.layout(rot);
            proof { lemma_shape_cells_distinct(*self, rot as int); }
            let mut row = [0usize; 16];
            row[l.0] = 1;
            row[l.1] = 2;
            row[l.2] = 3;
            row[l.3] = 4;
            assert forall|i: int| 0 <= i < 16 implies #[trigger] row[i] == box_cell(*self, rot as int, i) by {
                assert(box_index(*self, rot as int, 1) == l.0);
                assert(box_index(*self, rot as int, 2) == l.1);
                assert(box_index(*self, rot as int, 3) == l.2);
                assert(box_index(*self, rot as int, 4) == l.3);
            }
            grid[rot] = row;
            rot = rot + 1;
        }
        grid
    }

    /// The display colour of the piece type.
    pub fn color(&self) -> (r: Rgb)
        ensures
            r == spec_color(*self),
    {
        match self {
            BlockType::TypeI => Rgb { r: 135, g: 224, b: 252 },
            BlockType::TypeJ => Rgb { r: 13, g: 184, b: 214 },
            BlockType::TypeL => Rgb { r: 255, g: 150, b: 107 },
            BlockType::TypeO => Rgb { r: 255, g: 199, b: 120 },
            BlockType::TypeS => Rgb { r: 79, g: 214, b: 191 },
            BlockType::TypeT => Rgb { r: 191, g: 153, b: 255 },
            BlockType::TypeZ => Rgb { r: 255, g: 117, b: 128 },
        }
    }
}

} // verus!
