//! Rules of a falling-block puzzle game: the shape table, the playfield,
//! the falling piece with its moves and rotations, line clears, the hold
//! slot, the queue of upcoming pieces and the randomizer that fills it.
use vstd::prelude::*;

pub mod blockmap;
pub mod blocktype;
pub mod piece;
pub mod queue;
pub mod randomizer;
pub mod session;
pub mod timer;

pub use blockmap::BlockMap;
pub use blocktype::{BlockType, Rgb};
pub use piece::{CurrentBlocks, GridPos};
pub use queue::{HoldBlocks, NextBlocks};
pub use randomizer::BlockRandomizer;
pub use session::{
    block_falling, block_harddrop, block_hold, block_movement, block_rotation, block_spawn, check_gameover,
    clear_block, enable_hold, lock_piece, spawn_with, Direction, GameSession, LockReport, RotationDirection, Score,
    StepOutcome,
};
pub use timer::{FallingTimer, RepeatTimer};

verus! {

/// Number of columns of the playfield.
pub const BOARD_WIDTH: usize = 10;

/// Number of rows of the playfield, hidden spawn rows included.
pub const BOARD_HEIGHT: usize = 24;

/// Number of hidden rows above the visible field; the first visible row has this index.
pub const HIDDEN_ROWS: usize = 4;

} // verus!
