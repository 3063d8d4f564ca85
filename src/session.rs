//! A game session: the playfield, the falling piece, the hold slot, the
//! queue, the randomizer, the score and the gravity timer, with the rules
//! that move them from one state to the next.
use vstd::prelude::*;
use crate::blockmap::{cleared, empty_grid, empty_row, grid_shaped, row_full, with_cell, BlockMap};
use crate::blocktype::{is_first_candidate, lemma_shape_cells_distinct, offset_col, offset_row, BlockType, ROTATION_COUNT};
use crate::piece::{cell_free, fits, spec_fits, CurrentBlocks, GridPos, SPAWN_COL, SPAWN_ROW};
use crate::queue::{HoldBlocks, NextBlocks};
use crate::randomizer::{accepted_roll, drew, lemma_fresh_unless_forced, valid_rolls, BlockRandomizer, MAX_ROLLS};
use crate::timer::{repeat_moves, repeated, tick_fires, ticked, FallingTimer, RepeatTimer};
use crate::{BOARD_HEIGHT, BOARD_WIDTH, HIDDEN_ROWS};

verus! {

/// The left one of the two spawn columns watched for a top-out.
pub const SPAWN_WATCH_LEFT: usize = 5;

/// The right one of the two spawn columns watched for a top-out.
pub const SPAWN_WATCH_RIGHT: usize = 6;

/// Number of checks a rotation makes before it gives up; between two
/// checks the piece is nudged by one cell.
pub const MAX_COLLISION_COUNT: usize = 3;

/// Lines cleared so far in the session.
#[derive(Clone, Copy, Debug, PartialEq, Eq, Structural)]
pub struct Score(pub usize);

/// Direction of a one-cell move.
#[derive(Clone, Copy, Debug, PartialEq, Eq, Structural)]
pub enum Direction {
    Left,
    Right,
    Bottom,
}

/// Direction of a quarter turn: `Right` is clockwise.
#[derive(Clone, Copy, Debug, PartialEq, Eq, Structural)]
pub enum RotationDirection {
    Left,
    Right,
}

/// What a lock did: the rows cleared, in the order they were cleared, and
/// whether the session ended.
#[derive(Debug)]
pub struct LockReport {
    pub cleared_rows: Vec<usize>,
    pub game_over: bool,
}

/// What a move request did.
#[derive(Debug)]
pub enum StepOutcome {
    /// The session is over; nothing changed.
    Ignored,
    /// The move was blocked; nothing changed.
    Rejected,
    /// The piece moved.
    Moved,
    /// The piece could not move down and was locked.
    Locked(LockReport),
    /// The gravity period has not ended; nothing moved.
    Waiting,
}

pub open spec fn dir_col(d: Direction) -> int {
    match d {
        Direction::Left => -1,
        Direction::Right => 1,
        Direction::Bottom => 0,
    }
}

pub open spec fn dir_row(d: Direction) -> int {
    match d {
        Direction::Bottom => 1,
        _ => 0,
    }
}

/// The piece moved by one cell in direction `d`.
pub open spec fn shifted(p: CurrentBlocks, d: Direction) -> CurrentBlocks {
    CurrentBlocks {
        pos: GridPos { col: (p.pos.col + dir_col(d)) as i32, row: (p.pos.row + dir_row(d)) as i32 },
        ..p
    }
}

/// The piece after a move request on grid `g`: moved if it fits there,
/// otherwise `None`.
pub open spec fn move_result(g: Seq<Seq<bool>>, p: CurrentBlocks, d: Direction) -> Option<CurrentBlocks> {
    if shifted(p, d).fits_in(g) { Some(shifted(p, d)) } else { None }
}

/// `g` with the cells 1..=n of piece `p` marked occupied.
pub open spec fn locked_upto(g: Seq<Seq<bool>>, p: CurrentBlocks, n: int) -> Seq<Seq<bool>>
    decreases n,
{
    if n <= 0 { g } else { with_cell(locked_upto(g, p, n - 1), p.cell_col(n), p.cell_row(n)) }
}

/// `g` with all four cells of piece `p` marked occupied.
pub open spec fn locked_grid(g: Seq<Seq<bool>>, p: CurrentBlocks) -> Seq<Seq<bool>> {
    locked_upto(g, p, 4)
}

/// The grid after clearing, from row `i` downwards, every row that is full
/// when it is reached.
pub open spec fn sweep(g: Seq<Seq<bool>>, i: int) -> Seq<Seq<bool>>
    decreases BOARD_HEIGHT - i,
{
    if i < 0 || i >= BOARD_HEIGHT { g } else if row_full(g, i) { sweep(cleared(g, i), i + 1) } else { sweep(g, i + 1) }
}

/// The rows cleared by `sweep(g, i)`, in order.
pub open spec fn swept_rows(g: Seq<Seq<bool>>, i: int) -> Seq<usize>
    decreases BOARD_HEIGHT - i,
{
    if i < 0 || i >= BOARD_HEIGHT {
        Seq::empty()
    } else if row_full(g, i) {
        seq![i as usize] + swept_rows(cleared(g, i), i + 1)
    } else {
        swept_rows(g, i + 1)
    }
}

/// A locked cell lies in one of the two watched spawn columns at or above
/// the first visible row.
pub open spec fn top_out(g: Seq<Seq<bool>>) -> bool {
    exists|r: int| 0 <= r <= HIDDEN_ROWS && #[trigger] watched_cell_locked(g, r)
}

/// A cell of row `r` in one of the two watched spawn columns is locked.
pub open spec fn watched_cell_locked(g: Seq<Seq<bool>>, r: int) -> bool {
    g[r][SPAWN_WATCH_LEFT as int] || g[r][SPAWN_WATCH_RIGHT as int]
}

/// How many rows a new piece of type `t` is raised to fit, trying `k` and
/// more up to the number of hidden rows; -1 if no such lift fits.
pub open spec fn spawn_lift(g: Seq<Seq<bool>>, t: BlockType, k: int) -> int
    decreases HIDDEN_ROWS + 1 - k,
{
    if k < 0 || k > HIDDEN_ROWS {
        -1
    } else if spec_fits(g, t, 0, SPAWN_COL as int, SPAWN_ROW - k) {
        k
    } else {
        spawn_lift(g, t, k + 1)
    }
}

/// A lift found from `k` on is -1 or lies between `k` and the number of
/// hidden rows, and the piece fits there.
pub proof fn lemma_spawn_lift_range(g: Seq<Seq<bool>>, t: BlockType, k: int)
    requires
        0 <= k,
    ensures
        spawn_lift(g, t, k) == -1 || (k <= spawn_lift(g, t, k) <= HIDDEN_ROWS
            && spec_fits(g, t, 0, SPAWN_COL as int, SPAWN_ROW - spawn_lift(g, t, k))),
    decreases HIDDEN_ROWS + 1 - k,
{
    if k <= HIDDEN_ROWS && !spec_fits(g, t, 0, SPAWN_COL as int, SPAWN_ROW - k) {
        lemma_spawn_lift_range(g, t, k + 1);
    }
}

/// The correction for one offending cell: right when it is left of the
/// field, left when it is right of it, and up for any vertical overflow
/// (above the field, below the floor) or a locked cell.
pub open spec fn cell_nudge(col: int, row: int) -> (int, int) {
    if col < 0 { (1, 0) } else if col >= BOARD_WIDTH { (-1, 0) } else { (0, -1) }
}

/// The correction for the first offending cell among `id..=4`.
pub open spec fn nudge_from(g: Seq<Seq<bool>>, t: BlockType, rot: int, col: int, row: int, id: int) -> (int, int)
    decreases 5 - id,
{
    if id < 1 || id > 4 {
        (0, 0)
    } else if !cell_free(g, col + offset_col(t, rot, id), row + offset_row(t, rot, id)) {
        cell_nudge(col + offset_col(t, rot, id), row + offset_row(t, rot, id))
    } else {
        nudge_from(g, t, rot, col, row, id + 1)
    }
}

/// Where a piece turned to `rot` ends up: the anchor itself if it fits,
/// else, while checks are left, the anchor nudged for the first offending
/// cell; `None` when the last check fails.
pub open spec fn kick(g: Seq<Seq<bool>>, t: BlockType, rot: int, col: int, row: int, checks: int) -> Option<(int, int)>
    decreases checks,
{
    if spec_fits(g, t, rot, col, row) {
        Some((col, row))
    } else if checks <= 1 {
        None
    } else {
        let n = nudge_from(g, t, rot, col, row, 1);
        kick(g, t, rot, col + n.0, row + n.1, checks - 1)
    }
}

/// The orientation after a quarter turn.
pub open spec fn turned(rot: int, r: RotationDirection) -> int {
    match r {
        RotationDirection::Right => (rot + 1) % 4,
        RotationDirection::Left => (rot + 3) % 4,
    }
}

/// The lowest row the anchor reaches by moving down from `row`.
pub open spec fn drop_row(g: Seq<Seq<bool>>, t: BlockType, rot: int, col: int, row: int) -> int
    decreases BOARD_HEIGHT - row,
{
    if row < BOARD_HEIGHT && spec_fits(g, t, rot, col, row + 1) { drop_row(g, t, rot, col, row + 1) } else { row }
}

/// Every cell of a piece that fits lies inside the field, so its anchor
/// stays within reach of the field.
pub proof fn lemma_fits_bounds(g: Seq<Seq<bool>>, t: BlockType, rot: int, col: int, row: int)
    requires
        0 <= rot < 4,
        spec_fits(g, t, rot, col, row),
    ensures
        -3 <= col < BOARD_WIDTH,
        -3 <= row < BOARD_HEIGHT,
{
    lemma_shape_cells_distinct(t, rot);
    assert(cell_free(g, col + offset_col(t, rot, 1), row + offset_row(t, rot, 1)));
}

/// A hard drop lands where repeated moves down stop: a move down that
/// succeeds leaves the landing row unchanged, and one that is blocked
/// happens exactly at the landing row.
pub proof fn lemma_drop_is_repeated_down(g: Seq<Seq<bool>>, p: CurrentBlocks)
    requires
        p.wf(),
        p.fits_in(g),
    ensures
        move_result(g, p, Direction::Bottom) matches Some(q) ==>
            drop_row(g, q.blocktype, q.blockid as int, q.pos.col as int, q.pos.row as int)
                == drop_row(g, p.blocktype, p.blockid as int, p.pos.col as int, p.pos.row as int),
        move_result(g, p, Direction::Bottom) is None ==>
            drop_row(g, p.blocktype, p.blockid as int, p.pos.col as int, p.pos.row as int) == p.pos.row,
{
    lemma_fits_bounds(g, p.blocktype, p.blockid as int, p.pos.col as int, p.pos.row as int);
    let q = shifted(p, Direction::Bottom);
    assert(q.pos.row == p.pos.row + 1);
}

/// A move to the left followed by a move to the right, when the first is
/// unobstructed, puts the piece back where it was; likewise right then left.
pub proof fn lemma_left_right_round_trip(g: Seq<Seq<bool>>, p: CurrentBlocks)
    requires
        p.wf(),
        p.fits_in(g),
    ensures
        move_result(g, p, Direction::Left) matches Some(q) ==> move_result(g, q, Direction::Right) == Some(p),
        move_result(g, p, Direction::Right) matches Some(q) ==> move_result(g, q, Direction::Left) == Some(p),
{
    let l = shifted(p, Direction::Left);
    let r = shifted(p, Direction::Right);
    assert(shifted(l, Direction::Right) == p);
    assert(shifted(r, Direction::Left) == p);
}

/// The whole mutable state of one game.
pub struct GameSession {
    pub board: BlockMap,
    pub current: CurrentBlocks,
    pub hold: HoldBlocks,
    pub next: NextBlocks,
    pub randomizer: BlockRandomizer,
    pub score: Score,
    pub falling: FallingTimer,
    pub game_over: bool,
}

impl GameSession {
    /// The parts are valid on their own.
    pub open spec fn parts_wf(&self) -> bool {
        &&& self.current.wf()
        &&& self.randomizer.wf()
        &&& self.falling.wf()
    }

    /// The parts are valid and, while the game runs, the falling piece lies
    /// on free cells of the field.
    pub open spec fn wf(&self) -> bool {
        &&& self.parts_wf()
        &&& !self.game_over ==> self.current.fits_in(self.board@)
    }
}

/// A new piece of type `t` at the spawn anchor, raised by `lift` rows.
pub open spec fn spawn_piece(t: BlockType, lift: int) -> CurrentBlocks {
    CurrentBlocks { blocktype: t, blockid: 0, pos: GridPos { col: SPAWN_COL, row: (SPAWN_ROW - lift) as i32 } }
}

/// `b` holds a new piece of type `t` spawned on grid `g`: raised by the
/// least lift that fits, or, when none fits, left at the spawn anchor with
/// the session over.
pub open spec fn spawned(g: Seq<Seq<bool>>, t: BlockType, was_over: bool, b: GameSession) -> bool {
    let k = spawn_lift(g, t, 0);
    if k >= 0 {
        b.current == spawn_piece(t, k) && b.game_over == was_over
    } else {
        b.current == spawn_piece(t, 0) && b.game_over
    }
}

/// `b` is `a` after a new piece was taken from the head of the queue: the
/// queue moved up by one with a new type at its back, drawn from the
/// randomizer.
pub open spec fn took_from_queue(a: GameSession, b: GameSession) -> bool {
    &&& spawned(a.board@, a.next@[0], a.game_over, b)
    &&& b.next@.subrange(0, 3) == a.next@.subrange(1, 4)
    &&& b.randomizer.wf()
    &&& b.randomizer.history@ == a.randomizer.history@.subrange(1, 4).push(b.next@[3])
    &&& b.randomizer.started
    &&& a.randomizer.started ==> exists|d: Seq<usize>| valid_rolls(d) && drew(a.randomizer, b.randomizer, d, b.next@[3])
    &&& !a.randomizer.started ==> is_first_candidate(b.next@[3])
}

/// `b` is `a` after the falling piece locked, with `rep` the report: the
/// cells joined the field, full rows were cleared and scored, a hold is
/// allowed again, the top-out check ran, and unless it ended the game the
/// next piece came from the queue.
pub open spec fn locked_from(a: GameSession, b: GameSession, rep: LockReport) -> bool {
    let g = locked_grid(a.board@, a.current);
    let after = sweep(g, 0);
    &&& b.board@ == after
    &&& rep.cleared_rows@ == swept_rows(g, 0)
    &&& b.score.0 == a.score.0.saturating_add(rep.cleared_rows@.len() as usize)
    &&& b.hold == (HoldBlocks { can_hold: true, ..a.hold })
    &&& b.falling == a.falling
    &&& rep.game_over == b.game_over
    &&& top_out(after) ==> b.game_over && b.current == a.current && b.next == a.next && b.randomizer == a.randomizer
    &&& !top_out(after) ==> took_from_queue(GameSession { board: b.board, ..a }, b)
}

/// Marks the cells of the falling piece occupied.
fn fix_piece(session: &mut GameSession)
    requires
        old(session).current.wf(),
        old(session).current.fits_in(old(session).board@),
    ensures
        final(session).board@ == locked_grid(old(session).board@, old(session).current),
        final(session).current == old(session).current,
        final(session).hold == old(session).hold,
        final(session).next == old(session).next,
        final(session).randomizer == old(session).randomizer,
        final(session).score == old(session).score,
        final(session).falling == old(session).falling,
        final(session).game_over == old(session).game_over,
{
    let ghost g0 = session.board@;
    let ghost p = session.current;
    let mut id: usize = 1;
    while id <= 4
        invariant
            1 <= id <= 5,
            p.wf(),
            p.fits_in(g0),
            session.board@ == locked_upto(g0, p, id - 1),
            session.current == old(session).current,
            session.current == p,
            old(session).board@ == g0,
            session.hold == old(session).hold,
            session.next == old(session).next,
            session.randomizer == old(session).randomizer,
            session.score == old(session).score,
            session.falling == old(session).falling,
            session.game_over == old(session).game_over,
        decreases 5 - id,
    {
        let pos = session.current.position(id);
        assert(cell_free(g0, p.pos.col + offset_col(p.blocktype, p.blockid as int, id as int),
            p.pos.row + offset_row(p.blocktype, p.blockid as int, id as int)));
        session.board.insert(pos.col as usize, pos.row as usize);
        id = id + 1;
    }
}

/// Locks the falling piece into the field, then clears every full row,
/// top to bottom, each as its own shift, and adds one point per row.
/// Returns the cleared rows in the order they were cleared.
pub fn clear_block(session: &mut GameSession) -> (rows: Vec<usize>)
    requires
        old(session).current.wf(),
        old(session).current.fits_in(old(session).board@),
    ensures
        final(session).board@ == sweep(locked_grid(old(session).board@, old(session).current), 0),
        rows@ == swept_rows(locked_grid(old(session).board@, old(session).current), 0),
        final(session).score.0 == old(session).score.0.saturating_add(rows@.len() as usize),
        final(session).current == old(session).current,
        final(session).hold == old(session).hold,
        final(session).next == old(session).next,
        final(session).randomizer == old(session).randomizer,
        final(session).falling == old(session).falling,
        final(session).game_over == old(session).game_over,
{
    fix_piece(session);
    let ghost g0 = session.board@;
    let mut rows: Vec<usize> = Vec::new();
    let mut i: usize = 0;
    assert(rows@ + swept_rows(g0, 0) =~= swept_rows(g0, 0));
    while i < BOARD_HEIGHT
        invariant
            i <= BOARD_HEIGHT,
            sweep(session.board@, i as int) == sweep(g0, 0),
            rows@ + swept_rows(session.board@, i as int) == swept_rows(g0, 0),
            rows@.len() <= i,
            session.current == old(session).current,
            session.hold == old(session).hold,
            session.next == old(session).next,
            session.randomizer == old(session).randomizer,
            session.score == old(session).score,
            session.falling == old(session).falling,
            session.game_over == old(session).game_over,
        decreases BOARD_HEIGHT - i,
    {
        let ghost before = session.board@;
        let ghost old_rows = rows@;
        if session.board.is_row_full(i) {
            session.board.clearline(i);
            rows.push(i);
            assert(rows@ + swept_rows(session.board@, i + 1) =~= old_rows + swept_rows(before, i as int));
        }
        i = i + 1;
    }
    assert(rows@ + swept_rows(session.board@, BOARD_HEIGHT as int) =~= rows@);
    session.score = Score(session.score.0.saturating_add(rows.len()));
    rows
}

/// Allows a hold again.
pub fn enable_hold(session: &mut GameSession)
    ensures
        *final(session) == (GameSession { hold: HoldBlocks { can_hold: true, ..old(session).hold }, ..*old(session) }),
{
    session.hold.can_hold = true;
}

/// Is a locked cell in one of the watched spawn columns at or above the
/// first visible row?
pub fn is_topped_out(board: &BlockMap) -> (r: bool)
    ensures
        r == top_out(board@),
{
    let mut row: usize = 0;
    while row <= HIDDEN_ROWS
        invariant
            row <= HIDDEN_ROWS + 1,
            forall|k: int| 0 <= k < row ==> !#[trigger] watched_cell_locked(board@, k),
        decreases HIDDEN_ROWS + 1 - row,
    {
        if board.is_occupied(SPAWN_WATCH_LEFT, row) || board.is_occupied(SPAWN_WATCH_RIGHT, row) {
            assert(watched_cell_locked(board@, row as int));
            return true;
        }
        row = row + 1;
    }
    false
}

/// Ends the session when the field tops out. Returns whether it did.
pub fn check_gameover(session: &mut GameSession) -> (over: bool)
    ensures
        over == top_out(old(session).board@),
        *final(session) == (GameSession { game_over: old(session).game_over || over, ..*old(session) }),
{
    let over = is_topped_out(&session.board);
    if over {
        session.game_over = true;
    }
    over
}

/// Finds the least lift, up to the number of hidden rows, at which a new
/// piece of type `t` fits; -1 if none does.
fn find_spawn_lift(board: &BlockMap, t: BlockType) -> (k: i32)
    ensures
        k == spawn_lift(board@, t, 0),
{
    let mut k: i32 = 0;
    while k <= HIDDEN_ROWS as i32
        invariant
            0 <= k <= HIDDEN_ROWS + 1,
            spawn_lift(board@, t, k as int) == spawn_lift(board@, t, 0),
        decreases HIDDEN_ROWS + 1 - k,
    {
        if fits(board, t, 0, SPAWN_COL, SPAWN_ROW - k) {
            return k;
        }
        k = k + 1;
    }
    -1
}

/// Places a new piece: the type `forced` if given, else the head of the
/// queue, which then moves up by one with `incoming` joining at its back.
pub fn spawn_with(session: &mut GameSession, forced: Option<BlockType>, incoming: BlockType)
    requires
        old(session).parts_wf(),
    ensures
        final(session).parts_wf(),
        final(session).wf(),
        spawned(old(session).board@, match forced { Some(t) => t, None => old(session).next@[0] },
            old(session).game_over, *final(session)),
        forced is None ==> final(session).next@ == old(session).next@.subrange(1, 4).push(incoming),
        forced is Some ==> final(session).next == old(session).next,
        final(session).board == old(session).board,
        final(session).hold == old(session).hold,
        final(session).randomizer == old(session).randomizer,
        final(session).score == old(session).score,
        final(session).falling == old(session).falling,
{
    let t = match forced {
        Some(t) => t,
        None => {
            let head = session.next.head();
            session.next = session.next.update(incoming);
            head
        },
    };
    let k = find_spawn_lift(&session.board, t);
    proof { lemma_spawn_lift_range(session.board@, t, 0); }
    if k >= 0 {
        session.current = CurrentBlocks { blocktype: t, blockid: 0, pos: GridPos { col: SPAWN_COL, row: SPAWN_ROW - k } };
    } else {
        session.current = CurrentBlocks { blocktype: t, blockid: 0, pos: GridPos { col: SPAWN_COL, row: SPAWN_ROW } };
        session.game_over = true;
    }
}

/// Places a new piece: the type `forced` if given, else the head of the
/// queue, which is then refilled from the randomizer.
pub fn block_spawn(session: &mut GameSession, forced: Option<BlockType>)
    requires
        old(session).parts_wf(),
    ensures
        final(session).wf(),
        forced is None ==> took_from_queue(*old(session), *final(session)),
        forced matches Some(t) ==> spawned(old(session).board@, t, old(session).game_over, *final(session)),
        forced is Some ==> final(session).next == old(session).next && final(session).randomizer == old(session).randomizer,
        final(session).board == old(session).board,
        final(session).hold == old(session).hold,
        final(session).score == old(session).score,
        final(session).falling == old(session).falling,
{
    match forced {
        Some(t) => spawn_with(session, forced, t),
        None => {
            let incoming = session.randomizer.next();
            spawn_with(session, None, incoming);
            assert(session.next@.subrange(0, 3) =~= old(session).next@.subrange(1, 4));
        },
    }
}

/// Locks the falling piece: its cells join the field, full rows are
/// cleared, a hold is allowed again, the top-out check runs, and unless the
/// game is over the next piece comes from the queue.
pub fn lock_piece(session: &mut GameSession) -> (rep: LockReport)
    requires
        old(session).wf(),
        !old(session).game_over,
    ensures
        final(session).wf(),
        locked_from(*old(session), *final(session), rep),
{
    let rows = clear_block(session);
    enable_hold(session);
    let over = check_gameover(session);
    if !over {
        block_spawn(session, None);
    }
    LockReport { cleared_rows: rows, game_over: session.game_over }
}

/// `b` and `out` are what a move in direction `d` makes of the running
/// session `a`: the piece moved if it fits there; otherwise nothing changed,
/// except that a blocked move down locked the piece.
pub open spec fn step_result(a: GameSession, b: GameSession, d: Direction, out: StepOutcome) -> bool {
    match move_result(a.board@, a.current, d) {
        Some(q) => out is Moved && b == (GameSession { current: q, ..a }),
        None => if d == Direction::Bottom {
            out matches StepOutcome::Locked(rep) && locked_from(a, b, rep)
        } else {
            out is Rejected && b == a
        },
    }
}

/// Moves the falling piece one cell. A blocked move changes nothing,
/// except that a blocked move down locks the piece.
pub fn block_movement(session: &mut GameSession, direction: Direction) -> (out: StepOutcome)
    requires
        old(session).wf(),
    ensures
        final(session).wf(),
        old(session).game_over ==> out is Ignored && *final(session) == *old(session),
        !old(session).game_over ==> step_result(*old(session), *final(session), direction, out),
{
    if session.game_over {
        return StepOutcome::Ignored;
    }
    proof { lemma_fits_bounds(session.board@, session.current.blocktype, session.current.blockid as int,
        session.current.pos.col as int, session.current.pos.row as int); }
    let p = session.current;
    let (col, row) = match direction {
        Direction::Left => (p.pos.col - 1, p.pos.row),
        Direction::Right => (p.pos.col + 1, p.pos.row),
        Direction::Bottom => (p.pos.col, p.pos.row + 1),
    };
    if fits(&session.board, p.blocktype, p.blockid, col, row) {
        session.current = CurrentBlocks { pos: GridPos { col, row }, ..p };
        proof { lemma_fits_bounds(session.board@, p.blocktype, p.blockid as int, col as int, row as int); }
        return StepOutcome::Moved;
    }
    match direction {
        Direction::Bottom => StepOutcome::Locked(lock_piece(session)),
        _ => StepOutcome::Rejected,
    }
}

/// The first cell among `id..=4` that is off the field or on a locked cell
/// decides the nudge.
fn find_nudge(board: &BlockMap, t: BlockType, rot: usize, col: i32, row: i32) -> (n: (i32, i32))
    requires
        rot < ROTATION_COUNT,
    ensures
        n.0 == nudge_from(board@, t, rot as int, col as int, row as int, 1).0,
        n.1 == nudge_from(board@, t, rot as int, col as int, row as int, 1).1,
{
    let mut id: usize = 1;
    while id <= 4
        invariant
            1 <= id <= 5,
            rot < ROTATION_COUNT,
            nudge_from(board@, t, rot as int, col as int, row as int, id as int)
                == nudge_from(board@, t, rot as int, col as int, row as int, 1),
        decreases 5 - id,
    {
        let i = t.cell_index(rot, id);
        let c: i64 = col as i64 + (i % 4) as i64;
        let r: i64 = row as i64 + (i / 4) as i64;
        if c < 0 {
            return (1, 0);
        } else if c >= BOARD_WIDTH as i64 {
            return (-1, 0);
        } else if r < 0 || r >= BOARD_HEIGHT as i64 || board.is_occupied(c as usize, r as usize) {
            return (0, -1);
        }
        id = id + 1;
    }
    (0, 0)
}

/// Turns the falling piece a quarter. Where the turned piece does not fit,
/// it is nudged by one cell for its first offending cell and checked again,
/// up to the check bound; when the last check fails the turn is undone.
/// A turn that succeeds restarts the gravity period. Returns whether the
/// piece turned.
pub fn block_rotation(session: &mut GameSession, direction: RotationDirection) -> (turned_ok: bool)
    requires
        old(session).wf(),
    ensures
        final(session).wf(),
        old(session).game_over ==> !turned_ok && *final(session) == *old(session),
        !old(session).game_over ==> {
            let p = old(session).current;
            let rot = turned(p.blockid as int, direction);
            match kick(old(session).board@, p.blocktype, rot, p.pos.col as int, p.pos.row as int, MAX_COLLISION_COUNT as int) {
                Some(a) => turned_ok && *final(session) == (GameSession {
                    current: CurrentBlocks { blocktype: p.blocktype, blockid: rot as usize, pos: GridPos { col: a.0 as i32, row: a.1 as i32 } },
                    falling: FallingTimer { elapsed_ms: 0, ..old(session).falling },
                    ..*old(session)
                }),
                None => !turned_ok && *final(session) == *old(session),
            }
        },
{
    if session.game_over {
        return false;
    }
    let p = session.current;
    proof { lemma_fits_bounds(session.board@, p.blocktype, p.blockid as int, p.pos.col as int, p.pos.row as int); }
    let rot = match direction {
        RotationDirection::Right => (p.blockid + 1) % ROTATION_COUNT,
        RotationDirection::Left => (p.blockid + ROTATION_COUNT - 1) % ROTATION_COUNT,
    };
    let ghost g = session.board@;
    let mut col = p.pos.col;
    let mut row = p.pos.row;
    let mut checks: usize = MAX_COLLISION_COUNT;
    loop
        invariant
            1 <= checks <= MAX_COLLISION_COUNT,
            rot < ROTATION_COUNT,
            rot == turned(p.blockid as int, direction),
            g == session.board@,
            *session == *old(session),
            old(session).wf(),
            p == old(session).current,
            !session.game_over,
            p.pos.col - (MAX_COLLISION_COUNT - checks) <= col <= p.pos.col + (MAX_COLLISION_COUNT - checks),
            p.pos.row - (MAX_COLLISION_COUNT - checks) <= row <= p.pos.row + (MAX_COLLISION_COUNT - checks),
            -3 <= p.pos.col < BOARD_WIDTH,
            -3 <= p.pos.row < BOARD_HEIGHT,
            kick(g, p.blocktype, rot as int, col as int, row as int, checks as int)
                == kick(g, p.blocktype, rot as int, p.pos.col as int, p.pos.row as int, MAX_COLLISION_COUNT as int),
        decreases checks,
    {
        if fits(&session.board, p.blocktype, rot, col, row) {
            proof { lemma_fits_bounds(g, p.blocktype, rot as int, col as int, row as int); }
            session.current = CurrentBlocks { blocktype: p.blocktype, blockid: rot, pos: GridPos { col, row } };
            session.falling.reset();
            return true;
        }
        if checks <= 1 {
            return false;
        }
        let n = find_nudge(&session.board, p.blocktype, rot, col, row);
        proof { lemma_nudge_unit(g, p.blocktype, rot as int, col as int, row as int, 1); }
        col = col + n.0;
        row = row + n.1;
        checks = checks - 1;
    }
}

/// A nudge moves the piece by at most one cell along each axis.
proof fn lemma_nudge_unit(g: Seq<Seq<bool>>, t: BlockType, rot: int, col: int, row: int, id: int)
    ensures
        -1 <= nudge_from(g, t, rot, col, row, id).0 <= 1,
        -1 <= nudge_from(g, t, rot, col, row, id).1 <= 1,
    decreases 5 - id,
{
    if 1 <= id <= 4 && cell_free(g, col + offset_col(t, rot, id), row + offset_row(t, rot, id)) {
        lemma_nudge_unit(g, t, rot, col, row, id + 1);
    }
}

/// The falling piece moved down as far as it goes: where a hard drop puts
/// it, and where the landing preview is drawn.
pub fn landing_position(session: &GameSession) -> (r: CurrentBlocks)
    requires
        session.wf(),
        !session.game_over,
    ensures
        r == (CurrentBlocks {
            pos: GridPos {
                col: session.current.pos.col,
                row: drop_row(session.board@, session.current.blocktype, session.current.blockid as int,
                    session.current.pos.col as int, session.current.pos.row as int) as i32,
            },
            ..session.current
        }),
        r.wf(),
        r.fits_in(session.board@),
{
    let p = session.current;
    let ghost g = session.board@;
    proof { lemma_fits_bounds(g, p.blocktype, p.blockid as int, p.pos.col as int, p.pos.row as int); }
    let mut row = p.pos.row;
    while row < BOARD_HEIGHT as i32 && fits(&session.board, p.blocktype, p.blockid, p.pos.col, row + 1)
        invariant
            p == session.current,
            p.wf(),
            g == session.board@,
            -3 <= row < BOARD_HEIGHT,
            spec_fits(g, p.blocktype, p.blockid as int, p.pos.col as int, row as int),
            drop_row(g, p.blocktype, p.blockid as int, p.pos.col as int, row as int)
                == drop_row(g, p.blocktype, p.blockid as int, p.pos.col as int, p.pos.row as int),
        decreases BOARD_HEIGHT - row,
    {
        row = row + 1;
        proof { lemma_fits_bounds(g, p.blocktype, p.blockid as int, p.pos.col as int, row as int); }
    }
    CurrentBlocks { pos: GridPos { col: p.pos.col, row }, ..p }
}

/// Drops the falling piece as far as it goes and locks it there.
pub fn block_harddrop(session: &mut GameSession) -> (out: StepOutcome)
    requires
        old(session).wf(),
    ensures
        final(session).wf(),
        old(session).game_over ==> out is Ignored && *final(session) == *old(session),
        !old(session).game_over ==> {
            let p = old(session).current;
            let bottom = drop_row(old(session).board@, p.blocktype, p.blockid as int, p.pos.col as int, p.pos.row as int);
            let dropped = CurrentBlocks { pos: GridPos { col: p.pos.col, row: bottom as i32 }, ..p };
            out matches StepOutcome::Locked(rep) && locked_from(GameSession { current: dropped, ..*old(session) }, *final(session), rep)
        },
{
    if session.game_over {
        return StepOutcome::Ignored;
    }
    session.current = landing_position(session);
    StepOutcome::Locked(lock_piece(session))
}

/// One frame of the soft-drop key. A press stops and restarts the gravity
/// timer so that the piece does not fall twice; a release lets gravity run
/// again. Returns how many rows the piece is to move down, as the key's
/// auto-repeat decides.
pub fn key_block_movebottom(
    session: &mut GameSession,
    repeat: &mut RepeatTimer,
    just_pressed: bool,
    pressed: bool,
    just_released: bool,
    delta_ms: u64,
) -> (moves: u8)
    requires
        old(session).wf(),
    ensures
        final(session).wf(),
        *final(session) == (GameSession {
            falling: FallingTimer {
                elapsed_ms: if just_pressed { 0 } else { old(session).falling.elapsed_ms },
                paused: if just_released { false } else if just_pressed { true } else { old(session).falling.paused },
                ..old(session).falling
            },
            ..*old(session)
        }),
        moves == repeat_moves(*old(repeat), just_pressed, pressed, delta_ms),
        *final(repeat) == repeated(*old(repeat), just_pressed, pressed, just_released, delta_ms),
{
    if just_pressed {
        session.falling.pause();
        session.falling.reset();
    }
    let moves = repeat.update(just_pressed, pressed, just_released, delta_ms);
    if just_released {
        session.falling.unpause();
    }
    moves
}

/// The piece a hold brings onto the field: the held one, or else the head
/// of the queue.
pub open spec fn hold_incoming(a: GameSession) -> BlockType {
    match a.hold.blocktype {
        Some(h) => h,
        None => a.next@[0],
    }
}

/// Banks the falling piece, at most once between two locks. The piece
/// leaves the field; the piece held before comes back in its place, or, if
/// none was held, the next one comes from the queue. When the incoming
/// piece finds no room to spawn, the session ends. Returns whether the hold
/// took place.
pub fn block_hold(session: &mut GameSession) -> (held: bool)
    requires
        old(session).wf(),
    ensures
        final(session).wf(),
        held == (!old(session).game_over && old(session).hold.can_hold),
        !held ==> *final(session) == *old(session),
        held ==> (final(session).game_over <==> spawn_lift(old(session).board@, hold_incoming(*old(session)), 0) < 0),
        held ==> final(session).hold == (HoldBlocks { can_hold: false, blocktype: Some(old(session).current.blocktype) }),
        held ==> match old(session).hold.blocktype {
            Some(h) => spawned(old(session).board@, h, false, *final(session))
                && final(session).next == old(session).next
                && final(session).randomizer == old(session).randomizer,
            None => took_from_queue(*old(session), *final(session)),
        },
        held ==> final(session).board == old(session).board,
        held ==> final(session).score == old(session).score,
        held ==> final(session).falling == old(session).falling,
{
    if session.game_over || !session.hold.can_hold {
        return false;
    }
    let back = session.hold.blocktype;
    let t = session.current.blocktype;
    block_spawn(session, back);
    session.hold = HoldBlocks { can_hold: false, blocktype: Some(t) };
    true
}

/// Advances the gravity timer by `delta_ms`; when a period ends the piece
/// moves down one row, or locks if it cannot.
pub fn block_falling(session: &mut GameSession, delta_ms: u64) -> (out: StepOutcome)
    requires
        old(session).wf(),
    ensures
        final(session).wf(),
        old(session).game_over ==> out is Ignored && *final(session) == *old(session),
        !old(session).game_over ==> {
            let ticking = GameSession { falling: ticked(old(session).falling, delta_ms), ..*old(session) };
            if tick_fires(old(session).falling, delta_ms) {
                step_result(ticking, *final(session), Direction::Bottom, out)
            } else {
                out is Waiting && *final(session) == ticking
            }
        },
{
    if session.game_over {
        return StepOutcome::Ignored;
    }
    if session.falling.tick(delta_ms) {
        block_movement(session, Direction::Bottom)
    } else {
        StepOutcome::Waiting
    }
}

/// On an empty field every piece fits at the spawn anchor.
pub proof fn lemma_spawn_fits_empty(t: BlockType)
    ensures
        spec_fits(empty_grid(), t, 0, SPAWN_COL as int, SPAWN_ROW as int),
        spawn_lift(empty_grid(), t, 0) == 0,
{
    lemma_shape_cells_distinct(t, 0);
    assert forall|id: int| 1 <= id <= 4 implies #[trigger] cell_free(empty_grid(), SPAWN_COL + offset_col(t, 0, id),
        SPAWN_ROW + offset_row(t, 0, id)) by {
        assert(0 <= offset_col(t, 0, id) < 4);
        assert(0 <= offset_row(t, 0, id) < 4);
    }
}

impl GameSession {
    /// A new game: an empty field, the queue filled from a fresh
    /// randomizer, and the first piece taken from the queue.
    pub fn new() -> (r: Self)
        ensures
            r.wf(),
            !r.game_over,
            r.board@ == empty_grid(),
            r.hold == (HoldBlocks { can_hold: true, blocktype: None }),
            r.score.0 == 0,
            r.falling == FallingTimer::spec_new(),
            is_first_candidate(r.current.blocktype),
            r.current == spawn_piece(r.current.blocktype, 0),
            r.randomizer.started,
            r.next@ == r.randomizer.history@,
    {
        let mut randomizer = BlockRandomizer::new();
        let a = randomizer.next();
        let b = randomizer.next();
        let c = randomizer.next();
        let d = randomizer.next();
        let mut session = GameSession {
            board: BlockMap::new(),
            current: CurrentBlocks::new(),
            hold: HoldBlocks::new(),
            next: NextBlocks([a, b, c, d]),
            randomizer,
            score: Score(0),
            falling: FallingTimer::new(),
            game_over: false,
        };
        assert(session.next@[0] == a);
        assert(session.next@ =~= session.randomizer.history@);
        proof { lemma_spawn_fits_empty(a); }
        block_spawn(&mut session, None);
        assert(session.next@ =~= session.randomizer.history@);
        session
    }

    /// Starts the game over, as `new` does.
    pub fn reset(&mut self)
        ensures
            final(self).wf(),
            !final(self).game_over,
            final(self).board@ == empty_grid(),
            final(self).hold == (HoldBlocks { can_hold: true, blocktype: None }),
            final(self).score.0 == 0,
            final(self).falling == FallingTimer::spec_new(),
            is_first_candidate(final(self).current.blocktype),
            final(self).current == spawn_piece(final(self).current.blocktype, 0),
            final(self).randomizer.started,
            final(self).next@ == final(self).randomizer.history@,
    {
        *self = GameSession::new();
    }
}

proof fn lemma_locked_upto_keeps(g: Seq<Seq<bool>>, p: CurrentBlocks, n: int, id: int)
    requires
        grid_shaped(g),
        p.wf(),
        p.fits_in(g),
        0 <= n <= 4,
    ensures
        grid_shaped(locked_upto(g, p, n)),
        1 <= id <= n ==> locked_upto(g, p, n)[p.cell_row(id)][p.cell_col(id)],
    decreases n,
{
    if n > 0 {
        lemma_locked_upto_keeps(g, p, n - 1, id);
        assert(cell_free(g, p.pos.col + offset_col(p.blocktype, p.blockid as int, n),
            p.pos.row + offset_row(p.blocktype, p.blockid as int, n)));
        if 1 <= id <= n - 1 {
            assert(cell_free(g, p.pos.col + offset_col(p.blocktype, p.blockid as int, id),
                p.pos.row + offset_row(p.blocktype, p.blockid as int, id)));
        }
    }
}

proof fn lemma_sweep_identity(g: Seq<Seq<bool>>, i: int)
    requires
        0 <= i,
        forall|r: int| i <= r < BOARD_HEIGHT ==> !row_full(g, r),
    ensures
        sweep(g, i) == g,
        swept_rows(g, i) == Seq::<usize>::empty(),
    decreases BOARD_HEIGHT - i,
{
    if i < BOARD_HEIGHT {
        lemma_sweep_identity(g, i + 1);
    }
}

/// Locking a piece with a cell in one of the watched spawn columns at or
/// above the first visible row ends the game, when the lock completes no
/// row.
pub proof fn lemma_lock_in_spawn_zone_ends_game(a: GameSession, b: GameSession, rep: LockReport, id: int)
    requires
        a.wf(),
        !a.game_over,
        locked_from(a, b, rep),
        1 <= id <= 4,
        a.current.cell_row(id) <= HIDDEN_ROWS,
        a.current.cell_col(id) == SPAWN_WATCH_LEFT || a.current.cell_col(id) == SPAWN_WATCH_RIGHT,
        forall|r: int| 0 <= r < BOARD_HEIGHT ==> !row_full(locked_grid(a.board@, a.current), r),
    ensures
        b.game_over,
        rep.game_over,
        rep.cleared_rows@.len() == 0,
{
    let g = locked_grid(a.board@, a.current);
    a.board.lemma_shaped();
    lemma_locked_upto_keeps(a.board@, a.current, 4, id);
    lemma_sweep_identity(g, 0);
    let r = a.current.cell_row(id);
    assert(cell_free(a.board@, a.current.pos.col + offset_col(a.current.blocktype, a.current.blockid as int, id),
        a.current.pos.row + offset_row(a.current.blocktype, a.current.blockid as int, id)));
    assert(watched_cell_locked(g, r));
}

/// Only a lock allows a hold again: a move or gravity step that does not
/// lock leaves the hold slot as it was, and one that locks allows a hold.
pub proof fn lemma_hold_gate(a: GameSession, b: GameSession, d: Direction, out: StepOutcome)
    requires
        step_result(a, b, d, out),
    ensures
        out is Locked ==> b.hold.can_hold && b.hold.blocktype == a.hold.blocktype,
        !(out is Locked) ==> b.hold == a.hold,
{
}

proof fn lemma_sweep_no_full_row(g: Seq<Seq<bool>>, i: int)
    requires
        grid_shaped(g),
        0 <= i <= BOARD_HEIGHT,
        forall|k: int| 0 <= k < i ==> !row_full(g, k),
    ensures
        forall|k: int| 0 <= k < BOARD_HEIGHT ==> !row_full(sweep(g, i), k),
    decreases BOARD_HEIGHT - i,
{
    if i < BOARD_HEIGHT {
        if row_full(g, i) {
            let c = cleared(g, i);
            assert(!empty_row()[0]);
            assert forall|k: int| 0 <= k < i + 1 implies !row_full(c, k) by {
                if k == 0 {
                    assert(!c[0][0]);
                } else {
                    assert(c[k] == g[k - 1]);
                    assert(!row_full(g, k - 1));
                    let w = choose|w: int| 0 <= w < BOARD_WIDTH && !#[trigger] g[k - 1][w];
                    assert(!c[k][w]);
                }
            }
            lemma_sweep_no_full_row(c, i + 1);
            assert(sweep(g, i) == sweep(c, i + 1));
        } else {
            lemma_sweep_no_full_row(g, i + 1);
            assert(sweep(g, i) == sweep(g, i + 1));
        }
    } else {
        assert(sweep(g, i) == g);
    }
}

proof fn lemma_swept_single(g: Seq<Seq<bool>>, r: int, i: int)
    requires
        grid_shaped(g),
        0 <= i <= r < BOARD_HEIGHT,
        row_full(g, r),
        forall|k: int| 0 <= k < BOARD_HEIGHT && k != r ==> !row_full(g, k),
    ensures
        swept_rows(g, i) == seq![r as usize],
    decreases BOARD_HEIGHT - i,
{
    if i < r {
        lemma_swept_single(g, r, i + 1);
    } else {
        let c = cleared(g, r);
        assert forall|k: int| r + 1 <= k < BOARD_HEIGHT implies !row_full(c, k) by {
            assert(c[k] == g[k]);
            assert(!row_full(g, k));
        }
        lemma_sweep_identity(c, r + 1);
        assert(seq![r as usize] + Seq::<usize>::empty() =~= seq![r as usize]);
    }
}

/// After a lock no row of the field is full: every row that the piece
/// completed was detected and cleared.
pub proof fn lemma_lock_leaves_no_full_row(a: GameSession, b: GameSession, rep: LockReport)
    requires
        a.wf(),
        !a.game_over,
        locked_from(a, b, rep),
    ensures
        forall|k: int| 0 <= k < BOARD_HEIGHT ==> !row_full(b.board@, k),
{
    a.board.lemma_shaped();
    lemma_locked_upto_keeps(a.board@, a.current, 4, 0);
    lemma_sweep_no_full_row(locked_grid(a.board@, a.current), 0);
}

/// A lock that completes exactly one row clears that row alone and adds
/// one point, below the score's machine limit.
pub proof fn lemma_single_line_scores_one(a: GameSession, b: GameSession, rep: LockReport, r: int)
    requires
        a.wf(),
        !a.game_over,
        locked_from(a, b, rep),
        0 <= r < BOARD_HEIGHT,
        row_full(locked_grid(a.board@, a.current), r),
        forall|k: int| 0 <= k < BOARD_HEIGHT && k != r ==> !row_full(locked_grid(a.board@, a.current), k),
        a.score.0 < usize::MAX,
    ensures
        rep.cleared_rows@ == seq![r as usize],
        b.score.0 == a.score.0 + 1,
{
    a.board.lemma_shaped();
    lemma_locked_upto_keeps(a.board@, a.current, 4, 0);
    lemma_swept_single(locked_grid(a.board@, a.current), r, 0);
}

/// When the queue holds the last four draws, taking a piece from it appends
/// a type that is not already in the queue, unless all six rolls of that
/// draw named types in the queue.
pub proof fn lemma_queue_avoids_recent_repeats(a: GameSession, b: GameSession)
    requires
        took_from_queue(a, b),
        a.randomizer.started,
        a.next@ == a.randomizer.history@,
    ensures
        exists|d: Seq<usize>| #![trigger valid_rolls(d)]
            valid_rolls(d) && drew(a.randomizer, b.randomizer, d, b.next@[3])
            && (accepted_roll(a.randomizer.pool@, a.randomizer.history@, d, 0) < MAX_ROLLS - 1 ==> !a.next@.contains(b.next@[3])),
{
    let d = choose|d: Seq<usize>| valid_rolls(d) && drew(a.randomizer, b.randomizer, d, b.next@[3]);
    lemma_fresh_unless_forced(a.randomizer, b.randomizer, d, b.next@[3]);
}

} // verus!
