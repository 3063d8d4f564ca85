use ittoku_tetris::session::{key_block_movebottom, landing_position};
use ittoku_tetris::timer::BLOCK_FALL_INTERVAL_MS;
use ittoku_tetris::RepeatTimer;
use ittoku_tetris::{
    block_falling, block_harddrop, block_hold, block_movement, block_rotation, block_spawn, check_gameover,
    clear_block, enable_hold, lock_piece, spawn_with, BlockMap, BlockType, CurrentBlocks, Direction, GameSession,
    GridPos, RotationDirection, StepOutcome,
};

fn piece(blocktype: BlockType, blockid: usize, col: i32, row: i32) -> CurrentBlocks {
    CurrentBlocks { blocktype, blockid, pos: GridPos { col, row } }
}

fn row_cells(board: &BlockMap, row: usize) -> Vec<usize> {
    (0..10).filter(|&c| board.is_occupied(c, row)).collect()
}

fn occupied_count(board: &BlockMap) -> usize {
    (0..24).map(|r| row_cells(board, r).len()).sum()
}

fn next_types(s: &GameSession) -> Vec<BlockType> {
    s.next.0.to_vec()
}

#[test]
fn new_session_state() {
    let s = GameSession::new();
    assert!(!s.game_over);
    assert!(s.hold.can_hold);
    assert_eq!(s.hold.blocktype, None);
    assert_eq!(s.score.0, 0);
    assert_eq!(occupied_count(&s.board), 0);
    assert!(matches!(
        s.current.blocktype,
        BlockType::TypeI | BlockType::TypeJ | BlockType::TypeL | BlockType::TypeT
    ));
    assert_eq!(s.current.blockid, 0);
    assert_eq!(s.current.pos, GridPos { col: 3, row: 4 });
}

#[test]
fn i_piece_falls_to_the_bottom_and_locks() {
    let mut s = GameSession::new();
    s.current = piece(BlockType::TypeI, 0, 3, 4);
    let score = s.score.0;
    let mut moves = 0;
    let report = loop {
        match block_movement(&mut s, Direction::Bottom) {
            StepOutcome::Moved => moves += 1,
            StepOutcome::Locked(rep) => break rep,
            other => panic!("unexpected outcome {:?}", other),
        }
    };
    assert_eq!(moves, 18);
    assert!(report.cleared_rows.is_empty());
    assert!(!report.game_over);
    assert_eq!(row_cells(&s.board, 23), vec![3, 4, 5, 6]);
    assert_eq!(occupied_count(&s.board), 4);
    assert_eq!(s.score.0, score);
    assert_eq!(s.current.pos, GridPos { col: 3, row: 4 });
}

#[test]
fn completing_a_row_clears_it_and_scores() {
    let mut s = GameSession::new();
    for c in 0..9 {
        s.board.insert(c, 23);
    }
    s.board.insert(0, 22);
    s.current = piece(BlockType::TypeI, 1, 7, 4);
    match block_harddrop(&mut s) {
        StepOutcome::Locked(rep) => {
            assert_eq!(rep.cleared_rows, vec![23]);
            assert!(!rep.game_over);
        }
        other => panic!("unexpected outcome {:?}", other),
    }
    assert_eq!(s.score.0, 1);
    assert_eq!(row_cells(&s.board, 23), vec![0, 9]);
    assert_eq!(row_cells(&s.board, 22), vec![9]);
    assert_eq!(row_cells(&s.board, 21), vec![9]);
    assert_eq!(row_cells(&s.board, 20), Vec::<usize>::new());
    assert_eq!(occupied_count(&s.board), 4);
}

#[test]
fn two_rows_cleared_in_one_lock() {
    let mut s = GameSession::new();
    for r in [22, 23] {
        for c in 0..8 {
            s.board.insert(c, r);
        }
    }
    s.board.insert(5, 21);
    s.current = piece(BlockType::TypeO, 0, 7, 4);
    match block_harddrop(&mut s) {
        StepOutcome::Locked(rep) => assert_eq!(rep.cleared_rows, vec![22, 23]),
        other => panic!("unexpected outcome {:?}", other),
    }
    assert_eq!(s.score.0, 2);
    assert_eq!(row_cells(&s.board, 23), vec![5]);
    assert_eq!(occupied_count(&s.board), 1);
}

#[test]
fn hold_with_empty_slot_takes_the_queue_head() {
    let mut s = GameSession::new();
    let held = s.current.blocktype;
    let queue = next_types(&s);
    assert!(block_hold(&mut s));
    assert_eq!(s.hold.blocktype, Some(held));
    assert!(!s.hold.can_hold);
    assert_eq!(s.current.blocktype, queue[0]);
    assert_eq!(s.current.blockid, 0);
    assert_eq!(s.current.pos, GridPos { col: 3, row: 4 });
    assert_eq!(next_types(&s)[..3], queue[1..]);
}

#[test]
fn second_hold_before_a_lock_is_refused() {
    let mut s = GameSession::new();
    assert!(block_hold(&mut s));
    let current = s.current;
    let hold = s.hold;
    assert!(!block_hold(&mut s));
    assert_eq!(s.current, current);
    assert_eq!(s.hold, hold);
}

#[test]
fn hold_swaps_with_the_held_piece() {
    let mut s = GameSession::new();
    s.hold.blocktype = Some(BlockType::TypeZ);
    s.current = piece(BlockType::TypeO, 0, 0, 10);
    let queue = next_types(&s);
    assert!(block_hold(&mut s));
    assert_eq!(s.current, piece(BlockType::TypeZ, 0, 3, 4));
    assert_eq!(s.hold.blocktype, Some(BlockType::TypeO));
    assert_eq!(next_types(&s), queue);
}

#[test]
fn can_hold_returns_only_after_a_lock() {
    let mut s = GameSession::new();
    assert!(s.hold.can_hold);
    assert!(block_hold(&mut s));
    assert!(!s.hold.can_hold);
    assert!(matches!(block_movement(&mut s, Direction::Bottom), StepOutcome::Moved));
    block_rotation(&mut s, RotationDirection::Right);
    block_movement(&mut s, Direction::Left);
    assert!(!s.hold.can_hold);
    assert!(matches!(block_harddrop(&mut s), StepOutcome::Locked(_)));
    assert!(s.hold.can_hold);
    assert!(block_hold(&mut s));
}

#[test]
fn left_then_right_returns_to_the_anchor() {
    let mut s = GameSession::new();
    s.current = piece(BlockType::TypeT, 0, 4, 10);
    assert!(matches!(block_movement(&mut s, Direction::Left), StepOutcome::Moved));
    assert_eq!(s.current.pos, GridPos { col: 3, row: 10 });
    assert!(matches!(block_movement(&mut s, Direction::Right), StepOutcome::Moved));
    assert_eq!(s.current.pos, GridPos { col: 4, row: 10 });
    assert!(matches!(block_movement(&mut s, Direction::Right), StepOutcome::Moved));
    assert!(matches!(block_movement(&mut s, Direction::Left), StepOutcome::Moved));
    assert_eq!(s.current, piece(BlockType::TypeT, 0, 4, 10));
}

#[test]
fn blocked_side_moves_change_nothing() {
    let mut s = GameSession::new();
    s.current = piece(BlockType::TypeI, 0, 0, 10);
    assert!(matches!(block_movement(&mut s, Direction::Left), StepOutcome::Rejected));
    assert_eq!(s.current.pos, GridPos { col: 0, row: 10 });
    s.board.insert(4, 11);
    assert!(matches!(block_movement(&mut s, Direction::Right), StepOutcome::Rejected));
    assert_eq!(s.current.pos, GridPos { col: 0, row: 10 });
}

#[test]
fn locked_cell_below_locks_the_piece() {
    let mut s = GameSession::new();
    s.board.insert(1, 12);
    s.current = piece(BlockType::TypeI, 0, 0, 10);
    assert!(matches!(block_movement(&mut s, Direction::Bottom), StepOutcome::Locked(_)));
    assert_eq!(row_cells(&s.board, 11), vec![0, 1, 2, 3]);
}

#[test]
fn rotation_turns_in_place_when_free() {
    let mut s = GameSession::new();
    s.current = piece(BlockType::TypeT, 0, 4, 10);
    s.falling.elapsed_ms = 300;
    assert!(block_rotation(&mut s, RotationDirection::Right));
    assert_eq!(s.current, piece(BlockType::TypeT, 1, 4, 10));
    assert_eq!(s.falling.elapsed_ms, 0);
    assert!(block_rotation(&mut s, RotationDirection::Left));
    assert!(block_rotation(&mut s, RotationDirection::Left));
    assert_eq!(s.current, piece(BlockType::TypeT, 3, 4, 10));
}

#[test]
fn rotation_kicks_away_from_the_left_wall() {
    let mut s = GameSession::new();
    s.current = piece(BlockType::TypeI, 1, -2, 10);
    assert!(block_rotation(&mut s, RotationDirection::Right));
    assert_eq!(s.current, piece(BlockType::TypeI, 2, 0, 10));
}

#[test]
fn rotation_kicks_up_from_the_floor() {
    let mut s = GameSession::new();
    s.current = piece(BlockType::TypeI, 0, 3, 22);
    assert!(block_rotation(&mut s, RotationDirection::Right));
    assert_eq!(s.current, piece(BlockType::TypeI, 1, 3, 20));
}

#[test]
fn rotation_that_cannot_be_resolved_is_undone() {
    let mut s = GameSession::new();
    s.board.insert(2, 12);
    s.current = piece(BlockType::TypeI, 1, -2, 10);
    s.falling.elapsed_ms = 300;
    assert!(!block_rotation(&mut s, RotationDirection::Right));
    assert_eq!(s.current, piece(BlockType::TypeI, 1, -2, 10));
    assert_eq!(s.falling.elapsed_ms, 300);
}

#[test]
fn hard_drop_lands_on_the_floor() {
    let mut s = GameSession::new();
    s.current = piece(BlockType::TypeO, 0, 3, 4);
    match block_harddrop(&mut s) {
        StepOutcome::Locked(rep) => assert!(rep.cleared_rows.is_empty()),
        other => panic!("unexpected outcome {:?}", other),
    }
    assert_eq!(row_cells(&s.board, 23), vec![4, 5]);
    assert_eq!(row_cells(&s.board, 22), vec![4, 5]);
}

#[test]
fn lock_in_the_spawn_zone_ends_the_game_once() {
    let mut s = GameSession::new();
    for r in 5..24 {
        s.board.insert(5, r);
    }
    s.current = piece(BlockType::TypeO, 0, 3, 2);
    assert!(!s.game_over);
    assert!(matches!(block_movement(&mut s, Direction::Left), StepOutcome::Moved));
    assert!(matches!(block_movement(&mut s, Direction::Right), StepOutcome::Moved));
    assert!(!s.game_over);
    match block_movement(&mut s, Direction::Bottom) {
        StepOutcome::Locked(rep) => assert!(rep.game_over),
        other => panic!("unexpected outcome {:?}", other),
    }
    assert!(s.game_over);
    let cells = occupied_count(&s.board);
    assert!(matches!(block_movement(&mut s, Direction::Bottom), StepOutcome::Ignored));
    assert!(matches!(block_harddrop(&mut s), StepOutcome::Ignored));
    assert!(matches!(block_falling(&mut s, 10_000), StepOutcome::Ignored));
    assert!(!block_rotation(&mut s, RotationDirection::Right));
    assert!(!block_hold(&mut s));
    assert_eq!(occupied_count(&s.board), cells);
}

#[test]
fn lock_below_the_spawn_zone_keeps_playing() {
    let mut s = GameSession::new();
    for r in 7..24 {
        s.board.insert(5, r);
    }
    s.current = piece(BlockType::TypeO, 0, 3, 4);
    match block_movement(&mut s, Direction::Bottom) {
        StepOutcome::Locked(rep) => assert!(!rep.game_over),
        other => panic!("unexpected outcome {:?}", other),
    }
    assert!(!s.game_over);
    assert!(s.board.is_occupied(5, 5));
    assert!(s.board.is_occupied(5, 6));
}

#[test]
fn check_gameover_watches_only_the_spawn_columns() {
    let mut s = GameSession::new();
    s.board.insert(4, 0);
    s.board.insert(7, 4);
    s.board.insert(5, 5);
    assert!(!check_gameover(&mut s));
    assert!(!s.game_over);
    s.board.insert(6, 4);
    assert!(check_gameover(&mut s));
    assert!(s.game_over);
}

#[test]
fn spawn_is_raised_over_locked_cells() {
    let mut s = GameSession::new();
    s.board.insert(4, 5);
    spawn_with(&mut s, Some(BlockType::TypeI), BlockType::TypeO);
    assert_eq!(s.current, piece(BlockType::TypeI, 0, 3, 3));
    assert!(!s.game_over);
}

#[test]
fn spawn_with_no_room_ends_the_game() {
    let mut s = GameSession::new();
    for r in 0..24 {
        s.board.insert(4, r);
    }
    let queue = next_types(&s);
    spawn_with(&mut s, None, BlockType::TypeS);
    assert!(s.game_over);
    assert_eq!(s.current.blocktype, queue[0]);
    let mut expected = queue[1..].to_vec();
    expected.push(BlockType::TypeS);
    assert_eq!(next_types(&s), expected);
}

#[test]
fn spawn_from_queue_draws_a_new_type() {
    let mut s = GameSession::new();
    let queue = next_types(&s);
    block_spawn(&mut s, None);
    assert_eq!(s.current.blocktype, queue[0]);
    assert_eq!(next_types(&s)[..3], queue[1..]);
    block_spawn(&mut s, Some(BlockType::TypeS));
    assert_eq!(s.current.blocktype, BlockType::TypeS);
}

#[test]
fn gravity_moves_the_piece_each_period() {
    let mut s = GameSession::new();
    let row = s.current.pos.row;
    assert!(matches!(block_falling(&mut s, BLOCK_FALL_INTERVAL_MS - 1), StepOutcome::Waiting));
    assert_eq!(s.current.pos.row, row);
    assert!(matches!(block_falling(&mut s, 1), StepOutcome::Moved));
    assert_eq!(s.current.pos.row, row + 1);
    assert_eq!(s.falling.elapsed_ms, 0);
    s.falling.pause();
    assert!(matches!(block_falling(&mut s, 5 * BLOCK_FALL_INTERVAL_MS), StepOutcome::Waiting));
    assert_eq!(s.current.pos.row, row + 1);
}

#[test]
fn clear_block_and_enable_hold_pieces() {
    let mut s = GameSession::new();
    for c in 0..6 {
        s.board.insert(c, 23);
    }
    s.current = piece(BlockType::TypeI, 0, 6, 22);
    s.hold.can_hold = false;
    let rows = clear_block(&mut s);
    assert_eq!(rows, vec![23]);
    assert_eq!(s.score.0, 1);
    assert_eq!(occupied_count(&s.board), 0);
    enable_hold(&mut s);
    assert!(s.hold.can_hold);
}

#[test]
fn lock_piece_reports_and_spawns() {
    let mut s = GameSession::new();
    s.current = piece(BlockType::TypeO, 0, 0, 21);
    let queue = next_types(&s);
    let rep = lock_piece(&mut s);
    assert!(rep.cleared_rows.is_empty());
    assert!(!rep.game_over);
    assert_eq!(s.current.blocktype, queue[0]);
    assert_eq!(row_cells(&s.board, 22), vec![1, 2]);
    assert_eq!(row_cells(&s.board, 23), vec![1, 2]);
}

#[test]
fn reset_starts_a_new_game() {
    let mut s = GameSession::new();
    s.board.insert(0, 23);
    s.score.0 = 7;
    s.game_over = true;
    s.reset();
    assert!(!s.game_over);
    assert_eq!(s.score.0, 0);
    assert_eq!(occupied_count(&s.board), 0);
}

#[test]
fn landing_position_stops_on_locked_cells() {
    let mut s = GameSession::new();
    s.board.insert(4, 15);
    s.current = piece(BlockType::TypeT, 0, 3, 4);
    let landed = landing_position(&s);
    assert_eq!(landed, piece(BlockType::TypeT, 0, 3, 13));
    assert_eq!(s.current, piece(BlockType::TypeT, 0, 3, 4));
    s.current = piece(BlockType::TypeT, 0, 6, 4);
    assert_eq!(landing_position(&s), piece(BlockType::TypeT, 0, 6, 22));
}

#[test]
fn soft_drop_key_pauses_gravity_while_held() {
    let mut s = GameSession::new();
    let mut k = RepeatTimer::new();
    s.falling.elapsed_ms = 400;
    assert_eq!(key_block_movebottom(&mut s, &mut k, true, true, false, 16), 1);
    assert!(s.falling.paused);
    assert_eq!(s.falling.elapsed_ms, 0);
    assert!(matches!(block_falling(&mut s, 1000), StepOutcome::Waiting));
    assert_eq!(key_block_movebottom(&mut s, &mut k, false, true, false, 240), 1);
    assert_eq!(key_block_movebottom(&mut s, &mut k, false, false, true, 16), 0);
    assert!(!s.falling.paused);
    assert_eq!(k.elapsed_ms, 0);
}

#[test]
fn rotation_over_the_top_is_undone() {
    let mut s = GameSession::new();
    s.current = piece(BlockType::TypeI, 0, 3, -1);
    assert!(!block_rotation(&mut s, RotationDirection::Right));
    assert_eq!(s.current, piece(BlockType::TypeI, 0, 3, -1));
}

#[test]
fn hold_without_room_for_the_incoming_piece_ends_the_game() {
    let mut s = GameSession::new();
    for r in 0..24 {
        s.board.insert(4, r);
    }
    s.current = piece(BlockType::TypeI, 1, -2, 10);
    let queue = next_types(&s);
    assert!(block_hold(&mut s));
    assert!(s.game_over);
    assert!(!s.hold.can_hold);
    assert_eq!(s.hold.blocktype, Some(BlockType::TypeI));
    assert_eq!(s.current, piece(queue[0], 0, 3, 4));
    assert_eq!(next_types(&s)[..3], queue[1..]);
    assert!(!block_hold(&mut s));
}

#[test]
fn queue_holds_the_last_four_draws() {
    let mut s = GameSession::new();
    assert!(s.randomizer.started);
    assert_eq!(next_types(&s), s.randomizer.history);
    assert!(matches!(block_harddrop(&mut s), StepOutcome::Locked(_)));
    assert_eq!(next_types(&s), s.randomizer.history);
    s.reset();
    assert_eq!(next_types(&s), s.randomizer.history);
    assert_eq!(s.falling.elapsed_ms, 0);
}
