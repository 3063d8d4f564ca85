use ittoku_tetris::piece::fits;
use ittoku_tetris::{BlockMap, BlockType, CurrentBlocks, GridPos};

fn rows_of(board: &BlockMap) -> Vec<Vec<bool>> {
    (0..24).map(|r| (0..10).map(|c| board.is_occupied(c, r)).collect()).collect()
}

#[test]
fn new_board_is_empty() {
    let b = BlockMap::new();
    assert!(rows_of(&b).iter().all(|row| row.iter().all(|&x| !x)));
}

#[test]
fn insert_marks_one_cell() {
    let mut b = BlockMap::new();
    b.insert(9, 23);
    b.insert(0, 0);
    assert!(b.is_occupied(9, 23));
    assert!(b.is_occupied(0, 0));
    assert!(!b.is_occupied(8, 23));
    let count: usize = rows_of(&b).iter().map(|r| r.iter().filter(|&&x| x).count()).sum();
    assert_eq!(count, 2);
}

#[test]
fn full_row_is_detected() {
    let mut b = BlockMap::new();
    for c in 0..9 {
        b.insert(c, 20);
    }
    assert!(!b.is_row_full(20));
    b.insert(9, 20);
    assert!(b.is_row_full(20));
    assert!(!b.is_row_full(21));
}

#[test]
fn clearline_shifts_rows_above_down_by_one() {
    let mut b = BlockMap::new();
    for c in 0..10 {
        b.insert(c, 20);
    }
    b.insert(1, 19);
    b.insert(2, 5);
    b.insert(3, 0);
    b.insert(4, 22);
    let before = rows_of(&b);
    b.clearline(20);
    let after = rows_of(&b);
    assert!(after[0].iter().all(|&x| !x));
    for r in 1..=20 {
        assert_eq!(after[r], before[r - 1]);
    }
    for r in 21..24 {
        assert_eq!(after[r], before[r]);
    }
    assert!(after[20][1]);
    assert!(after[6][2]);
    assert!(after[1][3]);
    assert!(after[22][4]);
    assert!(!b.is_row_full(20));
}

#[test]
fn clearline_of_top_row_empties_it() {
    let mut b = BlockMap::new();
    for c in 0..10 {
        b.insert(c, 0);
    }
    b.clearline(0);
    assert!(rows_of(&b).iter().all(|row| row.iter().all(|&x| !x)));
}

#[test]
fn reset_empties_the_board() {
    let mut b = BlockMap::new();
    b.insert(3, 3);
    b.reset();
    assert!(!b.is_occupied(3, 3));
}

#[test]
fn piece_cells_follow_the_anchor() {
    let p = CurrentBlocks { blocktype: BlockType::TypeT, blockid: 0, pos: GridPos { col: 3, row: 4 } };
    assert_eq!(p.position(1), GridPos { col: 4, row: 4 });
    assert_eq!(p.position(2), GridPos { col: 3, row: 5 });
    assert_eq!(p.position(3), GridPos { col: 4, row: 5 });
    assert_eq!(p.position(4), GridPos { col: 5, row: 5 });
    let q = CurrentBlocks::new();
    assert_eq!(q.blocktype, BlockType::TypeI);
    assert_eq!(q.pos, GridPos { col: 3, row: 4 });
}

#[test]
fn fits_checks_walls_floor_and_locked_cells() {
    let mut b = BlockMap::new();
    assert!(fits(&b, BlockType::TypeI, 0, 0, 0));
    assert!(!fits(&b, BlockType::TypeI, 0, -1, 0));
    assert!(fits(&b, BlockType::TypeI, 0, 6, 0));
    assert!(!fits(&b, BlockType::TypeI, 0, 7, 0));
    assert!(fits(&b, BlockType::TypeI, 0, 0, 22));
    assert!(!fits(&b, BlockType::TypeI, 0, 0, 23));
    assert!(!fits(&b, BlockType::TypeI, 0, 0, -2));
    b.insert(2, 11);
    assert!(!fits(&b, BlockType::TypeI, 0, 0, 10));
    assert!(fits(&b, BlockType::TypeI, 0, 3, 10));
}
