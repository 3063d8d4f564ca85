use ittoku_tetris::randomizer::{MAX_ROLLS, POOL_SIZE};
use ittoku_tetris::{BlockRandomizer, BlockType};

const ALL: [BlockType; 7] = [
    BlockType::TypeI,
    BlockType::TypeJ,
    BlockType::TypeL,
    BlockType::TypeO,
    BlockType::TypeS,
    BlockType::TypeT,
    BlockType::TypeZ,
];

fn is_opening(t: BlockType) -> bool {
    matches!(t, BlockType::TypeI | BlockType::TypeJ | BlockType::TypeL | BlockType::TypeT)
}

#[test]
fn new_randomizer_state() {
    let r = BlockRandomizer::new();
    assert!(!r.started);
    assert_eq!(r.pool.len(), POOL_SIZE);
    for t in ALL {
        assert_eq!(r.pool.iter().filter(|&&x| x == t).count(), 5);
    }
    assert_eq!(r.history, vec![BlockType::TypeS, BlockType::TypeZ, BlockType::TypeS, BlockType::TypeZ]);
    assert_eq!(r.order, ALL.to_vec());
}

#[test]
fn first_piece_is_an_opening_candidate() {
    let mut seen = Vec::new();
    for _ in 0..400 {
        let mut r = BlockRandomizer::new();
        let t = r.next();
        assert!(is_opening(t));
        assert!(r.started);
        if !seen.contains(&t) {
            seen.push(t);
        }
    }
    assert_eq!(seen.len(), 4);
}

#[test]
fn first_with_picks_and_records() {
    let mut r = BlockRandomizer::new();
    let t = r.first_with(3);
    assert_eq!(t, BlockType::TypeT);
    assert_eq!(r.history, vec![BlockType::TypeZ, BlockType::TypeS, BlockType::TypeZ, BlockType::TypeT]);
    assert_eq!(
        r.order,
        vec![
            BlockType::TypeI,
            BlockType::TypeJ,
            BlockType::TypeL,
            BlockType::TypeO,
            BlockType::TypeS,
            BlockType::TypeZ,
            BlockType::TypeT
        ]
    );
}

#[test]
fn next_with_skips_recent_types() {
    let mut r = BlockRandomizer::new();
    r.first_with(0);
    // History is now Z, S, Z, I; pool slot k holds type k % 7.
    let draws = vec![4, 6, 0, 3, 1, 2];
    let t = r.next_with(&draws);
    assert_eq!(t, BlockType::TypeO);
    assert_eq!(r.history, vec![BlockType::TypeS, BlockType::TypeZ, BlockType::TypeI, BlockType::TypeO]);
    assert_eq!(
        r.order,
        vec![
            BlockType::TypeJ,
            BlockType::TypeL,
            BlockType::TypeS,
            BlockType::TypeT,
            BlockType::TypeZ,
            BlockType::TypeI,
            BlockType::TypeO
        ]
    );
    assert_eq!(r.pool[3], BlockType::TypeJ);
    assert_eq!(r.pool[10], BlockType::TypeO);
}

#[test]
fn next_with_takes_the_last_roll_when_all_are_recent() {
    let mut r = BlockRandomizer::new();
    r.first_with(0);
    let draws = vec![4, 6, 0, 11, 13, 7];
    assert_eq!(draws.len(), MAX_ROLLS);
    let t = r.next_with(&draws);
    assert_eq!(t, BlockType::TypeI);
    assert_eq!(r.history, vec![BlockType::TypeS, BlockType::TypeZ, BlockType::TypeI, BlockType::TypeI]);
    assert_eq!(r.pool[7], BlockType::TypeJ);
}

#[test]
fn long_run_rarely_repeats_within_four() {
    let mut r = BlockRandomizer::new();
    let mut out = Vec::new();
    let mut counts = [0usize; 7];
    for _ in 0..10_000 {
        let t = r.next();
        counts[ALL.iter().position(|x| *x == t).unwrap()] += 1;
        out.push(t);
    }
    assert!(is_opening(out[0]));
    let mut repeats = 0;
    for i in 1..out.len() {
        let start = i.saturating_sub(4);
        if out[start..i].contains(&out[i]) {
            repeats += 1;
        }
    }
    assert!(repeats < 1000, "{} repeats", repeats);
    assert!(counts.iter().all(|&c| c > 700));
    assert_eq!(r.pool.len(), POOL_SIZE);
    for t in ALL {
        assert!(r.order.contains(&t));
    }
}

#[test]
fn reset_restarts_the_sequence() {
    let mut r = BlockRandomizer::new();
    for _ in 0..10 {
        r.next();
    }
    r.reset();
    assert!(!r.started);
    assert_eq!(r.history, vec![BlockType::TypeS, BlockType::TypeZ, BlockType::TypeS, BlockType::TypeZ]);
    assert!(is_opening(r.next()));
}
