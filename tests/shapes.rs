use ittoku_tetris::blocktype::{FIRST_CANDIDATE_COUNT, ROTATION_COUNT, TYPE_COUNT};
use ittoku_tetris::{BlockType, Rgb};

const ALL: [BlockType; 7] = [
    BlockType::TypeI,
    BlockType::TypeJ,
    BlockType::TypeL,
    BlockType::TypeO,
    BlockType::TypeS,
    BlockType::TypeT,
    BlockType::TypeZ,
];

#[test]
fn every_orientation_has_four_distinct_cells() {
    for t in ALL {
        let data = t.blockdata();
        for rot in 0..ROTATION_COUNT {
            let mut seen = [0usize; 5];
            for i in 0..16 {
                let id = data[rot][i];
                assert!(id <= 4);
                seen[id] += 1;
            }
            assert_eq!(seen[1..], [1, 1, 1, 1]);
            let mut indices: Vec<usize> = (1..=4).map(|id| t.cell_index(rot, id)).collect();
            indices.sort();
            indices.dedup();
            assert_eq!(indices.len(), 4);
            assert!(indices.iter().all(|&i| i < 16));
        }
    }
}

#[test]
fn i_block_table_layout() {
    let data = BlockType::TypeI.blockdata();
    assert_eq!(data[0], [0, 0, 0, 0, 1, 2, 3, 4, 0, 0, 0, 0, 0, 0, 0, 0]);
    assert_eq!(data[1], [0, 0, 1, 0, 0, 0, 2, 0, 0, 0, 3, 0, 0, 0, 4, 0]);
    assert_eq!(data[2], [0, 0, 0, 0, 0, 0, 0, 0, 1, 2, 3, 4, 0, 0, 0, 0]);
    assert_eq!(data[3], [0, 1, 0, 0, 0, 2, 0, 0, 0, 3, 0, 0, 0, 4, 0, 0]);
}

#[test]
fn s_block_keeps_its_cell_ids_per_orientation() {
    let data = BlockType::TypeS.blockdata();
    assert_eq!(data[2], [0, 2, 1, 0, 3, 4, 0, 0, 0, 0, 0, 0, 0, 0, 0, 0]);
    assert_eq!(BlockType::TypeS.layout(2), (2, 1, 4, 5));
    assert_eq!(BlockType::TypeL.layout(0), (2, 6, 5, 4));
}

#[test]
fn o_block_is_the_same_in_every_orientation() {
    let data = BlockType::TypeO.blockdata();
    for rot in 1..4 {
        assert_eq!(data[rot], data[0]);
    }
}

#[test]
fn colours_are_fixed_per_type() {
    assert_eq!(BlockType::TypeI.color(), Rgb { r: 135, g: 224, b: 252 });
    assert_eq!(BlockType::TypeZ.color(), Rgb { r: 255, g: 117, b: 128 });
    let mut all: Vec<(u8, u8, u8)> = ALL.iter().map(|t| {
        let c = t.color();
        (c.r, c.g, c.b)
    }).collect();
    all.sort();
    all.dedup();
    assert_eq!(all.len(), 7);
}

#[test]
fn type_table_order() {
    for (i, t) in ALL.iter().enumerate() {
        assert_eq!(BlockType::from_index(i), *t);
    }
    assert_eq!(TYPE_COUNT, 7);
    let firsts: Vec<BlockType> = (0..FIRST_CANDIDATE_COUNT).map(BlockType::first_candidate).collect();
    assert_eq!(firsts, vec![BlockType::TypeI, BlockType::TypeJ, BlockType::TypeL, BlockType::TypeT]);
}

#[test]
fn random_type_covers_all_types() {
    let mut seen = [false; 7];
    for _ in 0..2000 {
        let t = BlockType::random();
        let i = ALL.iter().position(|x| *x == t).unwrap();
        seen[i] = true;
    }
    assert!(seen.iter().all(|&s| s));
}
