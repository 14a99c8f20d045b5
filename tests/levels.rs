use brickbreaker::entities::{Block, BlockType, BLOCK_COLS, BLOCK_ROWS};
use brickbreaker::levels::{create_blocks, isqrt, MIN_BLOCKS};

fn same_blocks(a: &[Block], b: &[Block]) -> bool {
    a.len() == b.len() && a.iter().zip(b.iter()).all(|(x, y)| x == y)
}

#[test]
fn fixed_levels_are_pure() {
    for level in 1..=9 {
        let a = create_blocks(level);
        let b = create_blocks(level);
        assert!(same_blocks(&a, &b), "level {} differs between calls", level);
    }
}

#[test]
fn level_one_is_a_full_grid() {
    let blocks = create_blocks(1);
    assert_eq!(blocks.len(), BLOCK_ROWS * BLOCK_COLS);
    assert_eq!((blocks[0].x, blocks[0].y), (40, 80));
    assert_eq!((blocks[199].x, blocks[199].y), (40 + 19 * 60, 80 + 9 * 20));
    assert!(blocks.iter().all(|b| b.active && b.block_type == BlockType::Normal));
    assert_eq!((blocks[0].color.r, blocks[0].color.g, blocks[0].color.b), (255, 0, 0));
    assert_eq!((blocks[20].color.r, blocks[20].color.g, blocks[20].color.b), (255, 165, 0));
}

#[test]
fn level_two_is_a_checkerboard() {
    let blocks = create_blocks(2);
    assert_eq!(blocks.len(), 100);
    for b in &blocks {
        let col = (b.x - 40) / 60;
        let row = (b.y - 80) / 20;
        assert_eq!((row + col) % 2, 0);
    }
}

#[test]
fn level_three_is_stripes_and_five_a_pyramid() {
    assert_eq!(create_blocks(3).len(), 100);
    // rows 0..9 hold 1, 3, 5, ... blocks, clipped by the grid's edges
    let pyramid = create_blocks(5);
    let expected: usize = (0..10).map(|r: i32| (0..20).filter(|c: &i32| (c - 10).abs() <= r).count()).sum();
    assert_eq!(pyramid.len(), expected);
}

#[test]
fn procedural_levels_are_deterministic_and_dense() {
    for level in 10..60 {
        let a = create_blocks(level);
        let b = create_blocks(level);
        assert!(same_blocks(&a, &b), "level {} differs between calls", level);
        assert!(a.len() >= MIN_BLOCKS, "level {} has only {} blocks", level, a.len());
    }
}

#[test]
fn procedural_levels_vary() {
    let layouts: Vec<Vec<Block>> = (10..30).map(create_blocks).collect();
    let distinct = (1..layouts.len()).filter(|&i| !same_blocks(&layouts[i], &layouts[0])).count();
    assert!(distinct > 0);
}

#[test]
fn integer_square_root() {
    assert_eq!(isqrt(0), 0);
    assert_eq!(isqrt(1), 1);
    assert_eq!(isqrt(24), 4);
    assert_eq!(isqrt(25), 5);
    assert_eq!(isqrt(u64::MAX), 0xffff_ffff);
}
