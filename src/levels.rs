use crate::chance::{draw_seeded, seeded_draw};
use crate::entities::{
    block_color, fresh_block, palette, placed, Block, BlockType, BLOCK_COLS, BLOCK_HEIGHT,
    BLOCK_OFFSET_X, BLOCK_OFFSET_Y, BLOCK_ROWS, BLOCK_WIDTH,
};
use vstd::prelude::*;
use vstd::wrapping::u64_specs::{wrapping_add, wrapping_mul};

verus! {

/// Fewest blocks a procedural level should hold before retries give up.
pub const MIN_BLOCKS: usize = 20;
/// How many times a sparse procedural level is generated again with a new seed.
pub const MAX_RETRIES: u32 = 10;
/// Levels up to this one have hand-authored layouts.
pub const FIXED_LEVELS: usize = 9;
/// Number of procedural pattern families.
pub const PATTERN_FAMILIES: u32 = 12;

pub open spec fn abs_int(v: int) -> int {
    if v < 0 { -v } else { v }
}

/// Integer square root, found by counting up from `k`.
pub open spec fn isqrt_from(n: nat, k: nat) -> nat
    decreases n - k,
{
    if k >= n || (k + 1) * (k + 1) > n {
        k
    } else {
        isqrt_from(n, k + 1)
    }
}

/// The largest `r` with `r * r <= n`.
pub open spec fn isqrt_spec(n: nat) -> nat {
    isqrt_from(n, 0)
}

proof fn lemma_isqrt_from(n: nat, k: nat, r: nat)
    requires
        r * r <= n < (r + 1) * (r + 1),
        k <= r,
    ensures
        isqrt_from(n, k) == r,
    decreases r - k,
{
    if k < r {
        assert((k + 1) * (k + 1) <= r * r) by (nonlinear_arith)
            requires k + 1 <= r;
        assert(r <= n) by (nonlinear_arith)
            requires r * r <= n, k < r;
        lemma_isqrt_from(n, k + 1, r);
    } else {
        assert((k + 1) * (k + 1) > n);
    }
}

/// A number whose square brackets `n` is its integer square root.
pub proof fn lemma_isqrt_unique(n: nat, r: nat)
    requires
        r * r <= n < (r + 1) * (r + 1),
    ensures
        isqrt_spec(n) == r,
{
    lemma_isqrt_from(n, 0, r);
}

/// Integer square root by bisection.
pub fn isqrt(n: u64) -> (r: u64)
    ensures
        r * r <= n < (r + 1) * (r + 1),
        r == isqrt_spec(n as nat),
{
    let mut lo: u64 = 0;
    let mut hi: u64 = 0x1_0000_0000;
    assert(n < hi * hi);
    while hi - lo > 1
        invariant
            lo < hi <= 0x1_0000_0000,
            lo * lo <= n,
            n < hi * hi,
        decreases hi - lo,
    {
        let mid = lo + (hi - lo) / 2;
        assert(mid * mid <= 0xffff_ffff * 0xffff_ffff) by (nonlinear_arith)
            requires mid < 0x1_0000_0000;
        if mid * mid <= n {
            lo = mid;
        } else {
            hi = mid;
        }
    }
    assert(hi == lo + 1);
    proof {
        lemma_isqrt_unique(n as nat, lo as nat);
    }
    lo
}

/// Rows of the spiral layout, one bit per column (bit 0 is the leftmost column).
pub open spec fn spiral_row_mask(row: int) -> u32 {
    if row == 0 {
        0x3f001
    } else if row == 1 {
        0x3f000
    } else if row == 2 {
        0x3e000
    } else if row == 3 {
        0x3e180
    } else if row == 4 {
        0x1f3e0
    } else if row == 5 {
        0x1fbf0
    } else if row == 6 {
        0xf9f0
    } else if row == 7 {
        0x30f8
    } else if row == 8 {
        0xf8
    } else {
        0x1f8
    }
}

fn spiral_row_mask_exec(row: usize) -> (m: u32)
    ensures
        m == spiral_row_mask(row as int),
{
    if row == 0 {
        0x3f001
    } else if row == 1 {
        0x3f000
    } else if row == 2 {
        0x3e000
    } else if row == 3 {
        0x3e180
    } else if row == 4 {
        0x1f3e0
    } else if row == 5 {
        0x1fbf0
    } else if row == 6 {
        0xf9f0
    } else if row == 7 {
        0x30f8
    } else if row == 8 {
        0xf8
    } else {
        0x1f8
    }
}

/// Squared distance of a grid cell from the grid centre (row 5, column 10).
pub open spec fn center_dist2(row: int, col: int) -> int {
    (col - 10) * (col - 10) + (row - 5) * (row - 5)
}

/// The hand-authored layouts: whether level `level` holds a block at (`row`, `col`).
pub open spec fn fixed_cell(level: int, row: int, col: int) -> bool {
    if level == 2 {
        // checkerboard
        (row + col) % 2 == 0
    } else if level == 3 {
        // horizontal stripes
        row % 2 == 0
    } else if level == 4 {
        // columns joined by a top and a bottom row
        col % 2 == 0 || (col % 2 == 1 && row == 0) || row == 9
    } else if level == 5 {
        // pyramid
        abs_int(col - 10) <= row
    } else if level == 6 {
        // diamond
        abs_int(col - 10) + abs_int(row - 5) <= 7
    } else if level == 7 {
        // spiral
        (spiral_row_mask(row) >> (col as u32)) & 1u32 == 1u32
    } else if level == 8 {
        // rings
        isqrt_spec(center_dist2(row, col) as nat) % 3 != 1
    } else if level == 9 {
        // lattice with holes
        !(col % 4 == 1 && row % 4 == 1) && !(col % 4 == 2 && row % 4 == 2) && (col + row) % 7 != 0
    } else {
        // full grid
        true
    }
}

fn fixed_cell_exec(level: usize, row: usize, col: usize) -> (r: bool)
    requires
        row < BLOCK_ROWS,
        col < BLOCK_COLS,
    ensures
        r == fixed_cell(level as int, row as int, col as int),
{
    let dc: i64 = col as i64 - 10;
    let dr: i64 = row as i64 - 5;
    let adc: i64 = if dc < 0 { -dc } else { dc };
    let adr: i64 = if dr < 0 { -dr } else { dr };
    if level == 2 {
        (row + col) % 2 == 0
    } else if level == 3 {
        row % 2 == 0
    } else if level == 4 {
        col % 2 == 0 || (col % 2 == 1 && row == 0) || row == 9
    } else if level == 5 {
        adc <= row as i64
    } else if level == 6 {
        adc + adr <= 7
    } else if level == 7 {
        (spiral_row_mask_exec(row) >> (col as u32)) & 1u32 == 1u32
    } else if level == 8 {
        assert(0 <= dc * dc <= 100 && 0 <= dr * dr <= 25) by (nonlinear_arith)
            requires -10 <= dc <= 9, -5 <= dr <= 4;
        let d2: i64 = dc * dc + dr * dr;
        isqrt(d2 as u64) % 3 != 1
    } else if level == 9 {
        !(col % 4 == 1 && row % 4 == 1) && !(col % 4 == 2 && row % 4 == 2) && (col + row) % 7 != 0
    } else {
        true
    }
}

/// Seed of a procedural level's pattern choice, for a given retry.
pub open spec fn attempt_seed(level: u64, attempt: u64) -> u64 {
    wrapping_add(
        wrapping_add(
            wrapping_add(wrapping_mul(level, 54321), wrapping_mul(level % 7, 11111)),
            wrapping_mul(level / 5, 99999),
        ),
        wrapping_mul(attempt, 77777),
    )
}

fn attempt_seed_exec(level: u64, attempt: u64) -> (s: u64)
    ensures
        s == attempt_seed(level, attempt),
{
    level.wrapping_mul(54321).wrapping_add((level % 7).wrapping_mul(11111)).wrapping_add(
        (level / 5).wrapping_mul(99999),
    ).wrapping_add(attempt.wrapping_mul(77777))
}

/// Seed of the draw made for one grid cell.
pub open spec fn cell_seed(level: u64, attempt: u64, row: u64, col: u64) -> u64 {
    wrapping_add(wrapping_add(wrapping_add(wrapping_mul(level, 1000), (row * 100) as u64), col), attempt)
}

fn cell_seed_exec(level: u64, attempt: u64, row: u64, col: u64) -> (s: u64)
    requires
        row < 10,
    ensures
        s == cell_seed(level, attempt, row, col),
{
    level.wrapping_mul(1000).wrapping_add(row * 100).wrapping_add(col).wrapping_add(attempt)
}

/// Range of the parameter drawn for each pattern family (1 where none is used).
pub open spec fn param_bound(t: u32) -> u32 {
    if t == 0 {
        20
    } else if t == 1 {
        61
    } else if t == 2 {
        3
    } else if t == 3 {
        16
    } else if t == 4 {
        3
    } else if t == 5 {
        4
    } else {
        1
    }
}

fn param_bound_exec(t: u32) -> (b: u32)
    ensures
        b == param_bound(t),
        b > 0,
{
    if t == 0 {
        20
    } else if t == 1 {
        61
    } else if t == 2 {
        3
    } else if t == 3 {
        16
    } else if t == 4 {
        3
    } else if t == 5 {
        4
    } else {
        1
    }
}

/// The pattern family of a procedural level, for a given retry.
pub open spec fn pattern_of(level: u64, attempt: u64) -> u32 {
    seeded_draw(attempt_seed(level, attempt), PATTERN_FAMILIES)
}

/// The parameter of that pattern family.
pub open spec fn param_of(level: u64, attempt: u64) -> u32 {
    seeded_draw(
        wrapping_add(attempt_seed(level, attempt), 1),
        param_bound(pattern_of(level, attempt)),
    )
}

/// A sine-like wave over the grid, in hundredths: two parabolic lobes per period.
pub open spec fn wave_height(row: int, col: int) -> int {
    let q = (5 * col + 3 * row) % 63;
    if q <= 31 {
        400 * q * (31 - q) / 961
    } else {
        -(400 * (q - 31) * (62 - q) / 961)
    }
}

fn wave_height_exec(row: usize, col: usize) -> (h: i64)
    requires
        row < BLOCK_ROWS,
        col < BLOCK_COLS,
    ensures
        h == wave_height(row as int, col as int),
{
    let q: u64 = ((5 * col + 3 * row) % 63) as u64;
    if q <= 31 {
        assert(400 * q * (31 - q) <= 400 * 31 * 31) by (nonlinear_arith)
            requires q <= 31;
        (400 * q * (31 - q) / 961) as i64
    } else {
        assert(400 * (q - 31) * (62 - q) <= 400 * 31 * 31) by (nonlinear_arith)
            requires 31 < q < 63;
        -((400 * (q - 31) * (62 - q) / 961) as i64)
    }
}

/// Column offset of the double helix in each row, in hundredths of a column.
pub open spec fn helix_offset(row: int) -> int {
    if row == 0 {
        0
    } else if row == 1 {
        240
    } else if row == 2 {
        421
    } else if row == 3 {
        499
    } else if row == 4 {
        455
    } else if row == 5 {
        299
    } else if row == 6 {
        71
    } else if row == 7 {
        -175
    } else if row == 8 {
        -378
    } else {
        -489
    }
}

fn helix_offset_exec(row: usize) -> (o: i64)
    ensures
        o == helix_offset(row as int),
{
    if row == 0 {
        0
    } else if row == 1 {
        240
    } else if row == 2 {
        421
    } else if row == 3 {
        499
    } else if row == 4 {
        455
    } else if row == 5 {
        299
    } else if row == 6 {
        71
    } else if row == 7 {
        -175
    } else if row == 8 {
        -378
    } else {
        -489
    }
}

/// The procedural layouts: whether pattern family `t` with parameter `p` holds a
/// block at (`row`, `col`).
pub open spec fn procedural_cell(t: u32, p: u32, level: u64, attempt: u64, row: int, col: int) -> bool {
    if t == 0 {
        // scatter with a density of 60 to 79 percent
        seeded_draw(cell_seed(level, attempt, row as u64, col as u64), 100) < 60 + p
    } else if t == 1 {
        // wave above a threshold
        wave_height(row, col) > p - 30
    } else if t == 2 {
        // diagonal stripes of width 2 to 4
        ((row + col) / (p + 2)) % 2 == 0
    } else if t == 3 {
        // rings of width 1.5 to 3 columns
        (isqrt_spec((100 * center_dist2(row, col)) as nat) / (p + 15) as nat) % 2 == 0
    } else if t == 4 {
        // checkerboard with an offset
        (row + col + p) % 2 == 0
    } else if t == 5 {
        // cellular threshold
        row % 3 + col % 3 == p + 2 || row % 3 + col % 3 == p + 3
    } else if t == 6 {
        // honeycomb
        (row % 2 == 0) == (col % 2 == 0)
    } else if t == 7 {
        // mirror symmetry: the right half repeats the left half's draws
        seeded_draw(
            cell_seed(level, attempt, row as u64, (if col < 10 { col } else { 19 - col }) as u64),
            10,
        ) < 6
    } else if t == 8 {
        // bitwise maze
        ((col as u64) ^ (row as u64)) % 3 == 0 || ((col as u64) & (row as u64)) % 5 == 0
    } else if t == 9 {
        // filled diamonds on a 4x4 lattice
        abs_int(col - ((col / 4) * 4 + 2)) + abs_int(row - ((row / 4) * 4 + 2)) <= 2
    } else if t == 10 {
        // invader silhouettes
        let sx = col % 6;
        let sy = row % 5;
        if sy == 0 || sy == 4 {
            sx == 2 || sx == 3
        } else if sy == 1 || sy == 3 {
            0 < sx < 5
        } else {
            sx != 2 && sx != 3
        }
    } else {
        // double helix
        abs_int(100 * col - 1000 - helix_offset(row)) < 250 || abs_int(
            100 * col - 1000 + helix_offset(row),
        ) < 250
    }
}

fn procedural_cell_exec(t: u32, p: u32, level: u64, attempt: u64, row: usize, col: usize) -> (r: bool)
    requires
        row < BLOCK_ROWS,
        col < BLOCK_COLS,
        p < param_bound(t),
    ensures
        r == procedural_cell(t, p, level, attempt, row as int, col as int),
{
    let dc: i64 = col as i64 - 10;
    let dr: i64 = row as i64 - 5;
    if t == 0 {
        draw_seeded(cell_seed_exec(level, attempt, row as u64, col as u64), 100) < 60 + p
    } else if t == 1 {
        wave_height_exec(row, col) > p as i64 - 30
    } else if t == 2 {
        ((row + col) / (p as usize + 2)) % 2 == 0
    } else if t == 3 {
        assert(0 <= dc * dc <= 100 && 0 <= dr * dr <= 25) by (nonlinear_arith)
            requires -10 <= dc <= 9, -5 <= dr <= 4;
        let d2: i64 = dc * dc + dr * dr;
        (isqrt((100 * d2) as u64) / (p as u64 + 15)) % 2 == 0
    } else if t == 4 {
        (row + col + p as usize) % 2 == 0
    } else if t == 5 {
        row % 3 + col % 3 == p as usize + 2 || row % 3 + col % 3 == p as usize + 3
    } else if t == 6 {
        (row % 2 == 0) == (col % 2 == 0)
    } else if t == 7 {
        let mc: usize = if col < 10 { col } else { 19 - col };
        draw_seeded(cell_seed_exec(level, attempt, row as u64, mc as u64), 10) < 6
    } else if t == 8 {
        ((col as u64) ^ (row as u64)) % 3 == 0 || ((col as u64) & (row as u64)) % 5 == 0
    } else if t == 9 {
        let cx: i64 = ((col / 4) * 4 + 2) as i64;
        let cy: i64 = ((row / 4) * 4 + 2) as i64;
        let ex: i64 = col as i64 - cx;
        let ey: i64 = row as i64 - cy;
        (if ex < 0 { -ex } else { ex }) + (if ey < 0 { -ey } else { ey }) <= 2
    } else if t == 10 {
        let sx = col % 6;
        let sy = row % 5;
        if sy == 0 || sy == 4 {
            sx == 2 || sx == 3
        } else if sy == 1 || sy == 3 {
            0 < sx && sx < 5
        } else {
            sx != 2 && sx != 3
        }
    } else {
        let off = helix_offset_exec(row);
        let a: i64 = 100 * col as i64 - 1000 - off;
        let b: i64 = 100 * col as i64 - 1000 + off;
        (if a < 0 { -a } else { a }) < 250 || (if b < 0 { -b } else { b }) < 250
    }
}

/// Whether the layout of `level`, on retry `attempt`, holds a block at (`row`, `col`).
pub open spec fn cell_included(level: usize, attempt: u32, row: int, col: int) -> bool {
    if level <= FIXED_LEVELS {
        fixed_cell(level as int, row, col)
    } else {
        procedural_cell(
            pattern_of(level as u64, attempt as u64),
            param_of(level as u64, attempt as u64),
            level as u64,
            attempt as u64,
            row,
            col,
        )
    }
}

/// The block that sits in grid cell (`row`, `col`), coloured by its row.
pub open spec fn cell_block(row: int, col: int) -> Block {
    fresh_block(
        (BLOCK_OFFSET_X + col * BLOCK_WIDTH) as i32,
        (BLOCK_OFFSET_Y + row * BLOCK_HEIGHT) as i32,
        palette(row % 6),
        BlockType::Normal,
    )
}

/// The blocks of the first `k` grid cells, in row-major order.
pub open spec fn layout_upto(level: usize, attempt: u32, k: nat) -> Seq<Block>
    decreases k,
{
    if k == 0 {
        seq![]
    } else {
        let prev = layout_upto(level, attempt, (k - 1) as nat);
        let row = (k - 1) / 20;
        let col = (k - 1) % 20;
        if cell_included(level, attempt, row, col) {
            prev.push(cell_block(row, col))
        } else {
            prev
        }
    }
}

/// The whole layout of `level` on retry `attempt`.
pub open spec fn layout(level: usize, attempt: u32) -> Seq<Block> {
    layout_upto(level, attempt, 200)
}

/// The layout kept when generation starts at retry `attempt`: procedural levels
/// move on to the next retry while the layout is sparser than `MIN_BLOCKS`.
pub open spec fn retry_from(level: usize, attempt: u32) -> Seq<Block>
    decreases MAX_RETRIES - attempt,
{
    if level <= FIXED_LEVELS || attempt >= MAX_RETRIES || layout(level, attempt).len()
        >= MIN_BLOCKS {
        layout(level, attempt)
    } else {
        retry_from(level, (attempt + 1) as u32)
    }
}

/// The blocks of `level`.
pub open spec fn level_blocks(level: usize) -> Seq<Block> {
    retry_from(level, 0)
}

/// Generates the blocks of one layout attempt.
fn layout_blocks(level: usize, attempt: u32) -> (blocks: Vec<Block>)
    ensures
        blocks@ == layout(level, attempt),
{
    let mut blocks: Vec<Block> = Vec::new();
    let mut t: u32 = 0;
    let mut p: u32 = 0;
    if level > FIXED_LEVELS {
        let seed = attempt_seed_exec(level as u64, attempt as u64);
        t = draw_seeded(seed, PATTERN_FAMILIES);
        p = draw_seeded(seed.wrapping_add(1), param_bound_exec(t));
    }
    let mut row: usize = 0;
    while row < BLOCK_ROWS
        invariant
            row <= BLOCK_ROWS,
            blocks@ == layout_upto(level, attempt, (row * 20) as nat),
            level > FIXED_LEVELS ==> t == pattern_of(level as u64, attempt as u64) && p
                == param_of(level as u64, attempt as u64),
            level > FIXED_LEVELS ==> p < param_bound(t),
        decreases BLOCK_ROWS - row,
    {
        let mut col: usize = 0;
        while col < BLOCK_COLS
            invariant
                row < BLOCK_ROWS,
                col <= BLOCK_COLS,
                blocks@ == layout_upto(level, attempt, (row * 20 + col) as nat),
                level > FIXED_LEVELS ==> t == pattern_of(level as u64, attempt as u64) && p
                    == param_of(level as u64, attempt as u64),
                level > FIXED_LEVELS ==> p < param_bound(t),
            decreases BLOCK_COLS - col,
        {
            let k = row * 20 + col;
            assert(k / 20 == row as int && k % 20 == col as int) by (nonlinear_arith)
                requires k == row * 20 + col, 0 <= col < 20, 0 <= row;
            let included = if level <= FIXED_LEVELS {
                fixed_cell_exec(level, row, col)
            } else {
                procedural_cell_exec(t, p, level as u64, attempt as u64, row, col)
            };
            if included {
                let b = Block::new(
                    BLOCK_OFFSET_X + col as i32 * BLOCK_WIDTH,
                    BLOCK_OFFSET_Y + row as i32 * BLOCK_HEIGHT,
                    block_color(row),
                    BlockType::Normal,
                );
                blocks.push(b);
            }
            assert(blocks@ == layout_upto(level, attempt, (k + 1) as nat));
            col += 1;
        }
        row += 1;
    }
    blocks
}

/// The blocks of `level` (levels from 1 upwards): a hand-authored layout up to
/// `FIXED_LEVELS`, a seeded procedural one beyond, generated again with the next
/// seed while it holds fewer than `MIN_BLOCKS` blocks, at most `MAX_RETRIES` times.
pub fn create_blocks(level: usize) -> (blocks: Vec<Block>)
    ensures
        blocks@ == level_blocks(level),
        forall|i: int| 0 <= i < blocks.len() ==> placed(#[trigger] blocks@[i]),
{
    let mut attempt: u32 = 0;
    loop
        invariant
            attempt <= MAX_RETRIES,
            retry_from(level, attempt) == level_blocks(level),
        decreases MAX_RETRIES - attempt,
    {
        let blocks = layout_blocks(level, attempt);
        if level <= FIXED_LEVELS || blocks.len() >= MIN_BLOCKS || attempt >= MAX_RETRIES {
            assert(blocks@ == level_blocks(level));
            proof {
                lemma_level_blocks_placed(level);
            }
            assert forall|i: int| 0 <= i < blocks.len() implies placed(#[trigger] blocks@[i]) by {
                assert(blocks@[i] == level_blocks(level)[i]);
            }
            return blocks;
        }
        attempt += 1;
    }
}

proof fn lemma_fixed_layout_upto(level: usize, a: u32, b: u32, k: nat)
    requires
        level <= FIXED_LEVELS,
    ensures
        layout_upto(level, a, k) == layout_upto(level, b, k),
    decreases k,
{
    if k > 0 {
        lemma_fixed_layout_upto(level, a, b, (k - 1) as nat);
    }
}

/// The hand-authored levels draw nothing: each holds the blocks of its fixed
/// pattern, whatever the retry, so generating such a level twice gives the same
/// blocks (positions, kinds and colours).
pub proof fn lemma_fixed_levels_pure(level: usize, attempt: u32)
    requires
        1 <= level <= FIXED_LEVELS,
    ensures
        level_blocks(level) == layout(level, attempt),
        forall|row: int, col: int| #[trigger]
            cell_included(level, attempt, row, col) == fixed_cell(level as int, row, col),
{
    lemma_fixed_layout_upto(level, 0, attempt, 200);
}

proof fn lemma_retry_from_dense(level: usize, attempt: u32)
    requires
        level > FIXED_LEVELS,
        attempt <= MAX_RETRIES,
    ensures
        retry_from(level, attempt).len() >= MIN_BLOCKS || (retry_from(level, attempt) == layout(
            level,
            MAX_RETRIES,
        ) && forall|a: u32|
            attempt <= a <= MAX_RETRIES ==> (#[trigger] layout(level, a)).len() < MIN_BLOCKS),
    decreases MAX_RETRIES - attempt,
{
    if attempt < MAX_RETRIES && layout(level, attempt).len() < MIN_BLOCKS {
        lemma_retry_from_dense(level, (attempt + 1) as u32);
        if retry_from(level, attempt).len() < MIN_BLOCKS {
            assert forall|a: u32| attempt <= a <= MAX_RETRIES implies (#[trigger] layout(
                level,
                a,
            )).len() < MIN_BLOCKS by {
                if a > attempt {
                    assert((attempt + 1) as u32 <= a);
                }
            }
        }
    }
}

/// A procedural level (beyond `FIXED_LEVELS`) is a function of its number alone,
/// and holds at least `MIN_BLOCKS` blocks unless every one of the bounded retries
/// came out sparser, in which case the last retry's layout is kept.
pub proof fn lemma_procedural_levels_dense(level: usize)
    requires
        level > FIXED_LEVELS,
    ensures
        level_blocks(level) == retry_from(level, 0),
        level_blocks(level).len() >= MIN_BLOCKS || (level_blocks(level) == layout(
            level,
            MAX_RETRIES,
        ) && forall|a: u32| a <= MAX_RETRIES ==> (#[trigger] layout(level, a)).len() < MIN_BLOCKS),
{
    lemma_retry_from_dense(level, 0);
}

proof fn lemma_layout_placed(level: usize, attempt: u32, k: nat)
    requires
        k <= 200,
    ensures
        forall|i: int|
            0 <= i < layout_upto(level, attempt, k).len() ==> placed(
                #[trigger] layout_upto(level, attempt, k)[i],
            ),
    decreases k,
{
    if k > 0 {
        lemma_layout_placed(level, attempt, (k - 1) as nat);
        let row = (k - 1) / 20;
        let col = (k - 1) % 20;
        assert(0 <= row < 10);
        assert(0 <= col < 20);
        let prev = layout_upto(level, attempt, (k - 1) as nat);
        let cur = layout_upto(level, attempt, k);
        assert forall|i: int| 0 <= i < cur.len() implies placed(#[trigger] cur[i]) by {
            if i < prev.len() {
                assert(cur[i] == prev[i]);
            }
        }
    }
}

proof fn lemma_retry_placed(level: usize, attempt: u32)
    requires
        attempt <= MAX_RETRIES,
    ensures
        forall|i: int|
            0 <= i < retry_from(level, attempt).len() ==> placed(
                #[trigger] retry_from(level, attempt)[i],
            ),
    decreases MAX_RETRIES - attempt,
{
    lemma_layout_placed(level, attempt, 200);
    if !(level <= FIXED_LEVELS || attempt >= MAX_RETRIES || layout(level, attempt).len()
        >= MIN_BLOCKS) {
        lemma_retry_placed(level, (attempt + 1) as u32);
        assert(retry_from(level, attempt) == retry_from(level, (attempt + 1) as u32));
    } else {
        assert(retry_from(level, attempt) == layout(level, attempt));
    }
}

/// Every generated block sits on the grid, within reach of the play field.
pub proof fn lemma_level_blocks_placed(level: usize)
    ensures
        forall|i: int|
            0 <= i < level_blocks(level).len() ==> placed(#[trigger] level_blocks(level)[i]),
{
    lemma_retry_placed(level, 0);
}

} // verus!
