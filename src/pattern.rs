use crate::entities::{
    block_color, fresh_block, palette, Block, BlockType, BLOCK_COLS, BLOCK_HEIGHT,
    BLOCK_OFFSET_X, BLOCK_OFFSET_Y, BLOCK_ROWS, BLOCK_WIDTH, PALETTE_LEN,
};
use vstd::prelude::*;

verus! {

/// Colour index of an empty cell.
pub const EMPTY_CELL: u8 = 255;

/// One cell of a block pattern: a colour index (`EMPTY_CELL` for no block) and a kind.
#[derive(Clone, Copy, Debug, PartialEq, Eq, Structural)]
pub struct PatternCell {
    pub color_index: u8,
    pub block_type: BlockType,
}

/// A named block pattern: `BLOCK_ROWS` rows of `BLOCK_COLS` cells.
pub struct PatternData {
    pub name: String,
    pub grid: Vec<Vec<PatternCell>>,
}

pub open spec fn empty_cell() -> PatternCell {
    PatternCell { color_index: EMPTY_CELL, block_type: BlockType::Normal }
}

/// The rows of a grid, as values.
pub open spec fn grid_view(g: Vec<Vec<PatternCell>>) -> Seq<Seq<PatternCell>> {
    Seq::new(g@.len(), |r: int| g@[r]@)
}

/// The grid of an empty pattern.
pub open spec fn empty_grid() -> Seq<Seq<PatternCell>> {
    Seq::new(BLOCK_ROWS as nat, |r: int| Seq::new(BLOCK_COLS as nat, |c: int| empty_cell()))
}

pub open spec fn grid_wf(g: Seq<Seq<PatternCell>>) -> bool {
    g.len() == BLOCK_ROWS && forall|r: int| 0 <= r < BLOCK_ROWS ==> (#[trigger] g[r]).len() == BLOCK_COLS
}

fn empty_row() -> (row: Vec<PatternCell>)
    ensures
        row@ == Seq::new(BLOCK_COLS as nat, |c: int| empty_cell()),
{
    let mut row: Vec<PatternCell> = Vec::new();
    let mut c: usize = 0;
    while c < BLOCK_COLS
        invariant
            c <= BLOCK_COLS,
            row@ == Seq::new(c as nat, |k: int| empty_cell()),
        decreases BLOCK_COLS - c,
    {
        row.push(PatternCell { color_index: EMPTY_CELL, block_type: BlockType::Normal });
        c += 1;
        assert(row@ =~= Seq::new(c as nat, |k: int| empty_cell()));
    }
    row
}

impl PatternData {
    pub open spec fn wf(&self) -> bool {
        grid_wf(grid_view(self.grid))
    }

    /// An empty pattern.
    pub fn new(name: String) -> (p: PatternData)
        ensures
            p.wf(),
            p.name == name,
            grid_view(p.grid) == empty_grid(),
    {
        let mut grid: Vec<Vec<PatternCell>> = Vec::new();
        let mut r: usize = 0;
        while r < BLOCK_ROWS
            invariant
                r <= BLOCK_ROWS,
                grid@.len() == r,
                forall|k: int| 0 <= k < r ==> (#[trigger] grid@[k])@ == Seq::new(BLOCK_COLS as nat, |c: int| empty_cell()),
            decreases BLOCK_ROWS - r,
        {
            grid.push(empty_row());
            r += 1;
        }
        assert(grid_view(grid) =~= empty_grid());
        PatternData { name, grid }
    }
}

/// The block a non-empty cell stands for, at row `r` and column `c`.
pub open spec fn cell_block_of(cell: PatternCell, r: int, c: int) -> Block {
    fresh_block(
        (BLOCK_OFFSET_X + c * BLOCK_WIDTH) as i32,
        (BLOCK_OFFSET_Y + r * BLOCK_HEIGHT) as i32,
        palette((cell.color_index % PALETTE_LEN as u8) as int),
        cell.block_type,
    )
}

/// The blocks of the first `k` cells of a grid, in row-major order.
pub open spec fn pattern_blocks_upto(g: Seq<Seq<PatternCell>>, k: nat) -> Seq<Block>
    decreases k,
{
    if k == 0 {
        seq![]
    } else {
        let prev = pattern_blocks_upto(g, (k - 1) as nat);
        let r = (k - 1) / 20;
        let c = (k - 1) % 20;
        if g[r][c].color_index != EMPTY_CELL {
            prev.push(cell_block_of(g[r][c], r, c))
        } else {
            prev
        }
    }
}

/// The blocks a pattern places: one per non-empty cell, row by row.
pub fn create_blocks_from_pattern(pattern: &PatternData) -> (blocks: Vec<Block>)
    requires
        pattern.wf(),
    ensures
        blocks@ == pattern_blocks_upto(grid_view(pattern.grid), 200),
{
    let ghost g = grid_view(pattern.grid);
    let mut blocks: Vec<Block> = Vec::new();
    let mut row: usize = 0;
    while row < BLOCK_ROWS
        invariant
            row <= BLOCK_ROWS,
            g == grid_view(pattern.grid),
            grid_wf(g),
            blocks@ == pattern_blocks_upto(g, (row * 20) as nat),
        decreases BLOCK_ROWS - row,
    {
        let mut col: usize = 0;
        while col < BLOCK_COLS
            invariant
                row < BLOCK_ROWS,
                col <= BLOCK_COLS,
                g == grid_view(pattern.grid),
                grid_wf(g),
                blocks@ == pattern_blocks_upto(g, (row * 20 + col) as nat),
            decreases BLOCK_COLS - col,
        {
            let k = row * 20 + col;
            assert(k / 20 == row as int && k % 20 == col as int) by (nonlinear_arith)
                requires k == row * 20 + col, 0 <= col < 20, 0 <= row;
            assert(g[row as int] == pattern.grid@[row as int]@);
            let cell = pattern.grid[row][col];
            if cell.color_index != EMPTY_CELL {
                let color = block_color((cell.color_index % (PALETTE_LEN as u8)) as usize);
                blocks.push(
                    Block::new(
                        BLOCK_OFFSET_X + col as i32 * BLOCK_WIDTH,
                        BLOCK_OFFSET_Y + row as i32 * BLOCK_HEIGHT,
                        color,
                        cell.block_type,
                    ),
                );
            }
            assert(blocks@ == pattern_blocks_upto(g, (k + 1) as nat));
            col += 1;
        }
        row += 1;
    }
    blocks
}

/// The character that stands for a cell in the text format: `*` for an empty
/// cell, `6`, `7` and `8` for Ice, Explosive and Indestructible blocks, and the
/// colour digit for a Normal block.
pub open spec fn cell_char(c: PatternCell) -> u8 {
    if c.color_index == EMPTY_CELL {
        42
    } else {
        match c.block_type {
            BlockType::Ice => 54,
            BlockType::Explosive => 55,
            BlockType::Undestroyable => 56,
            BlockType::Normal => if c.color_index <= 9 { (48 + c.color_index) as u8 } else { 48 },
        }
    }
}

fn cell_char_exec(c: PatternCell) -> (ch: u8)
    ensures
        ch == cell_char(c),
{
    if c.color_index == EMPTY_CELL {
        42u8
    } else {
        match c.block_type {
            BlockType::Ice => 54u8,
            BlockType::Explosive => 55u8,
            BlockType::Undestroyable => 56u8,
            BlockType::Normal => if c.color_index <= 9 { 48u8 + c.color_index } else { 48u8 },
        }
    }
}

/// The text of the first `k` cells of a grid: one character per cell, a line
/// break after each row.
pub open spec fn grid_text_upto(g: Seq<Seq<PatternCell>>, k: nat) -> Seq<u8>
    decreases k,
{
    if k == 0 {
        seq![]
    } else {
        let prev = grid_text_upto(g, (k - 1) as nat);
        let r = (k - 1) / 20;
        let c = (k - 1) % 20;
        let with_cell = prev.push(cell_char(g[r][c]));
        if c == 19 {
            with_cell.push(10)
        } else {
            with_cell
        }
    }
}

impl PatternData {
    /// The grid in the pattern text format (the rows, without comment lines).
    pub fn grid_text(&self) -> (t: Vec<u8>)
        requires
            self.wf(),
        ensures
            t@ == grid_text_upto(grid_view(self.grid), 200),
    {
        let ghost g = grid_view(self.grid);
        let mut t: Vec<u8> = Vec::new();
        let mut row: usize = 0;
        while row < BLOCK_ROWS
            invariant
                row <= BLOCK_ROWS,
                g == grid_view(self.grid),
                grid_wf(g),
                t@ == grid_text_upto(g, (row * 20) as nat),
            decreases BLOCK_ROWS - row,
        {
            let mut col: usize = 0;
            while col < BLOCK_COLS
                invariant
                    row < BLOCK_ROWS,
                    col <= BLOCK_COLS,
                    g == grid_view(self.grid),
                    grid_wf(g),
                    t@ == grid_text_upto(g, (row * 20 + col) as nat),
                decreases BLOCK_COLS - col,
            {
                let k = row * 20 + col;
                assert(k / 20 == row as int && k % 20 == col as int) by (nonlinear_arith)
                    requires k == row * 20 + col, 0 <= col < 20, 0 <= row;
                assert(g[row as int] == self.grid@[row as int]@);
                t.push(cell_char_exec(self.grid[row][col]));
                if col == BLOCK_COLS - 1 {
                    t.push(10u8);
                }
                assert(t@ =~= grid_text_upto(g, (k + 1) as nat));
                col += 1;
            }
            row += 1;
        }
        t
    }
}

/// The cell a character stands for; unknown characters are empty cells. Besides
/// the digits, `I`, `E` and `U` are read as Ice, Explosive and Indestructible.
pub open spec fn cell_from_char(ch: u8) -> PatternCell {
    if 48 <= ch <= 53 {
        PatternCell { color_index: (ch - 48) as u8, block_type: BlockType::Normal }
    } else if ch == 54 || ch == 73 {
        PatternCell { color_index: 0, block_type: BlockType::Ice }
    } else if ch == 55 || ch == 69 {
        PatternCell { color_index: 0, block_type: BlockType::Explosive }
    } else if ch == 56 || ch == 85 {
        PatternCell { color_index: 0, block_type: BlockType::Undestroyable }
    } else {
        empty_cell()
    }
}

fn cell_from_char_exec(ch: u8) -> (c: PatternCell)
    ensures
        c == cell_from_char(ch),
{
    if 48u8 <= ch && ch <= 53u8 {
        PatternCell { color_index: ch - 48u8, block_type: BlockType::Normal }
    } else if ch == 54u8 || ch == 73u8 {
        PatternCell { color_index: 0, block_type: BlockType::Ice }
    } else if ch == 55u8 || ch == 69u8 {
        PatternCell { color_index: 0, block_type: BlockType::Explosive }
    } else if ch == 56u8 || ch == 85u8 {
        PatternCell { color_index: 0, block_type: BlockType::Undestroyable }
    } else {
        PatternCell { color_index: EMPTY_CELL, block_type: BlockType::Normal }
    }
}

/// A grid row read from a line: its first `BLOCK_COLS` characters, empty cells past its end.
pub open spec fn parse_row(line: Seq<u8>) -> Seq<PatternCell> {
    Seq::new(
        BLOCK_COLS as nat,
        |c: int|
            if c < line.len() {
                cell_from_char(line[c])
            } else {
                empty_cell()
            },
    )
}

fn parse_row_exec(line: &Vec<u8>) -> (row: Vec<PatternCell>)
    ensures
        row@ == parse_row(line@),
{
    let mut row: Vec<PatternCell> = Vec::new();
    let mut c: usize = 0;
    while c < BLOCK_COLS
        invariant
            c <= BLOCK_COLS,
            row@ == parse_row(line@).subrange(0, c as int),
        decreases BLOCK_COLS - c,
    {
        let cell = if c < line.len() {
            cell_from_char_exec(line[c])
        } else {
            PatternCell { color_index: EMPTY_CELL, block_type: BlockType::Normal }
        };
        row.push(cell);
        c += 1;
        assert(row@ =~= parse_row(line@).subrange(0, c as int));
    }
    assert(row@ =~= parse_row(line@));
    row
}

/// ASCII white space, as `char::is_whitespace` has it.
pub open spec fn is_blank(b: u8) -> bool {
    b == 32 || (9 <= b <= 13)
}

/// Comment lines (starting with `#`) and blank lines hold no row.
pub open spec fn skipped(line: Seq<u8>) -> bool {
    (line.len() > 0 && line[0] == 35) || forall|i: int| 0 <= i < line.len() ==> is_blank(#[trigger] line[i])
}

fn skipped_exec(line: &Vec<u8>) -> (r: bool)
    ensures
        r == skipped(line@),
{
    if line.len() > 0 && line[0] == 35u8 {
        return true;
    }
    let mut i: usize = 0;
    while i < line.len()
        invariant
            i <= line.len(),
            !(line@.len() > 0 && line@[0] == 35),
            forall|j: int| 0 <= j < i ==> is_blank(#[trigger] line@[j]),
        decreases line.len() - i,
    {
        let b = line[i];
        if !(b == 32u8 || (9u8 <= b && b <= 13u8)) {
            return false;
        }
        i += 1;
    }
    true
}

/// A line without the carriage return that ended it.
pub open spec fn strip_cr(l: Seq<u8>) -> Seq<u8> {
    if l.len() > 0 && l.last() == 13 {
        l.drop_last()
    } else {
        l
    }
}

/// Splitting the first `n` bytes into finished lines and the line under way.
pub open spec fn split_state(s: Seq<u8>, n: nat) -> (Seq<Seq<u8>>, Seq<u8>)
    decreases n,
{
    if n == 0 {
        (seq![], seq![])
    } else {
        let prev = split_state(s, (n - 1) as nat);
        if s[n - 1] == 10 {
            (prev.0.push(strip_cr(prev.1)), seq![])
        } else {
            (prev.0, prev.1.push(s[n - 1]))
        }
    }
}

/// The lines of a text: split at `\n` (a `\r` before it is dropped), the last line
/// ending optional.
pub open spec fn text_lines(s: Seq<u8>) -> Seq<Seq<u8>> {
    let st = split_state(s, s.len());
    if st.1.len() > 0 {
        st.0.push(st.1)
    } else {
        st.0
    }
}

/// The grid rows read from the first `n` lines: each line that is not skipped
/// gives the next row, until `BLOCK_ROWS` rows are read.
pub open spec fn rows_from(lines: Seq<Seq<u8>>, n: nat) -> Seq<Seq<PatternCell>>
    decreases n,
{
    if n == 0 {
        seq![]
    } else {
        let prev = rows_from(lines, (n - 1) as nat);
        if skipped(lines[n - 1]) || prev.len() >= BLOCK_ROWS {
            prev
        } else {
            prev.push(parse_row(lines[n - 1]))
        }
    }
}

/// The grid of a pattern text: the rows read from its lines, then empty rows.
pub open spec fn parsed_grid(s: Seq<u8>) -> Seq<Seq<PatternCell>> {
    let lines = text_lines(s);
    let rows = rows_from(lines, lines.len());
    Seq::new(
        BLOCK_ROWS as nat,
        |r: int|
            if r < rows.len() {
                rows[r]
            } else {
                Seq::new(BLOCK_COLS as nat, |c: int| empty_cell())
            },
    )
}

proof fn lemma_rows_bounded(lines: Seq<Seq<u8>>, n: nat)
    ensures
        rows_from(lines, n).len() <= BLOCK_ROWS,
        forall|r: int| 0 <= r < rows_from(lines, n).len() ==> (#[trigger] rows_from(lines, n)[r]).len() == BLOCK_COLS,
    decreases n,
{
    if n > 0 {
        lemma_rows_bounded(lines, (n - 1) as nat);
    }
}

proof fn lemma_rows_prefix(a: Seq<Seq<u8>>, b: Seq<Seq<u8>>, n: nat)
    requires
        n <= a.len(),
        n <= b.len(),
        forall|i: int| 0 <= i < n ==> a[i] == b[i],
    ensures
        rows_from(a, n) == rows_from(b, n),
    decreases n,
{
    if n > 0 {
        lemma_rows_prefix(a, b, (n - 1) as nat);
    }
}

/// Adds a finished line: it becomes the next row unless it is skipped or the grid is full.
fn take_line(rows: &mut Vec<Vec<PatternCell>>, line: &Vec<u8>)
    ensures
        grid_view(*final(rows)) == if skipped(line@) || old(rows)@.len() >= BLOCK_ROWS {
            grid_view(*old(rows))
        } else {
            grid_view(*old(rows)).push(parse_row(line@))
        },
{
    if !skipped_exec(line) && rows.len() < BLOCK_ROWS {
        let row = parse_row_exec(line);
        rows.push(row);
        assert(grid_view(*rows) =~= grid_view(*old(rows)).push(parse_row(line@)));
    }
}

impl PatternData {
    /// Reads a pattern from its text format (see `parsed_grid`).
    pub fn parse(name: String, content: &Vec<u8>) -> (p: PatternData)
        ensures
            p.name == name,
            p.wf(),
            grid_view(p.grid) == parsed_grid(content@),
    {
        let ghost s = content@;
        let mut rows: Vec<Vec<PatternCell>> = Vec::new();
        let mut cur: Vec<u8> = Vec::new();
        let mut i: usize = 0;
        while i < content.len()
            invariant
                i <= content.len(),
                s == content@,
                cur@ == split_state(s, i as nat).1,
                grid_view(rows) == rows_from(split_state(s, i as nat).0, split_state(s, i as nat).0.len()),
            decreases content.len() - i,
        {
            let b = content[i];
            if b == 10u8 {
                if cur.len() > 0 && cur[cur.len() - 1] == 13u8 {
                    cur.pop();
                }
                assert(cur@ == strip_cr(split_state(s, i as nat).1)) by {
                    if split_state(s, i as nat).1.len() > 0 && split_state(s, i as nat).1.last() == 13 {
                        assert(cur@ =~= split_state(s, i as nat).1.drop_last());
                    }
                }
                take_line(&mut rows, &cur);
                proof {
                    let lines = split_state(s, (i + 1) as nat).0;
                    let prev = split_state(s, i as nat).0;
                    assert(lines == prev.push(cur@));
                    lemma_rows_prefix(lines, prev, prev.len());
                }
                cur = Vec::new();
            } else {
                cur.push(b);
            }
            i += 1;
        }
        if cur.len() > 0 {
            take_line(&mut rows, &cur);
            proof {
                let st = split_state(s, s.len());
                lemma_rows_prefix(st.0.push(st.1), st.0, st.0.len());
            }
        }
        assert(grid_view(rows) == rows_from(text_lines(s), text_lines(s).len()));
        proof {
            lemma_rows_bounded(text_lines(s), text_lines(s).len());
        }
        while rows.len() < BLOCK_ROWS
            invariant
                rows@.len() <= BLOCK_ROWS,
                rows@.len() >= rows_from(text_lines(s), text_lines(s).len()).len(),
                forall|r: int| 0 <= r < rows@.len() ==> #[trigger] grid_view(rows)[r] == parsed_grid(s)[r],
            decreases BLOCK_ROWS - rows@.len(),
        {
            let row = empty_row();
            let ghost before = rows;
            rows.push(row);
            assert forall|r: int| 0 <= r < rows@.len() implies #[trigger] grid_view(rows)[r] == parsed_grid(s)[r] by {
                if r < before@.len() {
                    assert(grid_view(rows)[r] == grid_view(before)[r]);
                }
            }
        }
        assert(grid_view(rows) =~= parsed_grid(s));
        PatternData { name, grid: rows }
    }
}

impl PatternData {
    /// Whether some cell holds a block (an empty pattern is not worth saving).
    pub fn has_blocks(&self) -> (r: bool)
        requires
            self.wf(),
        ensures
            r == exists|row: int, col: int|
                0 <= row < BLOCK_ROWS && 0 <= col < BLOCK_COLS && (#[trigger] grid_view(
                    self.grid,
                )[row][col]).color_index != EMPTY_CELL,
    {
        let ghost g = grid_view(self.grid);
        let mut row: usize = 0;
        while row < BLOCK_ROWS
            invariant
                row <= BLOCK_ROWS,
                g == grid_view(self.grid),
                grid_wf(g),
                forall|r: int, c: int|
                    0 <= r < row && 0 <= c < BLOCK_COLS ==> (#[trigger] g[r][c]).color_index == EMPTY_CELL,
            decreases BLOCK_ROWS - row,
        {
            let mut col: usize = 0;
            while col < BLOCK_COLS
                invariant
                    row < BLOCK_ROWS,
                    col <= BLOCK_COLS,
                    g == grid_view(self.grid),
                    grid_wf(g),
                    forall|r: int, c: int|
                        0 <= r < row && 0 <= c < BLOCK_COLS ==> (#[trigger] g[r][c]).color_index == EMPTY_CELL,
                    forall|c: int| 0 <= c < col ==> (#[trigger] g[row as int][c]).color_index == EMPTY_CELL,
                decreases BLOCK_COLS - col,
            {
                assert(g[row as int] == self.grid@[row as int]@);
                if self.grid[row][col].color_index != EMPTY_CELL {
                    assert(g[row as int][col as int].color_index != EMPTY_CELL);
                    return true;
                }
                col += 1;
            }
            row += 1;
        }
        false
    }
}

/// Why a pattern cannot be saved.
#[derive(Clone, Copy, Debug, PartialEq, Eq, Structural)]
pub enum PatternError {
    /// The pattern holds no block.
    Empty,
}

impl PatternData {
    /// A pattern can be saved only when it holds at least one block.
    pub fn check_saveable(&self) -> (r: Result<(), PatternError>)
        requires
            self.wf(),
        ensures
            r.is_ok() == exists|row: int, col: int|
                0 <= row < BLOCK_ROWS && 0 <= col < BLOCK_COLS && (#[trigger] grid_view(
                    self.grid,
                )[row][col]).color_index != EMPTY_CELL,
            r.is_err() ==> r == Err::<(), PatternError>(PatternError::Empty),
    {
        if self.has_blocks() {
            Ok(())
        } else {
            Err(PatternError::Empty)
        }
    }
}

} // verus!
