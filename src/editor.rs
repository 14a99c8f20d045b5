use crate::entities::{
    block_color, fresh_block, palette, Block, BlockType, Color, BLOCK_COLS, BLOCK_HEIGHT,
    BLOCK_OFFSET_X, BLOCK_OFFSET_Y, BLOCK_ROWS, BLOCK_WIDTH, PALETTE_LEN,
};
use crate::pattern::{
    create_blocks_from_pattern, empty_grid, grid_view, grid_wf, PatternCell, PatternData, EMPTY_CELL,
};
use vstd::prelude::*;

verus! {

/// Number of background pictures the editor cycles through.
pub const BACKGROUNDS: usize = 6;
/// Ticks an editor message stays on screen.
pub const MESSAGE_TICKS: u32 = 180;

/// The grid cell under a point, as its top-left corner in pixels, if the point is on the grid.
pub open spec fn cell_corner(mx: int, my: int) -> Option<(i32, i32)> {
    if BLOCK_OFFSET_X <= mx < BLOCK_OFFSET_X + BLOCK_COLS * BLOCK_WIDTH && BLOCK_OFFSET_Y <= my
        < BLOCK_OFFSET_Y + BLOCK_ROWS * BLOCK_HEIGHT {
        Some(
            (
                (BLOCK_OFFSET_X + ((mx - BLOCK_OFFSET_X) / BLOCK_WIDTH as int) * BLOCK_WIDTH) as i32,
                (BLOCK_OFFSET_Y + ((my - BLOCK_OFFSET_Y) / BLOCK_HEIGHT as int) * BLOCK_HEIGHT) as i32,
            ),
        )
    } else {
        None
    }
}

pub fn cell_corner_exec(mx: i32, my: i32) -> (r: Option<(i32, i32)>)
    ensures
        r == cell_corner(mx as int, my as int),
{
    if BLOCK_OFFSET_X <= mx && mx < BLOCK_OFFSET_X + 20 * BLOCK_WIDTH && BLOCK_OFFSET_Y <= my && my
        < BLOCK_OFFSET_Y + 10 * BLOCK_HEIGHT {
        let col = (mx - BLOCK_OFFSET_X) / BLOCK_WIDTH;
        let row = (my - BLOCK_OFFSET_Y) / BLOCK_HEIGHT;
        Some((BLOCK_OFFSET_X + col * BLOCK_WIDTH, BLOCK_OFFSET_Y + row * BLOCK_HEIGHT))
    } else {
        None
    }
}

/// The block the editor paints with selection `sel`: indices 0 to 5 are Normal blocks
/// of that palette colour, 6, 7 and 8 are Ice, Explosive and Indestructible blocks.
pub open spec fn painted_block(sel: usize, x: i32, y: i32) -> Block {
    if sel == 6 {
        fresh_block(x, y, palette(0), BlockType::Ice)
    } else if sel == 7 {
        fresh_block(x, y, palette(0), BlockType::Explosive)
    } else if sel == 8 {
        fresh_block(x, y, palette(0), BlockType::Undestroyable)
    } else {
        fresh_block(x, y, palette((sel % PALETTE_LEN) as int), BlockType::Normal)
    }
}

/// Whether some block sits with its corner at (`x`, `y`).
pub open spec fn occupied(blocks: Seq<Block>, x: i32, y: i32) -> bool {
    exists|i: int| 0 <= i < blocks.len() && (#[trigger] blocks[i]).x == x && blocks[i].y == y
}

/// The blocks without those whose corner is at (`x`, `y`), in order.
pub open spec fn without_at(blocks: Seq<Block>, x: i32, y: i32) -> Seq<Block>
    decreases blocks.len(),
{
    if blocks.len() == 0 {
        seq![]
    } else {
        let prev = without_at(blocks.drop_last(), x, y);
        if blocks.last().x == x && blocks.last().y == y {
            prev
        } else {
            prev.push(blocks.last())
        }
    }
}

/// The palette index of a colour, if it is a palette colour.
pub open spec fn palette_index(c: Color) -> Option<u8> {
    if c == palette(0) {
        Some(0)
    } else if c == palette(1) {
        Some(1)
    } else if c == palette(2) {
        Some(2)
    } else if c == palette(3) {
        Some(3)
    } else if c == palette(4) {
        Some(4)
    } else if c == palette(5) {
        Some(5)
    } else {
        None
    }
}

fn palette_index_exec(c: Color) -> (r: Option<u8>)
    ensures
        r == palette_index(c),
{
    let mut i: usize = 0;
    while i < PALETTE_LEN
        invariant
            i <= PALETTE_LEN,
            forall|j: int| 0 <= j < i ==> palette(j) != c,
        decreases PALETTE_LEN - i,
    {
        if block_color(i) == c {
            return Some(i as u8);
        }
        i += 1;
    }
    None
}

/// The grid cell of an active block placed on the grid, if any.
pub open spec fn grid_slot(b: Block) -> Option<(int, int)> {
    let col = (b.x - BLOCK_OFFSET_X) / BLOCK_WIDTH as int;
    let row = (b.y - BLOCK_OFFSET_Y) / BLOCK_HEIGHT as int;
    if b.active && BLOCK_OFFSET_X <= b.x && BLOCK_OFFSET_Y <= b.y && row < BLOCK_ROWS && col
        < BLOCK_COLS {
        Some((row, col))
    } else {
        None
    }
}

/// The grid after recording the first `k` blocks: each active block on the grid
/// with a palette colour sets its cell (later blocks win).
pub open spec fn grid_of_blocks(g: Seq<Seq<PatternCell>>, blocks: Seq<Block>, k: nat) -> Seq<
    Seq<PatternCell>,
>
    decreases k,
{
    if k == 0 {
        g
    } else {
        let prev = grid_of_blocks(g, blocks, (k - 1) as nat);
        let b = blocks[k - 1];
        match (grid_slot(b), palette_index(b.color)) {
            (Some(slot), Some(idx)) => prev.update(
                slot.0,
                prev[slot.0].update(slot.1, PatternCell { color_index: idx, block_type: b.block_type }),
            ),
            _ => prev,
        }
    }
}

proof fn lemma_grid_of_blocks_wf(g: Seq<Seq<PatternCell>>, blocks: Seq<Block>, k: nat)
    requires
        grid_wf(g),
    ensures
        grid_wf(grid_of_blocks(g, blocks, k)),
    decreases k,
{
    if k > 0 {
        lemma_grid_of_blocks_wf(g, blocks, (k - 1) as nat);
        let prev = grid_of_blocks(g, blocks, (k - 1) as nat);
        let cur = grid_of_blocks(g, blocks, k);
        assert forall|r: int| 0 <= r < BLOCK_ROWS implies (#[trigger] cur[r]).len() == BLOCK_COLS by {
            assert(prev[r].len() == BLOCK_COLS);
        }
    }
}

/// The editing state of the level editor (its widgets and texts live with the screen).
pub struct LevelEditor {
    pub blocks: Vec<Block>,
    pub selected_color_index: usize,
    /// A clear was asked for and waits for confirmation.
    pub confirm_clear: bool,
    pub is_dragging_left: bool,
    pub is_dragging_right: bool,
    pub last_drag_pos: Option<(i32, i32)>,
    /// Background picture, from 1 to `BACKGROUNDS`.
    pub current_background: usize,
    pub frame_count: u64,
    /// Ticks the current message has left on screen.
    pub message_timer: u32,
}

impl LevelEditor {
    /// An empty editor painting red Normal blocks on the first background.
    pub fn new() -> (e: LevelEditor)
        ensures
            e.blocks@.len() == 0,
            e.selected_color_index == 0,
            !e.confirm_clear,
            !e.is_dragging_left && !e.is_dragging_right,
            e.last_drag_pos.is_none(),
            e.current_background == 1,
            e.frame_count == 0,
            e.message_timer == 0,
    {
        LevelEditor {
            blocks: Vec::new(),
            selected_color_index: 0,
            confirm_clear: false,
            is_dragging_left: false,
            is_dragging_right: false,
            last_drag_pos: None,
            current_background: 1,
            frame_count: 0,
            message_timer: 0,
        }
    }

    /// Paints a block with the current selection in the grid cell under the point,
    /// unless the point is off the grid or the cell already holds a block.
    pub fn add_block_at(&mut self, mouse_x: i32, mouse_y: i32)
        ensures
            final(self).blocks@ == match cell_corner(mouse_x as int, mouse_y as int) {
                Some(c) => if occupied(old(self).blocks@, c.0, c.1) {
                    old(self).blocks@
                } else {
                    old(self).blocks@.push(painted_block(old(self).selected_color_index, c.0, c.1))
                },
                None => old(self).blocks@,
            },
            final(self).selected_color_index == old(self).selected_color_index,
            final(self).current_background == old(self).current_background,
            final(self).confirm_clear == old(self).confirm_clear,
            final(self).is_dragging_left == old(self).is_dragging_left,
            final(self).is_dragging_right == old(self).is_dragging_right,
            final(self).last_drag_pos == old(self).last_drag_pos,
    {
        match cell_corner_exec(mouse_x, mouse_y) {
            Some((x, y)) => {
                let mut i: usize = 0;
                while i < self.blocks.len()
                    invariant
                        i <= self.blocks.len(),
                        self.blocks@ == old(self).blocks@,
                        cell_corner(mouse_x as int, mouse_y as int) == Some((x, y)),
                        forall|j: int| 0 <= j < i ==> !((#[trigger] self.blocks@[j]).x == x && self.blocks@[j].y == y),
                    decreases self.blocks.len() - i,
                {
                    if self.blocks[i].x == x && self.blocks[i].y == y {
                        assert(occupied(self.blocks@, x, y)) by {
                            assert(self.blocks@[i as int].x == x);
                        }
                        return;
                    }
                    i += 1;
                }
                let sel = self.selected_color_index;
                let b = if sel == 6 {
                    Block::new(x, y, block_color(0), BlockType::Ice)
                } else if sel == 7 {
                    Block::new(x, y, block_color(0), BlockType::Explosive)
                } else if sel == 8 {
                    Block::new(x, y, block_color(0), BlockType::Undestroyable)
                } else {
                    Block::new(x, y, block_color(sel), BlockType::Normal)
                };
                self.blocks.push(b);
            },
            None => {},
        }
    }

    /// Removes the block in the grid cell under the point, if any.
    pub fn remove_block_at(&mut self, mouse_x: i32, mouse_y: i32)
        ensures
            final(self).blocks@ == match cell_corner(mouse_x as int, mouse_y as int) {
                Some(c) => without_at(old(self).blocks@, c.0, c.1),
                None => old(self).blocks@,
            },
            final(self).selected_color_index == old(self).selected_color_index,
            final(self).current_background == old(self).current_background,
            final(self).confirm_clear == old(self).confirm_clear,
            final(self).is_dragging_left == old(self).is_dragging_left,
            final(self).is_dragging_right == old(self).is_dragging_right,
            final(self).last_drag_pos == old(self).last_drag_pos,
    {
        match cell_corner_exec(mouse_x, mouse_y) {
            Some((x, y)) => {
                let ghost orig = self.blocks@;
                let mut kept: Vec<Block> = Vec::new();
                let mut i: usize = 0;
                while i < self.blocks.len()
                    invariant
                        i <= self.blocks.len(),
                        self.blocks@ == orig,
                        kept@ == without_at(orig.subrange(0, i as int), x, y),
                    decreases self.blocks.len() - i,
                {
                    let b = self.blocks[i];
                    if !(b.x == x && b.y == y) {
                        kept.push(b);
                    }
                    assert(orig.subrange(0, i + 1).drop_last() =~= orig.subrange(0, i as int));
                    i += 1;
                }
                assert(orig.subrange(0, orig.len() as int) =~= orig);
                self.blocks = kept;
            },
            None => {},
        }
    }

    pub fn start_drag_left(&mut self, mouse_x: i32, mouse_y: i32)
        ensures
            final(self).is_dragging_left,
            final(self).is_dragging_right == old(self).is_dragging_right,
            final(self).last_drag_pos == Some((mouse_x, mouse_y)),
            final(self).blocks@ == match cell_corner(mouse_x as int, mouse_y as int) {
                Some(c) => if occupied(old(self).blocks@, c.0, c.1) {
                    old(self).blocks@
                } else {
                    old(self).blocks@.push(painted_block(old(self).selected_color_index, c.0, c.1))
                },
                None => old(self).blocks@,
            },
    {
        self.is_dragging_left = true;
        self.last_drag_pos = Some((mouse_x, mouse_y));
        self.add_block_at(mouse_x, mouse_y);
    }

    pub fn start_drag_right(&mut self, mouse_x: i32, mouse_y: i32)
        ensures
            final(self).is_dragging_right,
            final(self).is_dragging_left == old(self).is_dragging_left,
            final(self).last_drag_pos == Some((mouse_x, mouse_y)),
            final(self).blocks@ == match cell_corner(mouse_x as int, mouse_y as int) {
                Some(c) => without_at(old(self).blocks@, c.0, c.1),
                None => old(self).blocks@,
            },
    {
        self.is_dragging_right = true;
        self.last_drag_pos = Some((mouse_x, mouse_y));
        self.remove_block_at(mouse_x, mouse_y);
    }

    /// Continues a drag: painting with the left button, erasing with the right.
    pub fn update_drag(&mut self, mouse_x: i32, mouse_y: i32)
        ensures
            old(self).is_dragging_left ==> final(self).last_drag_pos == Some((mouse_x, mouse_y))
                && final(self).blocks@ == match cell_corner(mouse_x as int, mouse_y as int) {
                Some(c) => if occupied(old(self).blocks@, c.0, c.1) {
                    old(self).blocks@
                } else {
                    old(self).blocks@.push(painted_block(old(self).selected_color_index, c.0, c.1))
                },
                None => old(self).blocks@,
            },
            !old(self).is_dragging_left && old(self).is_dragging_right ==> final(self).last_drag_pos
                == Some((mouse_x, mouse_y)) && final(self).blocks@ == match cell_corner(
                mouse_x as int,
                mouse_y as int,
            ) {
                Some(c) => without_at(old(self).blocks@, c.0, c.1),
                None => old(self).blocks@,
            },
            !old(self).is_dragging_left && !old(self).is_dragging_right ==> final(self).blocks@
                == old(self).blocks@ && final(self).last_drag_pos == old(self).last_drag_pos,
            final(self).is_dragging_left == old(self).is_dragging_left,
            final(self).is_dragging_right == old(self).is_dragging_right,
    {
        if self.is_dragging_left {
            self.add_block_at(mouse_x, mouse_y);
            self.last_drag_pos = Some((mouse_x, mouse_y));
        } else if self.is_dragging_right {
            self.remove_block_at(mouse_x, mouse_y);
            self.last_drag_pos = Some((mouse_x, mouse_y));
        }
    }

    pub fn stop_drag(&mut self)
        ensures
            !final(self).is_dragging_left && !final(self).is_dragging_right,
            final(self).last_drag_pos.is_none(),
            final(self).blocks@ == old(self).blocks@,
    {
        self.is_dragging_left = false;
        self.is_dragging_right = false;
        self.last_drag_pos = None;
    }

    /// Asks for confirmation before clearing; returns whether it asked (an empty
    /// editor has nothing to clear).
    pub fn request_clear(&mut self) -> (asked: bool)
        ensures
            asked == (old(self).blocks@.len() > 0),
            final(self).confirm_clear == (old(self).confirm_clear || asked),
            asked ==> final(self).message_timer == MESSAGE_TICKS,
            !asked ==> final(self).message_timer == old(self).message_timer,
            final(self).blocks@ == old(self).blocks@,
    {
        if self.blocks.len() > 0 {
            self.confirm_clear = true;
            self.message_timer = MESSAGE_TICKS;
            true
        } else {
            false
        }
    }

    pub fn clear(&mut self)
        ensures
            final(self).blocks@.len() == 0,
            !final(self).confirm_clear,
            final(self).message_timer == MESSAGE_TICKS,
    {
        self.blocks = Vec::new();
        self.confirm_clear = false;
        self.message_timer = MESSAGE_TICKS;
    }

    pub fn cancel_clear(&mut self)
        ensures
            !final(self).confirm_clear,
            final(self).message_timer == 0,
            final(self).blocks@ == old(self).blocks@,
    {
        self.confirm_clear = false;
        self.message_timer = 0;
    }

    /// The next background, wrapping from the last to the first.
    pub fn next_background(&mut self)
        ensures
            final(self).current_background == if old(self).current_background >= BACKGROUNDS {
                1
            } else {
                old(self).current_background + 1
            },
            final(self).blocks@ == old(self).blocks@,
    {
        self.current_background = if self.current_background >= BACKGROUNDS {
            1
        } else {
            self.current_background + 1
        };
    }

    /// The previous background, wrapping from the first to the last.
    pub fn prev_background(&mut self)
        ensures
            final(self).current_background == if old(self).current_background <= 1 {
                BACKGROUNDS
            } else {
                (old(self).current_background - 1) as usize
            },
            final(self).blocks@ == old(self).blocks@,
    {
        self.current_background = if self.current_background <= 1 {
            BACKGROUNDS
        } else {
            self.current_background - 1
        };
    }

    /// Shows a new message for `MESSAGE_TICKS` ticks.
    pub fn show_message(&mut self)
        ensures
            final(self).message_timer == MESSAGE_TICKS,
            final(self).blocks@ == old(self).blocks@,
    {
        self.message_timer = MESSAGE_TICKS;
    }

    /// One tick; returns whether the message has just expired.
    pub fn update(&mut self) -> (expired: bool)
        ensures
            final(self).frame_count == vstd::wrapping::u64_specs::wrapping_add(old(self).frame_count, 1),
            final(self).message_timer == if old(self).message_timer > 0 {
                (old(self).message_timer - 1) as u32
            } else {
                0
            },
            expired == (old(self).message_timer == 1),
            final(self).blocks@ == old(self).blocks@,
    {
        self.frame_count = self.frame_count.wrapping_add(1);
        if self.message_timer > 0 {
            self.message_timer = self.message_timer - 1;
            self.message_timer == 0
        } else {
            false
        }
    }

    /// Replaces the editor's blocks with those of a pattern.
    pub fn load_pattern(&mut self, pattern: &PatternData)
        requires
            pattern.wf(),
        ensures
            final(self).blocks@ == crate::pattern::pattern_blocks_upto(grid_view(pattern.grid), 200),
    {
        self.blocks = create_blocks_from_pattern(pattern);
        self.message_timer = MESSAGE_TICKS;
    }

    /// The editor's blocks as a pattern named `name` (see `grid_of_blocks`).
    pub fn to_pattern(&self, name: String) -> (p: PatternData)
        ensures
            p.wf(),
            p.name == name,
            grid_view(p.grid) == grid_of_blocks(
                empty_grid(),
                self.blocks@,
                self.blocks@.len(),
            ),
    {
        let mut p = PatternData::new(name);
        let ghost g0 = grid_view(p.grid);
        let mut k: usize = 0;
        while k < self.blocks.len()
            invariant
                k <= self.blocks.len(),
                p.name == name,
                g0 == empty_grid(),
                grid_wf(g0),
                grid_view(p.grid) == grid_of_blocks(g0, self.blocks@, k as nat),
            decreases self.blocks.len() - k,
        {
            proof {
                lemma_grid_of_blocks_wf(g0, self.blocks@, k as nat);
            }
            let b = self.blocks[k];
            if b.active && BLOCK_OFFSET_X <= b.x && BLOCK_OFFSET_Y <= b.y {
                let col = ((b.x - BLOCK_OFFSET_X) / BLOCK_WIDTH) as usize;
                let row = ((b.y - BLOCK_OFFSET_Y) / BLOCK_HEIGHT) as usize;
                if row < BLOCK_ROWS && col < BLOCK_COLS {
                    match palette_index_exec(b.color) {
                        Some(idx) => {
                            let ghost before = grid_view(p.grid);
                            assert(before[row as int] == p.grid@[row as int]@);
                            let mut line = p.grid[row].clone();
                            assert(line@ == before[row as int]);
                            line.set(col, PatternCell { color_index: idx, block_type: b.block_type });
                            p.grid.set(row, line);
                            assert(grid_view(p.grid) =~= before.update(
                                row as int,
                                before[row as int].update(col as int, PatternCell { color_index: idx, block_type: b.block_type }),
                            ));
                        },
                        None => {},
                    }
                }
            }
            k += 1;
        }
        proof {
            lemma_grid_of_blocks_wf(g0, self.blocks@, self.blocks@.len());
        }
        p
    }
}

} // verus!
