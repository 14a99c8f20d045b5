use crate::chance::random_below;
use crate::geometry::Rect;
use crate::levels::{isqrt, isqrt_spec};
use vstd::prelude::*;

verus! {

pub const WINDOW_WIDTH: i32 = 1280;
pub const WINDOW_HEIGHT: i32 = 720;
pub const PADDLE_WIDTH: i32 = 140;
pub const PADDLE_HEIGHT: i32 = 22;
pub const PADDLE_SPEED: i32 = 18;
pub const BALL_SIZE: i32 = 12;
pub const BLOCK_WIDTH: i32 = 60;
pub const BLOCK_HEIGHT: i32 = 20;
pub const BLOCK_ROWS: usize = 10;
pub const BLOCK_COLS: usize = 20;
pub const BLOCK_OFFSET_Y: i32 = 80;
/// Left edge of the block grid: the grid is centred horizontally.
pub const BLOCK_OFFSET_X: i32 = 40;
/// Number of entries in the row colour palette.
pub const PALETTE_LEN: usize = 6;
/// Hits an Ice block takes before it breaks.
pub const ICE_HEALTH: u32 = 2;

#[derive(Clone, Copy, Debug, PartialEq, Eq, Structural)]
pub enum BonusType {
    ExtraBall,
    LongPaddle,
    GhostBall,
    Rocket,
}

#[derive(Clone, Copy, Debug, PartialEq, Eq, Structural)]
pub struct Color {
    pub r: u8,
    pub g: u8,
    pub b: u8,
}

impl Color {
    pub fn new(r: u8, g: u8, b: u8) -> (c: Color)
        ensures
            c == (Color { r, g, b }),
    {
        Color { r, g, b }
    }
}

/// The row palette: red, orange, yellow, green, blue, violet.
pub open spec fn palette(i: int) -> Color {
    if i == 0 {
        Color { r: 255, g: 0, b: 0 }
    } else if i == 1 {
        Color { r: 255, g: 165, b: 0 }
    } else if i == 2 {
        Color { r: 255, g: 255, b: 0 }
    } else if i == 3 {
        Color { r: 0, g: 255, b: 0 }
    } else if i == 4 {
        Color { r: 0, g: 0, b: 255 }
    } else {
        Color { r: 138, g: 43, b: 226 }
    }
}

/// The palette colour of index `i`, taken modulo the palette length.
pub fn block_color(i: usize) -> (c: Color)
    ensures
        c == palette((i % PALETTE_LEN) as int),
{
    let k = i % PALETTE_LEN;
    if k == 0 {
        Color::new(255, 0, 0)
    } else if k == 1 {
        Color::new(255, 165, 0)
    } else if k == 2 {
        Color::new(255, 255, 0)
    } else if k == 3 {
        Color::new(0, 255, 0)
    } else if k == 4 {
        Color::new(0, 0, 255)
    } else {
        Color::new(138, 43, 226)
    }
}

#[derive(Clone, Copy, Debug, PartialEq, Eq, Structural)]
pub enum BlockType {
    Normal,
    /// Takes several hits.
    Ice,
    /// Destroys the active blocks around it when it breaks.
    Explosive,
    /// Never breaks from a hit.
    Undestroyable,
}

#[derive(Clone, Copy, Debug, PartialEq, Eq, Structural)]
pub struct Block {
    pub x: i32,
    pub y: i32,
    pub color: Color,
    pub active: bool,
    pub block_type: BlockType,
    pub health: u32,
    pub max_health: u32,
}

/// The health a fresh block of the given kind starts with.
pub open spec fn initial_health(t: BlockType) -> u32 {
    if t == BlockType::Ice { ICE_HEALTH } else { 1 }
}

/// A fresh, active block.
pub open spec fn fresh_block(x: i32, y: i32, color: Color, t: BlockType) -> Block {
    Block {
        x,
        y,
        color,
        active: true,
        block_type: t,
        health: initial_health(t),
        max_health: initial_health(t),
    }
}

/// Farthest a block may sit from the origin, in pixels along each axis.
pub const BLOCK_COORD_LIMIT: i32 = 1_000_000;

/// A block placed within reach of the play field.
pub open spec fn placed(b: Block) -> bool {
    -BLOCK_COORD_LIMIT <= b.x <= BLOCK_COORD_LIMIT && -BLOCK_COORD_LIMIT <= b.y
        <= BLOCK_COORD_LIMIT
}

impl Block {
    pub fn new(x: i32, y: i32, color: Color, block_type: BlockType) -> (b: Block)
        ensures
            b == fresh_block(x, y, color, block_type),
    {
        let h: u32 = if matches!(block_type, BlockType::Ice) { ICE_HEALTH } else { 1 };
        Block { x, y, color, active: true, block_type, health: h, max_health: h }
    }

    pub open spec fn rect_spec(&self) -> Rect {
        Rect { x: self.x, y: self.y, w: BLOCK_WIDTH, h: BLOCK_HEIGHT }
    }

    pub fn rect(&self) -> (r: Rect)
        ensures
            r == self.rect_spec(),
    {
        Rect::new(self.x, self.y, BLOCK_WIDTH, BLOCK_HEIGHT)
    }
}

/// Sub-pixel units per pixel: moving entities keep their position and velocity
/// in hundredths of a pixel.
pub const SUBPIXELS: i64 = 100;
pub const PADDLE_Y: i32 = 670;
/// The paddle starts centred: (WINDOW_WIDTH - PADDLE_WIDTH) / 2.
pub const PADDLE_START_X: i32 = 570;
pub const LONG_PADDLE_WIDTH: i32 = 180;
/// Ticks the long paddle lasts.
pub const LONG_BONUS_TICKS: u32 = 300;
/// Ticks ghost mode lasts.
pub const GHOST_BONUS_TICKS: u32 = 600;
/// Spin-discharge intensity right after a fast paddle hit, in thousandths.
pub const FULL_INTENSITY: u32 = 1000;

#[derive(Clone, Copy, Debug, PartialEq, Eq, Structural)]
pub struct Paddle {
    pub x: i32,
    pub y: i32,
    pub width: i32,
    pub normal_width: i32,
    pub long_width: i32,
    pub bonus_timer: u32,
    pub ghost_timer: u32,
    pub rocket_ammo: u32,
    pub last_x: i32,
    pub vel_x: i32,
    /// Decaying visual signal of the last spin discharge, in thousandths.
    pub spin_intensity: u32,
}

/// The intensity one tick later: it decays by a tenth and snaps to zero when faint.
pub open spec fn decayed_intensity(v: u32) -> u32 {
    if v * 9 / 10 < 10 {
        0
    } else {
        (v * 9 / 10) as u32
    }
}

pub open spec fn clamp_int(v: int, lo: int, hi: int) -> int {
    if v < lo {
        lo
    } else if v > hi {
        hi
    } else {
        v
    }
}

/// The paddle one tick later (see `Paddle::update`).
pub open spec fn paddle_step(p: Paddle) -> Paddle {
    Paddle {
        vel_x: (p.x - p.last_x) as i32,
        last_x: p.x,
        spin_intensity: decayed_intensity(p.spin_intensity),
        bonus_timer: if p.bonus_timer > 0 { (p.bonus_timer - 1) as u32 } else { 0 },
        width: if p.bonus_timer == 1 { p.normal_width } else { p.width },
        ghost_timer: if p.ghost_timer > 0 { (p.ghost_timer - 1) as u32 } else { 0 },
        ..p
    }
}

impl Paddle {
    pub open spec fn wf(&self) -> bool {
        &&& self.normal_width == PADDLE_WIDTH
        &&& self.long_width == LONG_PADDLE_WIDTH
        &&& (self.width == self.normal_width || self.width == self.long_width)
        &&& 0 <= self.x <= WINDOW_WIDTH - PADDLE_WIDTH
        &&& self.y == PADDLE_Y
        &&& 0 <= self.last_x <= WINDOW_WIDTH - PADDLE_WIDTH
        &&& -WINDOW_WIDTH <= self.vel_x <= WINDOW_WIDTH
        &&& self.spin_intensity <= FULL_INTENSITY
    }

    pub open spec fn new_spec() -> Paddle {
        Paddle {
            x: PADDLE_START_X,
            y: PADDLE_Y,
            width: PADDLE_WIDTH,
            normal_width: PADDLE_WIDTH,
            long_width: LONG_PADDLE_WIDTH,
            bonus_timer: 0,
            ghost_timer: 0,
            rocket_ammo: 0,
            last_x: PADDLE_START_X,
            vel_x: 0,
            spin_intensity: 0,
        }
    }

    /// A centred paddle of normal width with no bonus running.
    pub fn new() -> (p: Paddle)
        ensures
            p.wf(),
            p == Paddle::new_spec(),
            p == (Paddle {
                x: PADDLE_START_X,
                y: PADDLE_Y,
                width: PADDLE_WIDTH,
                normal_width: PADDLE_WIDTH,
                long_width: LONG_PADDLE_WIDTH,
                bonus_timer: 0,
                ghost_timer: 0,
                rocket_ammo: 0,
                last_x: PADDLE_START_X,
                vel_x: 0,
                spin_intensity: 0,
            }),
    {
        let x = PADDLE_START_X;
        Paddle {
            x,
            y: PADDLE_Y,
            width: PADDLE_WIDTH,
            normal_width: PADDLE_WIDTH,
            long_width: LONG_PADDLE_WIDTH,
            bonus_timer: 0,
            ghost_timer: 0,
            rocket_ammo: 0,
            last_x: x,
            vel_x: 0,
            spin_intensity: 0,
        }
    }

    pub fn move_left(&mut self)
        requires
            old(self).wf(),
        ensures
            final(self).wf(),
            *final(self) == (Paddle {
                x: if old(self).x - PADDLE_SPEED < 0 { 0 } else { (old(self).x - PADDLE_SPEED) as i32 },
                ..*old(self)
            }),
    {
        self.x = if self.x - PADDLE_SPEED < 0 { 0 } else { self.x - PADDLE_SPEED };
    }

    pub fn move_right(&mut self)
        requires
            old(self).wf(),
        ensures
            final(self).wf(),
            *final(self) == (Paddle {
                x: if old(self).x + PADDLE_SPEED > WINDOW_WIDTH - old(self).width {
                    (WINDOW_WIDTH - old(self).width) as i32
                } else {
                    (old(self).x + PADDLE_SPEED) as i32
                },
                ..*old(self)
            }),
    {
        let limit = WINDOW_WIDTH - self.width;
        self.x = if self.x + PADDLE_SPEED > limit { limit } else { self.x + PADDLE_SPEED };
    }

    /// Moves the paddle to `x`, clamped to the play field.
    pub fn set_x(&mut self, x: i32)
        requires
            old(self).wf(),
        ensures
            final(self).wf(),
            *final(self) == (Paddle {
                x: clamp_int(x as int, 0, WINDOW_WIDTH - old(self).width) as i32,
                ..*old(self)
            }),
    {
        let limit = WINDOW_WIDTH - self.width;
        self.x = if x < 0 { 0 } else if x > limit { limit } else { x };
    }

    pub fn activate_long_bonus(&mut self)
        requires
            old(self).wf(),
        ensures
            final(self).wf(),
            *final(self) == (Paddle {
                width: old(self).long_width,
                bonus_timer: LONG_BONUS_TICKS,
                ..*old(self)
            }),
    {
        self.width = self.long_width;
        self.bonus_timer = LONG_BONUS_TICKS;
    }

    pub fn activate_ghost_bonus(&mut self)
        requires
            old(self).wf(),
        ensures
            final(self).wf(),
            *final(self) == (Paddle { ghost_timer: GHOST_BONUS_TICKS, ..*old(self) }),
    {
        self.ghost_timer = GHOST_BONUS_TICKS;
    }

    pub fn add_rockets(&mut self)
        requires
            old(self).wf(),
        ensures
            final(self).wf(),
            *final(self) == (Paddle {
                rocket_ammo: if old(self).rocket_ammo == u32::MAX {
                    u32::MAX
                } else {
                    (old(self).rocket_ammo + 1) as u32
                },
                ..*old(self)
            }),
    {
        self.rocket_ammo = self.rocket_ammo.saturating_add(1);
    }

    /// One tick: derive the velocity from the last position, decay the spin
    /// intensity, and run down the bonus timers (the width reverts when the long
    /// paddle's timer reaches zero).
    pub fn update(&mut self)
        requires
            old(self).wf(),
        ensures
            final(self).wf(),
            *final(self) == paddle_step(*old(self)),
    {
        self.vel_x = self.x - self.last_x;
        self.last_x = self.x;
        let decayed = self.spin_intensity * 9 / 10;
        self.spin_intensity = if decayed < 10 { 0 } else { decayed };
        if self.bonus_timer > 0 {
            self.bonus_timer -= 1;
            if self.bonus_timer == 0 {
                self.width = self.normal_width;
            }
        }
        if self.ghost_timer > 0 {
            self.ghost_timer -= 1;
        }
    }

    pub open spec fn rect_spec(&self) -> Rect {
        Rect { x: self.x, y: self.y, w: self.width, h: PADDLE_HEIGHT }
    }

    pub fn rect(&self) -> (r: Rect)
        ensures
            r == self.rect_spec(),
    {
        Rect::new(self.x, self.y, self.width, PADDLE_HEIGHT)
    }
}

/// Speed components of a freshly launched ball, in sub-pixels per tick.
pub const LAUNCH_SPEED: i64 = 400;
/// Smallest horizontal speed of a ball in flight (anti-stall rule).
pub const MIN_HORIZONTAL_SPEED: i64 = 200;
/// Each velocity component saturates at this many sub-pixels per tick.
pub const VELOCITY_LIMIT: i64 = 10_000;
pub const SPIN_LIMIT: i64 = 100_000;
/// Largest left coordinate of a ball inside the walls, in sub-pixels.
pub const BALL_X_MAX: i64 = 126_800;
/// A ball whose top reaches this coordinate has left the field through the bottom.
pub const FIELD_BOTTOM: i64 = 72_000;
pub const ACTIVE_LIMIT: i64 = 100_000_000;
pub const POSITION_LIMIT: i64 = 1_000_000_000;
/// Ticks an attached ball waits before it launches by itself.
pub const LAUNCH_DELAY: u32 = 30;
pub const SHORT_TRAIL: usize = 8;
pub const LONG_TRAIL: usize = 20;
/// Speed (pixels per second) from which a ball leaves a short trail.
pub const FAST_SPEED: i64 = 800;
/// Speed (pixels per second) from which a ball leaves a long trail.
pub const VERY_FAST_SPEED: i64 = 1400;
/// Downward pull per tick in gravity mode, in sub-pixels per tick.
pub const GRAVITY: i64 = 10;

/// Whether a per-tick velocity in sub-pixels reaches `px_per_sec` pixels per second
/// at 60 ticks a second: |v| / 100 * 60 >= s, squared.
pub open spec fn reaches_speed(vx: int, vy: int, px_per_sec: int) -> bool {
    9 * (vx * vx + vy * vy) >= 25 * (px_per_sec * px_per_sec)
}

pub fn reaches_speed_exec(vx: i64, vy: i64, px_per_sec: i64) -> (r: bool)
    requires
        -VELOCITY_LIMIT <= vx <= VELOCITY_LIMIT,
        -VELOCITY_LIMIT <= vy <= VELOCITY_LIMIT,
        0 <= px_per_sec <= 100_000,
    ensures
        r == reaches_speed(vx as int, vy as int, px_per_sec as int),
{
    assert(0 <= vx * vx <= VELOCITY_LIMIT * VELOCITY_LIMIT) by (nonlinear_arith)
        requires -VELOCITY_LIMIT <= vx <= VELOCITY_LIMIT;
    assert(0 <= vy * vy <= VELOCITY_LIMIT * VELOCITY_LIMIT) by (nonlinear_arith)
        requires -VELOCITY_LIMIT <= vy <= VELOCITY_LIMIT;
    assert(0 <= px_per_sec * px_per_sec <= 100_000 * 100_000) by (nonlinear_arith)
        requires 0 <= px_per_sec <= 100_000;
    9 * (vx * vx + vy * vy) >= 25 * (px_per_sec * px_per_sec)
}

pub open spec fn abs_i(v: int) -> int {
    if v < 0 { -v } else { v }
}

/// `v * num / den`, rounded toward zero.
pub open spec fn scale(v: int, num: int, den: int) -> int {
    if v >= 0 {
        v * num / den
    } else {
        -((-v) * num / den)
    }
}

pub fn scale_exec(v: i64, num: i64, den: i64) -> (r: i64)
    requires
        -1_000_000_000 <= v <= 1_000_000_000,
        0 <= num <= 1000,
        den >= 1,
    ensures
        r == scale(v as int, num as int, den as int),
        abs_i(r as int) <= abs_i(v as int) * (num as int) / (den as int),
{
    if v >= 0 {
        assert(0 <= v * num <= 1_000_000_000 * 1000) by (nonlinear_arith)
            requires 0 <= v <= 1_000_000_000, 0 <= num <= 1000;
        v * num / den
    } else {
        let w = -v;
        assert(0 <= w * num <= 1_000_000_000 * 1000) by (nonlinear_arith)
            requires 0 <= w <= 1_000_000_000, 0 <= num <= 1000;
        -(w * num / den)
    }
}

pub open spec fn clamp_velocity(v: int) -> int {
    clamp_int(v, -VELOCITY_LIMIT, VELOCITY_LIMIT as int)
}

/// The pixel that holds a sub-pixel coordinate (rounded toward zero).
pub open spec fn to_pixel(v: int) -> int {
    if v >= 0 {
        v / SUBPIXELS as int
    } else {
        -((-v) / SUBPIXELS as int)
    }
}

pub fn to_pixel_exec(v: i64) -> (r: i32)
    requires
        -POSITION_LIMIT <= v <= POSITION_LIMIT,
    ensures
        r == to_pixel(v as int),
{
    if v >= 0 {
        (v / SUBPIXELS) as i32
    } else {
        (-((-v) / SUBPIXELS)) as i32
    }
}

#[derive(Debug)]
pub struct Ball {
    pub x: i64,
    pub y: i64,
    pub vel_x: i64,
    pub vel_y: i64,
    pub active: bool,
    pub spin: i64,
    /// Recent positions, oldest first, kept while the ball is fast.
    pub trail_positions: Vec<(i64, i64)>,
    /// A ball resting on the paddle before launch.
    pub attached_to_paddle: bool,
    /// Ticks left before an attached ball launches by itself.
    pub launch_timer: u32,
}

/// What moves a ball: everything but its trail.
pub struct Motion {
    pub x: int,
    pub y: int,
    pub vel_x: int,
    pub vel_y: int,
    pub spin: int,
    pub active: bool,
    pub attached: bool,
    pub launch_timer: int,
}

/// One tick of free flight: spin (or gravity) bends the velocity, the ball moves,
/// bounces off the left, right and top walls with its position pinned to the wall,
/// leaves the field past the bottom, and keeps a minimum horizontal speed.
pub open spec fn fly(m: Motion, gravity: bool) -> Motion {
    let vx0 = if gravity { m.vel_x } else { clamp_velocity(m.vel_x + scale(m.spin, 5, 100)) };
    let vy0 = if gravity { clamp_velocity(m.vel_y + GRAVITY) } else { m.vel_y };
    let spin = if gravity { m.spin } else { scale(m.spin, 98, 100) };
    let x1 = m.x + vx0;
    let y1 = m.y + vy0;
    let x2 = if x1 <= 0 { 0 } else if x1 >= BALL_X_MAX { BALL_X_MAX as int } else { x1 };
    let vx1 = if x1 <= 0 { abs_i(vx0) } else if x1 >= BALL_X_MAX { -abs_i(vx0) } else { vx0 };
    let y2 = if y1 <= 0 { 0 } else { y1 };
    let vy1 = if y1 <= 0 { abs_i(vy0) } else { vy0 };
    let vx2 = if abs_i(vx1) < MIN_HORIZONTAL_SPEED {
        if vx1 >= 0 { MIN_HORIZONTAL_SPEED as int } else { -MIN_HORIZONTAL_SPEED }
    } else {
        vx1
    };
    Motion { x: x2, y: y2, vel_x: vx2, vel_y: vy1, spin, active: y2 < FIELD_BOTTOM, ..m }
}

/// The trail after recording position `p` with room for `cap` entries: the oldest
/// entry is dropped once the trail outgrows its room.
pub open spec fn trail_after(t: Seq<(i64, i64)>, p: (i64, i64), cap: int) -> Seq<(i64, i64)> {
    let t2 = t.push(p);
    if t2.len() > cap {
        t2.subrange(1, t2.len() as int)
    } else {
        t2
    }
}

/// The trail of a ball in flight one tick later: kept long at very high speed,
/// short at high speed, cleared below.
pub open spec fn next_trail(b: Ball) -> Seq<(i64, i64)> {
    if reaches_speed(b.vel_x as int, b.vel_y as int, VERY_FAST_SPEED as int) {
        trail_after(b.trail_positions@, (b.x, b.y), LONG_TRAIL as int)
    } else if reaches_speed(b.vel_x as int, b.vel_y as int, FAST_SPEED as int) {
        trail_after(b.trail_positions@, (b.x, b.y), SHORT_TRAIL as int)
    } else {
        seq![]
    }
}

/// The state of an attached ball after launch in `direction` (0: up-left,
/// 1: straight up, otherwise up-right).
pub open spec fn launched(m: Motion, direction: int) -> Motion {
    Motion {
        vel_x: if direction == 0 { -LAUNCH_SPEED } else if direction == 1 { 0 } else { LAUNCH_SPEED as int },
        vel_y: -LAUNCH_SPEED,
        attached: false,
        ..m
    }
}

/// `n` ticks of free flight.
pub open spec fn fly_n(m: Motion, gravity: bool, n: nat) -> Motion
    decreases n,
{
    if n == 0 {
        m
    } else {
        fly(fly_n(m, gravity, (n - 1) as nat), gravity)
    }
}

/// Wall reflection keeps a ball inside the walls and below the ceiling on every
/// tick of flight, whatever its starting position and velocity: after each of the
/// first `n` ticks its position is within `[0, BALL_X_MAX]` horizontally and not
/// above the top, and a ball still in play is above the bottom edge.
pub proof fn lemma_flight_stays_in_field(m: Motion, gravity: bool, n: nat)
    ensures
        forall|k: nat|
            1 <= k <= n ==> {
                let f = #[trigger] fly_n(m, gravity, k);
                &&& 0 <= f.x <= BALL_X_MAX
                &&& 0 <= f.y
                &&& f.active ==> f.y < FIELD_BOTTOM
            },
{
    assert forall|k: nat| 1 <= k <= n implies {
        let f = #[trigger] fly_n(m, gravity, k);
        &&& 0 <= f.x <= BALL_X_MAX
        &&& 0 <= f.y
        &&& f.active ==> f.y < FIELD_BOTTOM
    } by {
        assert(fly_n(m, gravity, k) == fly(fly_n(m, gravity, (k - 1) as nat), gravity));
    }
}

/// One tick of a ball (see `Ball::update`): an inactive ball stays as it is; an
/// attached ball counts down, and launches in one of the three directions once the
/// countdown has run out; a ball in flight records its trail and flies one step.
pub open spec fn ball_updated(b: Ball, n: Ball, gravity: bool) -> bool {
    if !b.active {
        n.motion() == b.motion() && n.trail_positions == b.trail_positions
    } else if b.attached_to_paddle {
        n.trail_positions == b.trail_positions && if b.launch_timer > 0 {
            n.motion() == (Motion { launch_timer: b.launch_timer - 1, ..b.motion() })
        } else {
            exists|d: int| 0 <= d < 3 && n.motion() == #[trigger] launched(b.motion(), d)
        }
    } else {
        n.motion() == fly(b.motion(), gravity) && n.trail_positions@ == next_trail(b)
    }
}

impl Ball {
    pub open spec fn motion(&self) -> Motion {
        Motion {
            x: self.x as int,
            y: self.y as int,
            vel_x: self.vel_x as int,
            vel_y: self.vel_y as int,
            spin: self.spin as int,
            active: self.active,
            attached: self.attached_to_paddle,
            launch_timer: self.launch_timer as int,
        }
    }

    pub open spec fn wf(&self) -> bool {
        &&& -POSITION_LIMIT <= self.x <= POSITION_LIMIT
        &&& -POSITION_LIMIT <= self.y <= POSITION_LIMIT
        &&& self.active ==> -ACTIVE_LIMIT <= self.x <= ACTIVE_LIMIT && -ACTIVE_LIMIT <= self.y
            <= ACTIVE_LIMIT
        &&& -VELOCITY_LIMIT <= self.vel_x <= VELOCITY_LIMIT
        &&& -VELOCITY_LIMIT <= self.vel_y <= VELOCITY_LIMIT
        &&& -SPIN_LIMIT <= self.spin <= SPIN_LIMIT
        &&& self.trail_positions.len() <= LONG_TRAIL
    }

    /// Inside the walls and above the bottom edge.
    pub open spec fn in_field(&self) -> bool {
        0 <= self.x <= BALL_X_MAX && 0 <= self.y < FIELD_BOTTOM
    }

    /// A ball at (`x`, `y`) (sub-pixels), resting on the paddle, waiting to launch.
    pub fn new(x: i64, y: i64) -> (b: Ball)
        ensures
            b.motion() == (Motion {
                x: x as int,
                y: y as int,
                vel_x: 0,
                vel_y: 0,
                spin: 0,
                active: true,
                attached: true,
                launch_timer: LAUNCH_DELAY as int,
            }),
            b.trail_positions@ == Seq::<(i64, i64)>::empty(),
    {
        Ball {
            x,
            y,
            vel_x: 0,
            vel_y: 0,
            active: true,
            spin: 0,
            trail_positions: Vec::new(),
            attached_to_paddle: true,
            launch_timer: LAUNCH_DELAY,
        }
    }

    /// Launches an attached ball upward in `direction` (0: up-left, 1: straight up,
    /// otherwise up-right); a ball in flight is left as it is.
    pub fn launch_in_direction(&mut self, direction: u32)
        requires
            old(self).wf(),
        ensures
            final(self).wf(),
            final(self).motion() == if old(self).attached_to_paddle {
                launched(old(self).motion(), direction as int)
            } else {
                old(self).motion()
            },
            final(self).trail_positions == old(self).trail_positions,
    {
        if self.attached_to_paddle {
            self.vel_x = if direction == 0 {
                -LAUNCH_SPEED
            } else if direction == 1 {
                0
            } else {
                LAUNCH_SPEED
            };
            self.vel_y = -LAUNCH_SPEED;
            self.attached_to_paddle = false;
        }
    }

    /// Launches an attached ball upward in one of three directions picked at random.
    pub fn launch(&mut self)
        requires
            old(self).wf(),
        ensures
            final(self).wf(),
            old(self).attached_to_paddle ==> exists|d: int|
                0 <= d < 3 && final(self).motion() == #[trigger] launched(old(self).motion(), d),
            !old(self).attached_to_paddle ==> final(self).motion() == old(self).motion(),
            final(self).trail_positions == old(self).trail_positions,
    {
        if self.attached_to_paddle {
            let d = random_below(3);
            self.launch_in_direction(d);
        }
    }

    fn record_trail(&mut self)
        requires
            old(self).wf(),
        ensures
            final(self).wf(),
            final(self).motion() == old(self).motion(),
            final(self).trail_positions@ == next_trail(*old(self)),
    {
        let p = (self.x, self.y);
        let cap: usize = if reaches_speed_exec(self.vel_x, self.vel_y, VERY_FAST_SPEED) {
            LONG_TRAIL
        } else if reaches_speed_exec(self.vel_x, self.vel_y, FAST_SPEED) {
            SHORT_TRAIL
        } else {
            0
        };
        if cap == 0 {
            self.trail_positions = Vec::new();
        } else {
            let ghost t0 = self.trail_positions@;
            self.trail_positions.push(p);
            if self.trail_positions.len() > cap {
                self.trail_positions.remove(0);
                assert(self.trail_positions@ =~= t0.push(p).subrange(1, t0.len() as int + 1));
            }
        }
    }

    /// One tick. An inactive ball stays as it is; an attached ball counts down and
    /// launches when its countdown has run out; a ball in flight records its trail
    /// and flies one step (see `fly`), after which it is inside the walls.
    pub fn update(&mut self, gravity_mode: bool)
        requires
            old(self).wf(),
        ensures
            final(self).wf(),
            ball_updated(*old(self), *final(self), gravity_mode),
            old(self).active && !old(self).attached_to_paddle ==> 0 <= final(self).x <= BALL_X_MAX
                && 0 <= final(self).y,
            old(self).active && !old(self).attached_to_paddle && final(self).active
                ==> final(self).in_field(),
    {
        if !self.active {
            return;
        }
        if self.attached_to_paddle {
            if self.launch_timer > 0 {
                self.launch_timer -= 1;
            } else {
                self.launch();
            }
            return;
        }
        self.record_trail();
        let mut vx = self.vel_x;
        let mut vy = self.vel_y;
        let mut spin = self.spin;
        if gravity_mode {
            let v = vy + GRAVITY;
            vy = if v > VELOCITY_LIMIT { VELOCITY_LIMIT } else { v };
        } else {
            let v = vx + scale_exec(spin, 5, 100);
            vx = if v > VELOCITY_LIMIT {
                VELOCITY_LIMIT
            } else if v < -VELOCITY_LIMIT {
                -VELOCITY_LIMIT
            } else {
                v
            };
            spin = scale_exec(spin, 98, 100);
        }
        let mut x = self.x + vx;
        let mut y = self.y + vy;
        if x <= 0 {
            x = 0;
            vx = if vx < 0 { -vx } else { vx };
        } else if x >= BALL_X_MAX {
            x = BALL_X_MAX;
            vx = if vx < 0 { vx } else { -vx };
        }
        if y <= 0 {
            y = 0;
            vy = if vy < 0 { -vy } else { vy };
        }
        if (if vx < 0 { -vx } else { vx }) < MIN_HORIZONTAL_SPEED {
            vx = if vx >= 0 { MIN_HORIZONTAL_SPEED } else { -MIN_HORIZONTAL_SPEED };
        }
        self.x = x;
        self.y = y;
        self.vel_x = vx;
        self.vel_y = vy;
        self.spin = spin;
        self.active = y < FIELD_BOTTOM;
    }

    pub open spec fn rect_spec(&self) -> Rect {
        Rect {
            x: to_pixel(self.x as int) as i32,
            y: to_pixel(self.y as int) as i32,
            w: BALL_SIZE,
            h: BALL_SIZE,
        }
    }

    pub fn rect(&self) -> (r: Rect)
        requires
            self.wf(),
        ensures
            r == self.rect_spec(),
    {
        Rect::new(to_pixel_exec(self.x), to_pixel_exec(self.y), BALL_SIZE, BALL_SIZE)
    }
}

/// Pixels a power-up falls per tick.
pub const BONUS_FALL: i32 = 2;
pub const BONUS_SIZE: i32 = 40;
/// Pixels a rocket climbs per tick.
pub const ROCKET_CLIMB: i32 = 8;
pub const ROCKET_WIDTH: i32 = 10;
pub const ROCKET_HEIGHT: i32 = 20;

/// A power-up one tick later (see `Bonus::update`).
pub open spec fn bonus_step(b: Bonus) -> Bonus {
    let y = if b.y > i32::MAX - BONUS_FALL { i32::MAX as int } else { b.y + BONUS_FALL };
    Bonus { y: y as i32, active: b.active && y <= WINDOW_HEIGHT, ..b }
}

/// A rocket one tick later (see `Rocket::update`).
pub open spec fn rocket_step(r: Rocket) -> Rocket {
    let y = if r.y < i32::MIN + ROCKET_CLIMB { i32::MIN as int } else { r.y - ROCKET_CLIMB };
    Rocket { y: y as i32, active: r.active && y >= 0, ..r }
}

/// A falling power-up.
#[derive(Clone, Copy, Debug, PartialEq, Eq, Structural)]
pub struct Bonus {
    pub x: i32,
    pub y: i32,
    pub bonus_type: BonusType,
    pub active: bool,
}

impl Bonus {
    pub fn new(x: i32, y: i32, bonus_type: BonusType) -> (b: Bonus)
        ensures
            b == (Bonus { x, y, bonus_type, active: true }),
    {
        Bonus { x, y, bonus_type, active: true }
    }

    /// Falls at constant speed; leaves play once below the window.
    pub fn update(&mut self)
        ensures
            final(self).y == if old(self).y > i32::MAX - BONUS_FALL {
                i32::MAX as int
            } else {
                old(self).y + BONUS_FALL
            },
            final(self).active == (old(self).active && final(self).y <= WINDOW_HEIGHT),
            final(self).x == old(self).x,
            final(self).bonus_type == old(self).bonus_type,
            *final(self) == bonus_step(*old(self)),
    {
        self.y = if self.y > i32::MAX - BONUS_FALL { i32::MAX } else { self.y + BONUS_FALL };
        if self.y > WINDOW_HEIGHT {
            self.active = false;
        }
    }

    pub open spec fn rect_spec(&self) -> Rect {
        Rect { x: self.x, y: self.y, w: BONUS_SIZE, h: BONUS_SIZE }
    }

    pub fn rect(&self) -> (r: Rect)
        ensures
            r == self.rect_spec(),
    {
        Rect::new(self.x, self.y, BONUS_SIZE, BONUS_SIZE)
    }
}

/// A rocket fired from the paddle.
#[derive(Clone, Copy, Debug, PartialEq, Eq, Structural)]
pub struct Rocket {
    pub x: i32,
    pub y: i32,
    pub active: bool,
}

impl Rocket {
    pub fn new(x: i32, y: i32) -> (r: Rocket)
        ensures
            r == (Rocket { x, y, active: true }),
    {
        Rocket { x, y, active: true }
    }

    /// Climbs at constant speed; leaves play once above the window.
    pub fn update(&mut self)
        ensures
            final(self).y == if old(self).y < i32::MIN + ROCKET_CLIMB {
                i32::MIN as int
            } else {
                old(self).y - ROCKET_CLIMB
            },
            final(self).active == (old(self).active && final(self).y >= 0),
            final(self).x == old(self).x,
            *final(self) == rocket_step(*old(self)),
    {
        self.y = if self.y < i32::MIN + ROCKET_CLIMB { i32::MIN } else { self.y - ROCKET_CLIMB };
        if self.y < 0 {
            self.active = false;
        }
    }

    pub open spec fn rect_spec(&self) -> Rect {
        Rect { x: self.x, y: self.y, w: ROCKET_WIDTH, h: ROCKET_HEIGHT }
    }

    pub fn rect(&self) -> (r: Rect)
        ensures
            r == self.rect_spec(),
    {
        Rect::new(self.x, self.y, ROCKET_WIDTH, ROCKET_HEIGHT)
    }
}

/// Downward pull on debris per tick, in sub-pixels per tick.
pub const PARTICLE_GRAVITY: i64 = 30;

pub open spec fn sat_add(a: int, b: int) -> i64 {
    clamp_int(a + b, i64::MIN as int, i64::MAX as int) as i64
}

/// `a + b`, saturating at the bounds of `i64`.
pub fn sat_add_i64(a: i64, b: i64) -> (r: i64)
    ensures
        r == sat_add(a as int, b as int),
{
    if b >= 0 {
        if a > i64::MAX - b { i64::MAX } else { a + b }
    } else {
        if a < i64::MIN - b { i64::MIN } else { a + b }
    }
}

/// Cosmetic debris (positions and velocities in sub-pixels, angles in degrees).
#[derive(Clone, Copy, Debug)]
pub struct Particle {
    pub x: i64,
    pub y: i64,
    pub vel_x: i64,
    pub vel_y: i64,
    pub rotation: i32,
    pub rotation_speed: i32,
    pub lifetime: u32,
    pub max_lifetime: u32,
    pub size: i32,
    pub color: Color,
}

impl Particle {
    /// A particle with a random rotation, spin, lifetime (20 to 39 ticks) and size
    /// (3 to 7 pixels).
    pub fn new(x: i64, y: i64, vel_x: i64, vel_y: i64, color: Color) -> (p: Particle)
        ensures
            p.x == x && p.y == y && p.vel_x == vel_x && p.vel_y == vel_y && p.color == color,
            p.lifetime == 0,
            20 <= p.max_lifetime < 40,
            3 <= p.size < 8,
            0 <= p.rotation < 360,
            -10 <= p.rotation_speed < 10,
    {
        let rotation = random_below(360) as i32;
        let rotation_speed = random_below(20) as i32 - 10;
        let max_lifetime = 20 + random_below(20);
        let size = 3 + random_below(5) as i32;
        Particle {
            x,
            y,
            vel_x,
            vel_y,
            rotation,
            rotation_speed,
            lifetime: 0,
            max_lifetime,
            size,
            color,
        }
    }

    /// Moves, falls, turns and ages by one tick.
    pub fn update(&mut self)
        ensures
            final(self).x == sat_add(old(self).x as int, old(self).vel_x as int),
            final(self).y == sat_add(old(self).y as int, old(self).vel_y as int),
            final(self).vel_x == old(self).vel_x,
            final(self).vel_y == sat_add(old(self).vel_y as int, PARTICLE_GRAVITY as int),
            final(self).lifetime == clamp_int(old(self).lifetime + 1, 0, u32::MAX as int),
            final(self).max_lifetime == old(self).max_lifetime,
            final(self).color == old(self).color,
            final(self).size == old(self).size,
    {
        self.x = sat_add_i64(self.x, self.vel_x);
        self.y = sat_add_i64(self.y, self.vel_y);
        self.vel_y = sat_add_i64(self.vel_y, PARTICLE_GRAVITY);
        self.rotation = self.rotation.wrapping_add(self.rotation_speed);
        self.lifetime = self.lifetime.saturating_add(1);
    }

    pub fn is_alive(&self) -> (r: bool)
        ensures
            r == (self.lifetime < self.max_lifetime),
    {
        self.lifetime < self.max_lifetime
    }

    /// Opacity, fading linearly from 255 to 0 over the particle's lifetime.
    pub fn alpha(&self) -> (a: u8)
        ensures
            a == if self.max_lifetime == 0 || self.lifetime >= self.max_lifetime {
                0
            } else {
                (255 * (self.max_lifetime - self.lifetime)) / (self.max_lifetime as int)
            },
    {
        if self.max_lifetime == 0 || self.lifetime >= self.max_lifetime {
            0
        } else {
            let left = (self.max_lifetime - self.lifetime) as u64;
            let m = self.max_lifetime as u64;
            assert((255 * left as int) / (m as int) <= 255) by (nonlinear_arith)
                requires left <= m, m > 0;
            ((255 * left) / m) as u8
        }
    }
}

#[derive(Clone, Copy, Debug, PartialEq, Eq, Structural)]
pub enum PenguinState {
    /// Flying from the bottom-right corner to the heart.
    WalkingIn,
    /// Holding the heart for a moment.
    Grabbing,
    /// Flying off down and to the right.
    RunningAway,
    Done,
}

/// Speed of the penguin on its way in, in sub-pixels per tick.
pub const PENGUIN_SPEED: i64 = 550;
/// Distance (sub-pixels) at which the penguin snaps onto the heart.
pub const PENGUIN_REACH: i64 = 500;
/// Ticks the penguin holds the heart.
pub const PENGUIN_GRAB_TICKS: u32 = 30;
pub const PENGUIN_ESCAPE_DX: i64 = 700;
pub const PENGUIN_ESCAPE_DY: i64 = 500;
/// The penguin is gone once it is this far right or down (sub-pixels).
pub const PENGUIN_EXIT_X: i64 = 138_000;
pub const PENGUIN_EXIT_Y: i64 = 82_000;
pub const PENGUIN_START_X: i64 = 123_000;
pub const PENGUIN_START_Y: i64 = 62_000;
pub const TARGET_LIMIT: i64 = 100_000_000;

/// The animated thief that carries off a lost heart (positions in sub-pixels).
#[derive(Clone, Copy, Debug, PartialEq, Eq, Structural)]
pub struct Penguin {
    pub x: i64,
    pub y: i64,
    pub target_x: i64,
    pub target_y: i64,
    pub state: PenguinState,
    pub frame_count: u32,
}

/// The penguin one tick later.
pub open spec fn penguin_step(p: Penguin) -> Penguin {
    let frames = clamp_int(p.frame_count + 1, 0, u32::MAX as int) as u32;
    match p.state {
        PenguinState::WalkingIn => {
            let dx = p.target_x - p.x;
            let dy = p.target_y - p.y;
            let dist = isqrt_spec((dx * dx + dy * dy) as nat);
            if dist > PENGUIN_REACH {
                Penguin {
                    x: (p.x + scale(dx, PENGUIN_SPEED as int, dist as int)) as i64,
                    y: (p.y + scale(dy, PENGUIN_SPEED as int, dist as int)) as i64,
                    frame_count: frames,
                    ..p
                }
            } else {
                Penguin {
                    x: p.target_x,
                    y: p.target_y,
                    state: PenguinState::Grabbing,
                    frame_count: 0,
                    ..p
                }
            }
        },
        PenguinState::Grabbing => {
            if frames >= PENGUIN_GRAB_TICKS {
                Penguin { state: PenguinState::RunningAway, frame_count: 0, ..p }
            } else {
                Penguin { frame_count: frames, ..p }
            }
        },
        PenguinState::RunningAway => {
            let x = p.x + PENGUIN_ESCAPE_DX;
            let y = p.y + PENGUIN_ESCAPE_DY;
            Penguin {
                x: x as i64,
                y: y as i64,
                state: if x > PENGUIN_EXIT_X || y > PENGUIN_EXIT_Y {
                    PenguinState::Done
                } else {
                    PenguinState::RunningAway
                },
                frame_count: frames,
                ..p
            }
        },
        PenguinState::Done => Penguin { frame_count: frames, ..p },
    }
}

proof fn lemma_step_toward(d: int, dist: int)
    requires
        dist > PENGUIN_REACH,
        d * d <= dist * dist,
    ensures
        abs_i(d - scale(d, PENGUIN_SPEED as int, dist)) <= abs_i(d),
        abs_i(scale(d, PENGUIN_SPEED as int, dist)) <= 2 * abs_i(d),
{
    let a = abs_i(d);
    assert(a * PENGUIN_SPEED / dist <= 2 * a) by (nonlinear_arith)
        requires a >= 0, dist > 500, PENGUIN_SPEED == 550;
    assert(a * PENGUIN_SPEED / dist >= 0) by (nonlinear_arith)
        requires a >= 0, dist > 0, PENGUIN_SPEED == 550;
}

pub proof fn lemma_component_below_root(a: int, b: int, r: int)
    requires
        r >= 0,
        a * a + b * b < (r + 1) * (r + 1),
    ensures
        a * a <= r * r,
{
    let m = abs_i(a);
    assert(m * m == a * a) by (nonlinear_arith)
        requires m == abs_i(a);
    assert(b * b >= 0) by (nonlinear_arith);
    if m > r {
        assert(m * m >= (r + 1) * (r + 1)) by (nonlinear_arith)
            requires m >= r + 1, r >= 0;
    }
    assert(m * m <= r * r) by (nonlinear_arith)
        requires 0 <= m <= r;
}

impl Penguin {
    pub open spec fn wf(&self) -> bool {
        &&& -TARGET_LIMIT <= self.target_x <= TARGET_LIMIT
        &&& -TARGET_LIMIT <= self.target_y <= TARGET_LIMIT
        &&& -5 * TARGET_LIMIT <= self.x <= 5 * TARGET_LIMIT
        &&& -5 * TARGET_LIMIT <= self.y <= 5 * TARGET_LIMIT
        &&& self.state == PenguinState::WalkingIn ==> abs_i(self.x - self.target_x) <= 3
            * TARGET_LIMIT && abs_i(self.y - self.target_y) <= 3 * TARGET_LIMIT
        &&& self.state == PenguinState::Grabbing ==> self.x == self.target_x && self.y
            == self.target_y
        &&& self.state == PenguinState::RunningAway ==> self.x <= 4 * TARGET_LIMIT && self.y <= 4
            * TARGET_LIMIT
    }

    /// A penguin entering at the bottom-right corner, heading for the heart at
    /// (`target_x`, `target_y`).
    pub fn new(target_x: i64, target_y: i64) -> (p: Penguin)
        requires
            -TARGET_LIMIT <= target_x <= TARGET_LIMIT,
            -TARGET_LIMIT <= target_y <= TARGET_LIMIT,
        ensures
            p.wf(),
            p == (Penguin {
                x: PENGUIN_START_X,
                y: PENGUIN_START_Y,
                target_x,
                target_y,
                state: PenguinState::WalkingIn,
                frame_count: 0,
            }),
    {
        Penguin {
            x: PENGUIN_START_X,
            y: PENGUIN_START_Y,
            target_x,
            target_y,
            state: PenguinState::WalkingIn,
            frame_count: 0,
        }
    }

    /// One tick of the theft animation (see `penguin_step`).
    pub fn update(&mut self)
        requires
            old(self).wf(),
        ensures
            final(self).wf(),
            *final(self) == penguin_step(*old(self)),
    {
        let frames = self.frame_count.saturating_add(1);
        match self.state {
            PenguinState::WalkingIn => {
                let dx = self.target_x - self.x;
                let dy = self.target_y - self.y;
                assert(0 <= dx * dx <= 9 * TARGET_LIMIT * TARGET_LIMIT * 9) by (nonlinear_arith)
                    requires abs_i(dx as int) <= 3 * TARGET_LIMIT;
                assert(0 <= dy * dy <= 9 * TARGET_LIMIT * TARGET_LIMIT * 9) by (nonlinear_arith)
                    requires abs_i(dy as int) <= 3 * TARGET_LIMIT;
                let dist = isqrt((dx * dx + dy * dy) as u64);
                if dist > PENGUIN_REACH as u64 {
                    assert(dist <= 2_000_000_000) by (nonlinear_arith)
                        requires dist * dist <= dx * dx + dy * dy, dx * dx + dy * dy <= 2 * (81 * TARGET_LIMIT * TARGET_LIMIT);
                    proof {
                        lemma_component_below_root(dx as int, dy as int, dist as int);
                        lemma_component_below_root(dy as int, dx as int, dist as int);
                    }
                    let sx = scale_exec(dx, PENGUIN_SPEED, dist as i64);
                    let sy = scale_exec(dy, PENGUIN_SPEED, dist as i64);
                    proof {
                        lemma_step_toward(dx as int, dist as int);
                        lemma_step_toward(dy as int, dist as int);
                    }
                    self.x = self.x + sx;
                    self.y = self.y + sy;
                    self.frame_count = frames;
                } else {
                    self.x = self.target_x;
                    self.y = self.target_y;
                    self.state = PenguinState::Grabbing;
                    self.frame_count = 0;
                }
            },
            PenguinState::Grabbing => {
                if frames >= PENGUIN_GRAB_TICKS {
                    self.state = PenguinState::RunningAway;
                    self.frame_count = 0;
                } else {
                    self.frame_count = frames;
                }
            },
            PenguinState::RunningAway => {
                self.x = self.x + PENGUIN_ESCAPE_DX;
                self.y = self.y + PENGUIN_ESCAPE_DY;
                if self.x > PENGUIN_EXIT_X || self.y > PENGUIN_EXIT_Y {
                    self.state = PenguinState::Done;
                }
                self.frame_count = frames;
            },
            PenguinState::Done => {
                self.frame_count = frames;
            },
        }
    }

    pub fn is_done(&self) -> (r: bool)
        ensures
            r == (self.state == PenguinState::Done),
    {
        matches!(self.state, PenguinState::Done)
    }
}

} // verus!
