use crate::entities::{
    abs_i, clamp_velocity, lemma_component_below_root, placed, scale, scale_exec, to_pixel, to_pixel_exec, Ball, Block, BlockType, BonusType,
    Motion, Paddle, BALL_SIZE, BALL_X_MAX, BLOCK_HEIGHT, BLOCK_WIDTH, FIELD_BOTTOM, SUBPIXELS,
    VELOCITY_LIMIT,
};
use crate::game::SoundEffect;
use crate::geometry::{intersection, overlap_rect, overlaps, Rect};
use crate::levels::{isqrt, isqrt_spec};
use vstd::prelude::*;

verus! {

/// Points for every block destroyed.
pub const BLOCK_SCORE: u32 = 10;
/// Squared radius (pixels) of the blast of an Explosive block.
pub const BLOCK_BLAST_RADIUS_SQ: i64 = 3600;
/// Squared radius (pixels) of the blast of a rocket.
pub const ROCKET_BLAST_RADIUS_SQ: i64 = 14400;

/// Whether a hit destroys the block: anything but an Indestructible block, and an
/// Ice block only on its last point of health.
pub open spec fn breaks(b: Block) -> bool {
    match b.block_type {
        BlockType::Undestroyable => false,
        BlockType::Ice => b.health <= 1,
        _ => true,
    }
}

/// The block after one hit: Ice loses a point of health, and a block that breaks
/// is deactivated.
pub open spec fn hit_result(b: Block) -> Block {
    let h = if b.block_type == BlockType::Ice && b.health > 0 {
        (b.health - 1) as u32
    } else {
        b.health
    };
    Block { health: h, active: b.active && !breaks(b), ..b }
}

/// Takes one hit on the block; returns whether it broke.
pub fn hit_block(b: &mut Block) -> (destroyed: bool)
    ensures
        destroyed == breaks(*old(b)),
        *final(b) == hit_result(*old(b)),
{
    let destroyed = match b.block_type {
        BlockType::Undestroyable => false,
        BlockType::Ice => {
            if b.health > 0 {
                b.health = b.health - 1;
            }
            b.health == 0
        },
        BlockType::Explosive => true,
        BlockType::Normal => true,
    };
    if destroyed {
        b.active = false;
    }
    destroyed
}

/// Centre of a block, in pixels.
pub open spec fn center_x(b: Block) -> int {
    b.x + BLOCK_WIDTH / 2
}

pub open spec fn center_y(b: Block) -> int {
    b.y + BLOCK_HEIGHT / 2
}

/// Whether the block's centre lies within the blast of squared radius `r2` around
/// (`cx`, `cy`).
pub open spec fn in_blast(b: Block, cx: int, cy: int, r2: int) -> bool {
    (center_x(b) - cx) * (center_x(b) - cx) + (center_y(b) - cy) * (center_y(b) - cy) <= r2
}

/// The block after a blast: an active block within reach is destroyed.
pub open spec fn blasted(b: Block, cx: int, cy: int, r2: int) -> Block {
    if b.active && in_blast(b, cx, cy, r2) {
        Block { active: false, ..b }
    } else {
        b
    }
}

/// How many blocks went from active to inactive between `a` and `b`.
pub open spec fn count_broken(a: Seq<Block>, b: Seq<Block>) -> nat
    decreases a.len(),
{
    if a.len() == 0 || a.len() != b.len() {
        0
    } else {
        count_broken(a.drop_last(), b.drop_last()) + if a.last().active && !b.last().active {
            1nat
        } else {
            0nat
        }
    }
}

proof fn lemma_count_broken_push(a: Seq<Block>, b: Seq<Block>, x: Block, y: Block)
    requires
        a.len() == b.len(),
    ensures
        count_broken(a.push(x), b.push(y)) == count_broken(a, b) + if x.active && !y.active {
            1nat
        } else {
            0nat
        },
{
    assert(a.push(x).drop_last() =~= a);
    assert(b.push(y).drop_last() =~= b);
}

pub proof fn lemma_count_broken_same(a: Seq<Block>)
    ensures
        count_broken(a, a) == 0,
    decreases a.len(),
{
    if a.len() > 0 {
        lemma_count_broken_same(a.drop_last());
    }
}

/// Centre of a block, in pixels, as computed by the engine.
pub fn block_center(b: &Block) -> (c: (i64, i64))
    ensures
        c.0 == center_x(*b),
        c.1 == center_y(*b),
{
    (b.x as i64 + (BLOCK_WIDTH / 2) as i64, b.y as i64 + (BLOCK_HEIGHT / 2) as i64)
}

/// Destroys every active block whose centre lies within the blast of squared
/// radius `r2` around (`cx`, `cy`) (pixels); returns how many it destroyed.
pub fn explode_at(blocks: &mut Vec<Block>, cx: i64, cy: i64, r2: i64) -> (n: usize)
    requires
        -1_000_000_000 <= cx <= 1_000_000_000,
        -1_000_000_000 <= cy <= 1_000_000_000,
    ensures
        final(blocks).len() == old(blocks).len(),
        forall|i: int|
            0 <= i < old(blocks).len() ==> #[trigger] final(blocks)@[i] == blasted(
                old(blocks)@[i],
                cx as int,
                cy as int,
                r2 as int,
            ),
        n == count_broken(old(blocks)@, final(blocks)@),
{
    let ghost start = blocks@;
    let mut n: usize = 0;
    let mut i: usize = 0;
    while i < blocks.len()
        invariant
            i <= blocks.len(),
            blocks.len() == start.len(),
            forall|j: int|
                0 <= j < i ==> #[trigger] blocks@[j] == blasted(start[j], cx as int, cy as int, r2 as int),
            forall|j: int| i <= j < blocks.len() ==> #[trigger] blocks@[j] == start[j],
            n == count_broken(start.subrange(0, i as int), blocks@.subrange(0, i as int)),
            n <= i,
            -1_000_000_000 <= cx <= 1_000_000_000,
            -1_000_000_000 <= cy <= 1_000_000_000,
        decreases start.len() - i,
    {
        let ghost before = blocks@;
        let b = blocks[i];
        let (bx, by) = block_center(&b);
        let dx: i128 = bx as i128 - cx as i128;
        let dy: i128 = by as i128 - cy as i128;
        assert(dx * dx <= 0x1_0000_0000_0000_0000_0000 && dy * dy <= 0x1_0000_0000_0000_0000_0000)
            by (nonlinear_arith)
            requires -0x1_0000_0000 <= dx <= 0x1_0000_0000, -0x1_0000_0000 <= dy <= 0x1_0000_0000;
        assert(dx * dx >= 0 && dy * dy >= 0) by (nonlinear_arith);
        let hit = b.active && dx * dx + dy * dy <= r2 as i128;
        if hit {
            blocks.set(i, Block { active: false, ..b });
        }
        proof {
            lemma_count_broken_push(
                start.subrange(0, i as int),
                before.subrange(0, i as int),
                start[i as int],
                blocks@[i as int],
            );
            assert(start.subrange(0, i as int).push(start[i as int]) =~= start.subrange(0, i + 1));
            assert(before.subrange(0, i as int) =~= blocks@.subrange(0, i as int));
            assert(blocks@.subrange(0, i as int).push(blocks@[i as int]) =~= blocks@.subrange(
                0,
                i + 1,
            ));
        }
        if hit {
            n = n + 1;
        }
        i += 1;
    }
    assert(start.subrange(0, start.len() as int) =~= start);
    assert(blocks@.subrange(0, blocks.len() as int) =~= blocks@);
    n
}

/// The ball after it bounced off a block with the given overlap: the narrower side
/// of the overlap tells the face that was hit; the ball is pushed out across that
/// face and its velocity along that axis is reversed.
pub open spec fn bounced(b: Ball, block: Block, o: Rect) -> Ball {
    if o.w < o.h {
        Ball {
            x: (if b.x + BALL_SIZE * SUBPIXELS / 2 < (block.x + BLOCK_WIDTH / 2) * SUBPIXELS {
                b.x - o.w * SUBPIXELS
            } else {
                b.x + o.w * SUBPIXELS
            }) as i64,
            vel_x: (-b.vel_x) as i64,
            ..b
        }
    } else {
        Ball {
            y: (if b.y + BALL_SIZE * SUBPIXELS / 2 < (block.y + BLOCK_HEIGHT / 2) * SUBPIXELS {
                b.y - o.h * SUBPIXELS
            } else {
                b.y + o.h * SUBPIXELS
            }) as i64,
            vel_y: (-b.vel_y) as i64,
            ..b
        }
    }
}

/// Within the field, or at most one ball's width outside it.
pub open spec fn near_field(b: Ball) -> bool {
    -BALL_SIZE * SUBPIXELS <= b.x <= BALL_X_MAX + BALL_SIZE * SUBPIXELS && -BALL_SIZE * SUBPIXELS
        <= b.y <= FIELD_BOTTOM + BALL_SIZE * SUBPIXELS
}

/// Bounces the ball off `block`, whose rectangle overlaps the ball's by `o`.
pub fn bounce_off_block(ball: &mut Ball, block: &Block, o: Rect)
    requires
        old(ball).wf(),
        old(ball).in_field(),
        0 < o.w <= BALL_SIZE,
        0 < o.h <= BALL_SIZE,
    ensures
        final(ball).wf(),
        near_field(*final(ball)),
        *final(ball) == bounced(*old(ball), *block, o),
{
    let half_ball = (BALL_SIZE as i64) * SUBPIXELS / 2;
    if o.w < o.h {
        let push = o.w as i64 * SUBPIXELS;
        let bcx = (block.x as i64 + (BLOCK_WIDTH / 2) as i64) * SUBPIXELS;
        if ball.x + half_ball < bcx {
            ball.x = ball.x - push;
        } else {
            ball.x = ball.x + push;
        }
        ball.vel_x = -ball.vel_x;
    } else {
        let push = o.h as i64 * SUBPIXELS;
        let bcy = (block.y as i64 + (BLOCK_HEIGHT / 2) as i64) * SUBPIXELS;
        if ball.y + half_ball < bcy {
            ball.y = ball.y - push;
        } else {
            ball.y = ball.y + push;
        }
        ball.vel_y = -ball.vel_y;
    }
}

/// Horizontal speed gained per pixel of offset from the paddle's centre (sub-pixels per tick).
pub const AIM_FACTOR: i64 = 10;
/// Paddle speed (pixels per tick) above which a hit discharges full spin.
pub const SPIN_GATE: i32 = 2;

/// Offset (pixels) of the ball's centre from the paddle's centre.
pub open spec fn paddle_offset(b: Ball, p: Paddle) -> int {
    to_pixel(b.x as int) + BALL_SIZE / 2 - (p.x + p.width / 2)
}

/// Whether a paddle hit discharges full spin: only when the paddle moves fast enough.
pub open spec fn discharges(p: Paddle) -> bool {
    abs_i(p.vel_x as int) > SPIN_GATE
}

/// The ball after it hit the paddle: it heads up, gains horizontal speed from its
/// offset to the paddle's centre, and takes spin from the paddle's motion (or only
/// a little, from the offset, off a slow paddle).
pub open spec fn paddle_bounced(b: Ball, p: Paddle) -> Ball {
    let off = paddle_offset(b, p);
    Ball {
        vel_y: (-abs_i(b.vel_y as int)) as i64,
        vel_x: clamp_velocity(b.vel_x + off * AIM_FACTOR) as i64,
        spin: (if discharges(p) {
            p.vel_x * 30 + off * 5
        } else {
            off * 2
        }) as i64,
        ..b
    }
}

/// Bounces the ball off the paddle; returns whether the hit discharged full spin.
pub fn bounce_off_paddle(ball: &mut Ball, p: &Paddle) -> (discharge: bool)
    requires
        old(ball).wf(),
        old(ball).in_field(),
        p.wf(),
    ensures
        final(ball).wf(),
        final(ball).in_field(),
        *final(ball) == paddle_bounced(*old(ball), *p),
        discharge == discharges(*p),
{
    let off: i64 = to_pixel_exec(ball.x) as i64 + (BALL_SIZE / 2) as i64 - (p.x as i64 + (p.width
        / 2) as i64);
    ball.vel_y = if ball.vel_y < 0 { ball.vel_y } else { -ball.vel_y };
    let v = ball.vel_x + off * AIM_FACTOR;
    ball.vel_x = if v > VELOCITY_LIMIT {
        VELOCITY_LIMIT
    } else if v < -VELOCITY_LIMIT {
        -VELOCITY_LIMIT
    } else {
        v
    };
    let discharge = p.vel_x > SPIN_GATE || p.vel_x < -SPIN_GATE;
    ball.spin = if discharge { p.vel_x as i64 * 30 + off * 5 } else { off * 2 };
    discharge
}

/// Distance (sub-pixels) below which two balls collide.
pub const BALL_CONTACT: i64 = 1200;
/// Vertical speed at least given to two colliding balls.
pub const EJECT_SPEED: i64 = 800;
/// Horizontal speed given to two colliding balls.
pub const SEPARATION_SPEED: i64 = 500;

/// Whether two balls are closer than a ball's width.
pub open spec fn balls_touch(a: Ball, b: Ball) -> bool {
    (b.x - a.x) * (b.x - a.x) + (b.y - a.y) * (b.y - a.y) < BALL_CONTACT * BALL_CONTACT
}

/// The ball after a collision whose contact point lies at `cx`: it heads up at
/// least at `EJECT_SPEED` and moves away from the contact point horizontally.
pub open spec fn ejected(b: Ball, cx: int) -> Ball {
    Ball {
        vel_y: (-(if abs_i(b.vel_y as int) >= EJECT_SPEED { abs_i(b.vel_y as int) } else { EJECT_SPEED as int })) as i64,
        vel_x: (if b.x < cx { -SEPARATION_SPEED } else { SEPARATION_SPEED as int }) as i64,
        ..b
    }
}

pub fn balls_touch_exec(a: &Ball, b: &Ball) -> (r: bool)
    requires
        a.in_field(),
        b.in_field(),
    ensures
        r == balls_touch(*a, *b),
{
    let dx = b.x - a.x;
    let dy = b.y - a.y;
    assert(dx * dx <= 200_000 * 200_000 && dy * dy <= 200_000 * 200_000) by (nonlinear_arith)
        requires -200_000 <= dx <= 200_000, -200_000 <= dy <= 200_000;
    assert(dx * dx >= 0 && dy * dy >= 0) by (nonlinear_arith);
    dx * dx + dy * dy < BALL_CONTACT * BALL_CONTACT
}

pub fn eject(ball: &mut Ball, cx: i64)
    requires
        old(ball).wf(),
    ensures
        final(ball).wf(),
        *final(ball) == ejected(*old(ball), cx as int),
{
    let ay = if ball.vel_y < 0 { -ball.vel_y } else { ball.vel_y };
    ball.vel_y = -(if ay >= EJECT_SPEED { ay } else { EJECT_SPEED });
    ball.vel_x = if ball.x < cx { -SEPARATION_SPEED } else { SEPARATION_SPEED };
}

/// Chance (in percent) that a destroyed block drops a power-up.
pub const DROP_PERCENT: u32 = 15;
/// Ticks that must pass between two drops.
pub const DROP_COOLDOWN: u64 = 60;

/// Whether a drop happens, given a roll below 100 and the ticks since the last drop.
pub fn drop_passes(roll: u32, cooldown: u64) -> (r: bool)
    ensures
        r == (roll < DROP_PERCENT && cooldown >= DROP_COOLDOWN),
{
    roll < DROP_PERCENT && cooldown >= DROP_COOLDOWN
}

/// The power-up kind for a roll below 100: long paddle 50%, extra ball 25%,
/// ghost ball 15%, rocket 10%.
pub open spec fn kind_for_roll(roll: u32) -> BonusType {
    if roll < 50 {
        BonusType::LongPaddle
    } else if roll < 75 {
        BonusType::ExtraBall
    } else if roll < 90 {
        BonusType::GhostBall
    } else {
        BonusType::Rocket
    }
}

pub fn bonus_kind_for(roll: u32) -> (t: BonusType)
    ensures
        t == kind_for_roll(roll),
{
    if roll < 50 {
        BonusType::LongPaddle
    } else if roll < 75 {
        BonusType::ExtraBall
    } else if roll < 90 {
        BonusType::GhostBall
    } else {
        BonusType::Rocket
    }
}

/// Points lost with a life.
pub const LIFE_PENALTY: u32 = 20;

/// The score after a life is lost: the penalty is taken, but never below zero.
pub fn score_after_life_loss(score: u32) -> (r: u32)
    ensures
        r == if score >= LIFE_PENALTY { score - LIFE_PENALTY } else { 0 },
{
    if score >= LIFE_PENALTY {
        score - LIFE_PENALTY
    } else {
        0
    }
}

/// Centre of the portal, in pixels.
pub const PORTAL_X: i64 = 640;
pub const PORTAL_Y: i64 = 360;
/// Offsets of the sixteen orbit positions at radius 150 pixels, one quarter turn
/// at a time: cosine of 0, 22.5, 45 and 67.5 degrees times the radius.
pub open spec fn orbit_cos(r: int) -> int {
    if r == 0 {
        150
    } else if r == 1 {
        139
    } else if r == 2 {
        106
    } else if r == 3 {
        57
    } else {
        0
    }
}

fn orbit_cos_exec(r: u64) -> (c: i64)
    ensures
        c == orbit_cos(r as int),
{
    if r == 0 {
        150
    } else if r == 1 {
        139
    } else if r == 2 {
        106
    } else if r == 3 {
        57
    } else {
        0
    }
}

/// Offset (pixels) from the portal's centre of orbit position `k` (of sixteen).
pub open spec fn orbit_offset(k: int) -> (int, int) {
    let q = k / 4;
    let r = k % 4;
    let c = orbit_cos(r);
    let s = orbit_cos(4 - r);
    if q == 0 {
        (c, s)
    } else if q == 1 {
        (-s, c)
    } else if q == 2 {
        (-c, -s)
    } else {
        (s, -c)
    }
}

/// Orbit position of ball `i` at frame `frame`: one step every four frames, the
/// balls spread a third of a turn apart.
pub open spec fn orbit_slot(frame: u64, i: int) -> int {
    (frame / 4 + (if i % 3 == 0 { 0int } else if i % 3 == 1 { 5int } else { 11int })) % 16
}

/// Places a ball on the portal's orbit.
pub fn place_on_orbit(ball: &mut Ball, frame: u64, i: usize)
    requires
        old(ball).wf(),
    ensures
        final(ball).wf(),
        final(ball).in_field(),
        final(ball).x == (PORTAL_X + orbit_offset(orbit_slot(frame, i as int)).0 - BALL_SIZE / 2)
            * SUBPIXELS,
        final(ball).y == (PORTAL_Y + orbit_offset(orbit_slot(frame, i as int)).1 - BALL_SIZE / 2)
            * SUBPIXELS,
        final(ball).motion() == (Motion {
            x: final(ball).x as int,
            y: final(ball).y as int,
            ..old(ball).motion()
        }),
        final(ball).trail_positions == old(ball).trail_positions,
{
    let phase: u64 = if i % 3 == 0 { 0 } else if i % 3 == 1 { 5 } else { 11 };
    let k = (frame / 4 + phase) % 16;
    let q = k / 4;
    let r = k % 4;
    let c = orbit_cos_exec(r);
    let s = orbit_cos_exec(4 - r);
    let (dx, dy) = if q == 0 {
        (c, s)
    } else if q == 1 {
        (-s, c)
    } else if q == 2 {
        (-c, -s)
    } else {
        (s, -c)
    };
    let half = (BALL_SIZE / 2) as i64;
    ball.x = (PORTAL_X + dx - half) * SUBPIXELS;
    ball.y = (PORTAL_Y + dy - half) * SUBPIXELS;
}

/// Pixels a block moves toward the portal per tick.
pub const PULL_SPEED: i64 = 8;

/// The block after the portal pulled it for one tick: it moves toward the portal's
/// centre, and is consumed once its centre is within 5 pixels of it.
pub open spec fn pulled(b: Block) -> Block {
    let dx = PORTAL_X - center_x(b);
    let dy = PORTAL_Y - center_y(b);
    if !b.active {
        b
    } else if dx * dx + dy * dy > 25 {
        let dist = isqrt_spec((dx * dx + dy * dy) as nat) as int;
        Block {
            x: (b.x + scale(dx, PULL_SPEED as int, dist)) as i32,
            y: (b.y + scale(dy, PULL_SPEED as int, dist)) as i32,
            ..b
        }
    } else {
        Block { active: false, ..b }
    }
}

proof fn lemma_pull_step(d: int, dist: int)
    requires
        dist >= 5,
        d * d <= dist * dist,
    ensures
        abs_i(scale(d, PULL_SPEED as int, dist)) <= PULL_SPEED,
        d >= 0 ==> scale(d, PULL_SPEED as int, dist) >= 0,
        d <= 0 ==> scale(d, PULL_SPEED as int, dist) <= 0,
{
    let a = abs_i(d);
    assert(a * a == d * d) by (nonlinear_arith)
        requires a == abs_i(d);
    assert(a <= dist) by (nonlinear_arith)
        requires a * a <= dist * dist, a >= 0, dist >= 0;
    assert(a * PULL_SPEED / dist <= PULL_SPEED) by (nonlinear_arith)
        requires 0 <= a <= dist, dist > 0, PULL_SPEED == 8;
    assert(a * PULL_SPEED / dist >= 0) by (nonlinear_arith)
        requires a >= 0, dist > 0, PULL_SPEED == 8;
}

/// Pulls the block one tick toward the portal.
pub fn pull_block(b: &mut Block)
    requires
        placed(*old(b)),
    ensures
        placed(*final(b)),
        *final(b) == pulled(*old(b)),
{
    if !b.active {
        return;
    }
    let (bx, by) = block_center(b);
    let dx = PORTAL_X - bx;
    let dy = PORTAL_Y - by;
    assert(0 <= dx * dx <= 4_000_000_000_000 && 0 <= dy * dy <= 4_000_000_000_000)
        by (nonlinear_arith)
        requires -2_000_000 <= dx <= 2_000_000, -2_000_000 <= dy <= 2_000_000;
    let d2 = dx * dx + dy * dy;
    if d2 > 25 {
        let dist = isqrt(d2 as u64);
        assert(dist >= 5) by (nonlinear_arith)
            requires d2 < (dist + 1) * (dist + 1), d2 > 25;
        assert(dist <= 4_000_000) by (nonlinear_arith)
            requires dist * dist <= d2, d2 <= 8_000_000_000_000;
        proof {
            lemma_component_below_root(dx as int, dy as int, dist as int);
            lemma_component_below_root(dy as int, dx as int, dist as int);
            lemma_pull_step(dx as int, dist as int);
            lemma_pull_step(dy as int, dist as int);
        }
        let sx = scale_exec(dx, PULL_SPEED, dist as i64);
        let sy = scale_exec(dy, PULL_SPEED, dist as i64);
        b.x = (b.x as i64 + sx) as i32;
        b.y = (b.y as i64 + sy) as i32;
    } else {
        b.active = false;
    }
}

/// Whether the ball's rectangle `r` touches block `b`, which must be active.
pub open spec fn touches(b: Block, r: Rect) -> bool {
    b.active && overlaps(r, b.rect_spec())
}

/// Index of the first block among the first `n` that the ball touches, or -1.
pub open spec fn strike_index(blocks: Seq<Block>, r: Rect, n: nat) -> int
    decreases n,
{
    if n == 0 {
        -1
    } else {
        let p = strike_index(blocks, r, (n - 1) as nat);
        if p >= 0 {
            p
        } else if touches(blocks[n - 1], r) {
            n - 1
        } else {
            -1
        }
    }
}

/// Whether the ball strikes block `k` this tick: in ghost mode every block it
/// touches; otherwise only the first one.
pub open spec fn struck(blocks: Seq<Block>, r: Rect, ghost: bool, k: int) -> bool {
    if ghost {
        touches(blocks[k], r)
    } else {
        k == strike_index(blocks, r, blocks.len())
    }
}

/// The blocks after the ball's strikes: each struck block takes one hit.
pub open spec fn strikes(blocks: Seq<Block>, r: Rect, ghost: bool) -> Seq<Block> {
    Seq::new(
        blocks.len(),
        |k: int|
            if struck(blocks, r, ghost, k) {
                hit_result(blocks[k])
            } else {
                blocks[k]
            },
    )
}

/// The struck blocks among the first `n` that break, as they were before the hit.
pub open spec fn broken_upto(blocks: Seq<Block>, r: Rect, ghost: bool, n: nat) -> Seq<Block>
    decreases n,
{
    if n == 0 {
        seq![]
    } else {
        let prev = broken_upto(blocks, r, ghost, (n - 1) as nat);
        if struck(blocks, r, ghost, n - 1) && breaks(blocks[n - 1]) {
            prev.push(blocks[n - 1])
        } else {
            prev
        }
    }
}

/// The cue of a struck block: breaking glass for an Ice block that survives the
/// hit, a bounce otherwise.
pub open spec fn hit_cue(b: Block) -> SoundEffect {
    if !breaks(b) && b.block_type == BlockType::Ice {
        SoundEffect::BreakingGlass
    } else {
        SoundEffect::Bounce
    }
}

/// The cues of the strikes on the first `n` blocks, in order.
pub open spec fn hit_cues(blocks: Seq<Block>, r: Rect, ghost: bool, n: nat) -> Seq<SoundEffect>
    decreases n,
{
    if n == 0 {
        seq![]
    } else {
        let prev = hit_cues(blocks, r, ghost, (n - 1) as nat);
        if struck(blocks, r, ghost, n - 1) {
            prev.push(hit_cue(blocks[n - 1]))
        } else {
            prev
        }
    }
}

proof fn lemma_cues_unchanged(blocks: Seq<Block>, r: Rect, ghost: bool, m: nat, n: nat)
    requires
        m <= n <= blocks.len(),
        forall|j: int| m <= j < n ==> !struck(blocks, r, ghost, j),
    ensures
        hit_cues(blocks, r, ghost, n) == hit_cues(blocks, r, ghost, m),
    decreases n - m,
{
    if m < n {
        lemma_cues_unchanged(blocks, r, ghost, m, (n - 1) as nat);
    }
}

pub proof fn lemma_strike_index_stays(blocks: Seq<Block>, r: Rect, k: nat, n: nat)
    requires
        k <= n <= blocks.len(),
        strike_index(blocks, r, k) >= 0,
    ensures
        strike_index(blocks, r, n) == strike_index(blocks, r, k),
    decreases n - k,
{
    if k < n {
        lemma_strike_index_stays(blocks, r, k, (n - 1) as nat);
    }
}

pub proof fn lemma_strike_index_range(blocks: Seq<Block>, r: Rect, n: nat)
    ensures
        -1 <= strike_index(blocks, r, n) < n,
        strike_index(blocks, r, n) >= 0 ==> touches(blocks[strike_index(blocks, r, n)], r),
    decreases n,
{
    if n > 0 {
        lemma_strike_index_range(blocks, r, (n - 1) as nat);
    }
}

proof fn lemma_broken_unchanged(blocks: Seq<Block>, r: Rect, ghost: bool, m: nat, n: nat)
    requires
        m <= n <= blocks.len(),
        forall|j: int| m <= j < n ==> !struck(blocks, r, ghost, j),
    ensures
        broken_upto(blocks, r, ghost, n) == broken_upto(blocks, r, ghost, m),
    decreases n - m,
{
    if m < n {
        lemma_broken_unchanged(blocks, r, ghost, m, (n - 1) as nat);
    }
}

/// Resolves an active ball in the field against the blocks: struck blocks take a
/// hit (see `struck`); outside ghost mode the ball bounces off the first block it
/// touches (see `bounced`), in ghost mode it passes through unchanged. Returns the
/// struck blocks that broke, as they were before the hit.
pub fn strike_blocks(
    blocks: &mut Vec<Block>,
    ball: &mut Ball,
    ghost: bool,
    sounds: &mut Vec<SoundEffect>,
) -> (broken: Vec<Block>)
    requires
        old(ball).wf(),
        old(ball).active,
        old(ball).in_field(),
    ensures
        final(blocks)@ == strikes(old(blocks)@, old(ball).rect_spec(), ghost),
        broken@ == broken_upto(
            old(blocks)@,
            old(ball).rect_spec(),
            ghost,
            old(blocks)@.len(),
        ),
        final(ball).wf(),
        near_field(*final(ball)),
        ghost ==> *final(ball) == *old(ball),
        !ghost ==> *final(ball) == {
            let k = strike_index(old(blocks)@, old(ball).rect_spec(), old(blocks)@.len());
            if k >= 0 {
                bounced(
                    *old(ball),
                    old(blocks)@[k],
                    overlap_rect(old(ball).rect_spec(), old(blocks)@[k].rect_spec()),
                )
            } else {
                *old(ball)
            }
        },
        final(sounds)@ == old(sounds)@ + hit_cues(
            old(blocks)@,
            old(ball).rect_spec(),
            ghost,
            old(blocks)@.len(),
        ),
{
    let ghost start = blocks@;
    let ghost b0 = *ball;
    let r = ball.rect();
    let n = blocks.len();
    let mut broken: Vec<Block> = Vec::new();
    let mut k: usize = 0;
    while k < n
        invariant
            n == blocks.len(),
            n == start.len(),
            start == old(blocks)@,
            b0 == *old(ball),
            k <= n,
            r == b0.rect_spec(),
            b0.wf(),
            b0.active,
            b0.in_field(),
            *ball == b0,
            !ghost ==> blocks@ == start,
            !ghost ==> strike_index(start, r, k as nat) == -1,
            !ghost ==> broken@ == Seq::<Block>::empty(),
            ghost ==> forall|j: int|
                0 <= j < k ==> #[trigger] blocks@[j] == strikes(start, r, ghost)[j],
            ghost ==> forall|j: int| k <= j < n ==> #[trigger] blocks@[j] == start[j],
            ghost ==> broken@ == broken_upto(start, r, ghost, k as nat),
            !ghost ==> sounds@ == old(sounds)@,
            ghost ==> sounds@ == old(sounds)@ + hit_cues(start, r, ghost, k as nat),
        decreases n - k,
    {
        let block = blocks[k];
        if block.active {
            let br = block.rect();
            match intersection(r, br) {
                Some(o) => {
                    let destroyed = hit_block(&mut blocks[k]);
                    let ghost before_cues = sounds@;
                    if destroyed {
                        broken.push(block);
                        sounds.push(SoundEffect::Bounce);
                    } else if matches!(block.block_type, BlockType::Ice) {
                        sounds.push(SoundEffect::BreakingGlass);
                    } else {
                        sounds.push(SoundEffect::Bounce);
                    }
                    if !ghost {
                        bounce_off_block(ball, &block, o);
                        proof {
                            assert(strike_index(start, r, (k + 1) as nat) == k);
                            lemma_strike_index_stays(start, r, (k + 1) as nat, n as nat);
                            assert forall|j: int| 0 <= j < n implies #[trigger] blocks@[j]
                                == strikes(start, r, ghost)[j] by {}
                            assert(blocks@ =~= strikes(start, r, ghost));
                            assert(broken_upto(start, r, ghost, k as nat) == Seq::<Block>::empty()) by {
                                lemma_broken_unchanged(start, r, ghost, 0, k as nat);
                            }
                            lemma_broken_unchanged(start, r, ghost, (k + 1) as nat, n as nat);
                            lemma_cues_unchanged(start, r, ghost, 0, k as nat);
                            lemma_cues_unchanged(start, r, ghost, (k + 1) as nat, n as nat);
                            assert(sounds@ =~= old(sounds)@ + hit_cues(start, r, ghost, n as nat));
                        }
                        return broken;
                    }
                },
                None => {},
            }
        }
        proof {
            if ghost {
                assert(broken@ == broken_upto(start, r, ghost, (k + 1) as nat));
                assert(sounds@ =~= old(sounds)@ + hit_cues(start, r, ghost, (k + 1) as nat));
            }
        }
        k += 1;
    }
    proof {
        if !ghost {
            lemma_broken_unchanged(start, r, ghost, 0, n as nat);
            lemma_cues_unchanged(start, r, ghost, 0, n as nat);
            assert(sounds@ =~= old(sounds)@ + hit_cues(start, r, ghost, n as nat));
            assert(blocks@ =~= strikes(start, r, ghost));
        } else {
            assert(blocks@ =~= strikes(start, r, ghost));
        }
    }
    broken
}

/// A block after the blasts of the Explosive blocks among `broken`, in order.
pub open spec fn blast_all(b: Block, broken: Seq<Block>) -> Block
    decreases broken.len(),
{
    if broken.len() == 0 {
        b
    } else {
        let prev = blast_all(b, broken.drop_last());
        let e = broken.last();
        if e.block_type == BlockType::Explosive {
            blasted(prev, center_x(e), center_y(e), BLOCK_BLAST_RADIUS_SQ as int)
        } else {
            prev
        }
    }
}

/// Whether every block inactive in `a` is inactive in `b`.
pub open spec fn only_deactivates(a: Seq<Block>, b: Seq<Block>) -> bool {
    a.len() == b.len() && forall|k: int| 0 <= k < a.len() && !(#[trigger] a[k]).active ==> !b[k].active
}

pub proof fn lemma_count_broken_chain(a: Seq<Block>, b: Seq<Block>, c: Seq<Block>)
    requires
        only_deactivates(a, b),
        only_deactivates(b, c),
    ensures
        count_broken(a, c) == count_broken(a, b) + count_broken(b, c),
    decreases a.len(),
{
    if a.len() > 0 {
        let (a1, b1, c1) = (a.drop_last(), b.drop_last(), c.drop_last());
        assert forall|k: int| 0 <= k < a1.len() && !(#[trigger] a1[k]).active implies !b1[k].active by {
            assert(a1[k] == a[k]);
        }
        assert forall|k: int| 0 <= k < b1.len() && !(#[trigger] b1[k]).active implies !c1[k].active by {
            assert(b1[k] == b[k]);
        }
        lemma_count_broken_chain(a1, b1, c1);
        assert(!a.last().active ==> !b.last().active);
        assert(!b.last().active ==> !c.last().active);
    }
}

proof fn lemma_strikes_count_prefix(blocks: Seq<Block>, r: Rect, ghost: bool, n: nat)
    requires
        n <= blocks.len(),
    ensures
        count_broken(blocks.subrange(0, n as int), strikes(blocks, r, ghost).subrange(0, n as int))
            == broken_upto(blocks, r, ghost, n).len(),
    decreases n,
{
    if n > 0 {
        let s = strikes(blocks, r, ghost);
        lemma_strikes_count_prefix(blocks, r, ghost, (n - 1) as nat);
        assert(blocks.subrange(0, n as int).drop_last() =~= blocks.subrange(0, n - 1));
        assert(s.subrange(0, n as int).drop_last() =~= s.subrange(0, n - 1));
        let x = blocks[n - 1];
        assert(blocks.subrange(0, n as int).last() == x);
        assert(s.subrange(0, n as int).last() == s[n - 1]);
        lemma_strike_index_range(blocks, r, blocks.len());
        if struck(blocks, r, ghost, n - 1) {
            assert(touches(x, r));
            assert(s[n - 1] == hit_result(x));
        } else {
            assert(s[n - 1] == x);
        }
    }
}

/// The ball's strikes destroy exactly the struck blocks that break.
pub proof fn lemma_strikes_count(blocks: Seq<Block>, r: Rect, ghost: bool)
    ensures
        count_broken(blocks, strikes(blocks, r, ghost)) == broken_upto(
            blocks,
            r,
            ghost,
            blocks.len(),
        ).len(),
        only_deactivates(blocks, strikes(blocks, r, ghost)),
{
    lemma_strikes_count_prefix(blocks, r, ghost, blocks.len());
    assert(blocks.subrange(0, blocks.len() as int) =~= blocks);
    let s = strikes(blocks, r, ghost);
    assert(s.subrange(0, blocks.len() as int) =~= s);
}

/// The broken blocks are blocks of the layout, so they sit where it placed them.
pub proof fn lemma_broken_placed(blocks: Seq<Block>, r: Rect, ghost: bool, n: nat)
    requires
        n <= blocks.len(),
        forall|j: int| 0 <= j < blocks.len() ==> placed(#[trigger] blocks[j]),
    ensures
        forall|k: int|
            0 <= k < broken_upto(blocks, r, ghost, n).len() ==> placed(
                #[trigger] broken_upto(blocks, r, ghost, n)[k],
            ),
    decreases n,
{
    if n > 0 {
        lemma_broken_placed(blocks, r, ghost, (n - 1) as nat);
        let prev = broken_upto(blocks, r, ghost, (n - 1) as nat);
        let cur = broken_upto(blocks, r, ghost, n);
        assert forall|k: int| 0 <= k < cur.len() implies placed(#[trigger] cur[k]) by {
            if k < prev.len() {
                assert(cur[k] == prev[k]);
            } else {
                assert(placed(blocks[n - 1]));
            }
        }
    }
}

/// What a hit does to an active block, by kind: an Indestructible block is
/// unchanged; a Normal or Explosive block is deactivated with its health kept; an
/// Ice block with health to spare loses one point and stays; an Ice block on its
/// last point loses it and is deactivated.
pub proof fn lemma_hit_outcome(b: Block)
    requires
        b.active,
    ensures
        b.block_type == BlockType::Undestroyable ==> hit_result(b) == b,
        b.block_type == BlockType::Normal || b.block_type == BlockType::Explosive ==> !hit_result(
            b,
        ).active && hit_result(b).health == b.health,
        b.block_type == BlockType::Ice && b.health >= 2 ==> hit_result(b).active && hit_result(
            b,
        ).health == b.health - 1,
        b.block_type == BlockType::Ice && b.health == 1 ==> !hit_result(b).active && hit_result(
            b,
        ).health == 0,
        hit_result(b).x == b.x && hit_result(b).y == b.y && hit_result(b).block_type
            == b.block_type,
{
}

/// For a breakable block that is not on its last point of health, a hit does
/// exactly one of two things: it deactivates the block, or it takes a point of
/// health off it.
pub proof fn lemma_hit_does_one_thing(b: Block)
    requires
        b.active,
        b.block_type != BlockType::Undestroyable,
        !(b.block_type == BlockType::Ice && b.health <= 1),
    ensures
        (!hit_result(b).active) != (hit_result(b).health == b.health - 1),
{
}

/// A bounce reverses the velocity along exactly the axis the overlap points to:
/// a narrower-than-tall overlap is a side hit (horizontal velocity reversed,
/// vertical kept), any other a top or bottom hit (vertical reversed, horizontal kept).
pub proof fn lemma_bounce_axis(b: Ball, block: Block, o: Rect)
    requires
        b.wf(),
    ensures
        o.w < o.h ==> bounced(b, block, o).vel_x == -b.vel_x && bounced(b, block, o).vel_y
            == b.vel_y && bounced(b, block, o).y == b.y,
        o.w >= o.h ==> bounced(b, block, o).vel_y == -b.vel_y && bounced(b, block, o).vel_x
            == b.vel_x && bounced(b, block, o).x == b.x,
{
}

/// In ghost mode every active block the ball touches takes its own hit, however
/// many there are, and blocks it does not touch are left alone.
pub proof fn lemma_ghost_hits_every_touched_block(blocks: Seq<Block>, r: Rect)
    ensures
        strikes(blocks, r, true).len() == blocks.len(),
        forall|k: int|
            0 <= k < blocks.len() ==> #[trigger] strikes(blocks, r, true)[k] == if touches(
                blocks[k],
                r,
            ) {
                hit_result(blocks[k])
            } else {
                blocks[k]
            },
{
}

/// Outside ghost mode at most one block is struck: the first one the ball touches.
pub proof fn lemma_single_strike(blocks: Seq<Block>, r: Rect, k: int, j: int)
    requires
        0 <= k < blocks.len(),
        0 <= j < blocks.len(),
        struck(blocks, r, false, k),
        struck(blocks, r, false, j),
    ensures
        k == j,
        touches(blocks[k], r),
{
    lemma_strike_index_range(blocks, r, blocks.len());
}

} // verus!
