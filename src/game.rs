use crate::chance::random_below;
use crate::entities::{
    abs_i, ball_updated, bonus_step, launched, paddle_step, penguin_step, placed, rocket_step, scale_exec, Ball, Block, BlockType, Bonus, BonusType, Color, Motion, Paddle, Particle,
    Penguin, PenguinState, Rocket, BALL_SIZE, PENGUIN_START_X, PENGUIN_START_Y, BLOCK_WIDTH, FULL_INTENSITY, GHOST_BONUS_TICKS,
    LAUNCH_DELAY, LONG_BONUS_TICKS, SUBPIXELS, VELOCITY_LIMIT, WINDOW_WIDTH,
};
use crate::geometry::{check_collision, overlap_rect, overlaps};
use crate::levels::{create_blocks, level_blocks};
use crate::physics::{
    balls_touch, balls_touch_exec, blast_all, blasted, center_x, center_y, lemma_strike_index_range,
    lemma_strike_index_stays, touches, EJECT_SPEED, SEPARATION_SPEED, block_center, bonus_kind_for, bounce_off_paddle, bounced,
    broken_upto, count_broken, drop_passes, eject, explode_at, lemma_broken_placed,
    lemma_count_broken_chain, lemma_count_broken_same, lemma_strikes_count, near_field,
    only_deactivates, orbit_offset, orbit_slot, paddle_bounced, place_on_orbit, pull_block, pulled, score_after_life_loss,
    hit_cues, strike_blocks, strike_index, strikes, BLOCK_BLAST_RADIUS_SQ, BLOCK_SCORE, LIFE_PENALTY,
    PORTAL_X, PORTAL_Y, ROCKET_BLAST_RADIUS_SQ, DROP_COOLDOWN,
};
use vstd::prelude::*;

verus! {

#[derive(Clone, Copy, Debug, PartialEq, Eq, Structural)]
pub enum GameState {
    SplashScreen,
    Playing,
    Paused,
    GameOver,
    Victory,
    LevelTransition,
    LevelEditor,
}

/// Sound cues handed to the audio boundary after a tick.
#[derive(Clone, Copy, Debug, PartialEq, Eq, Structural)]
pub enum SoundEffect {
    Bounce,
    Oh,
    Load,
    BreakingGlass,
    Explosion,
}

pub const MAX_LIVES: u32 = 3;
/// The level whose completion wins the game.
pub const FINAL_LEVEL: usize = 9;

/// The session: everything one game owns.
pub struct Game {
    pub state: GameState,
    pub paddle: Paddle,
    pub balls: Vec<Ball>,
    pub blocks: Vec<Block>,
    pub bonuses: Vec<Bonus>,
    pub rockets: Vec<Rocket>,
    pub particles: Vec<Particle>,
    /// The penguin carrying off the last lost heart, while it is on screen.
    pub penguin: Option<Penguin>,
    /// Where the heart being stolen is drawn until the penguin grabs it (sub-pixels).
    pub stolen_heart_position: Option<(i64, i64)>,
    pub score: u32,
    pub lives: u32,
    pub current_level: usize,
    pub frame_count: u64,
    /// Ticks since the last power-up was dropped.
    pub bonus_cooldown: u64,
    pub lost_life_this_level: bool,
    /// Highest squared ball speed seen this level, in (sub-pixels per tick) squared.
    pub max_speed_sq: i64,
    pub max_speed_record_frame: u64,
    pub portal_active: bool,
    /// Ticks since the portal consumed the last block.
    pub portal_completion_timer: u64,
    pub gravity_mode: bool,
    pub is_test_mode: bool,
}

/// Where a fresh ball rests on the paddle: centred on it, touching its top.
pub open spec fn rest_x(p: Paddle) -> int {
    (p.x + p.width / 2 - BALL_SIZE / 2) * SUBPIXELS
}

pub open spec fn rest_y(p: Paddle) -> int {
    (p.y - BALL_SIZE) * SUBPIXELS
}

/// Whether `b` is a fresh ball resting on paddle `p`.
pub open spec fn rests_on(b: Ball, p: Paddle) -> bool {
    &&& b.x == rest_x(p)
    &&& b.y == rest_y(p)
    &&& b.vel_x == 0
    &&& b.vel_y == 0
    &&& b.spin == 0
    &&& b.active
    &&& b.attached_to_paddle
    &&& b.launch_timer == crate::entities::LAUNCH_DELAY
    &&& b.trail_positions@.len() == 0
}

/// A new ball resting on the paddle.
fn ball_on_paddle(p: &Paddle) -> (b: Ball)
    requires
        p.wf(),
    ensures
        b.wf(),
        rests_on(b, *p),
        b.in_field(),
{
    let x = (p.x + p.width / 2 - BALL_SIZE / 2) as i64 * SUBPIXELS;
    let y = (p.y - BALL_SIZE) as i64 * SUBPIXELS;
    Ball::new(x, y)
}

/// A session as it starts at `level`: at the splash screen, a fresh paddle with one
/// ball resting on it, the level's blocks, full lives, no score, and nothing else.
pub open spec fn fresh_session(g: Game, level: usize) -> bool {
    &&& g.state == GameState::SplashScreen
    &&& g.paddle == Paddle::new_spec()
    &&& g.balls.len() == 1
    &&& rests_on(g.balls[0], g.paddle)
    &&& g.blocks@ == level_blocks(level)
    &&& g.bonuses.len() == 0
    &&& g.rockets.len() == 0
    &&& g.particles.len() == 0
    &&& g.penguin.is_none()
    &&& g.stolen_heart_position.is_none()
    &&& g.score == 0
    &&& g.lives == MAX_LIVES
    &&& g.current_level == level
    &&& g.frame_count == 0
    &&& g.bonus_cooldown == 0
    &&& !g.lost_life_this_level
    &&& g.max_speed_sq == 0
    &&& g.max_speed_record_frame == 0
    &&& !g.portal_active
    &&& g.portal_completion_timer == 0
    &&& !g.gravity_mode
    &&& !g.is_test_mode
}

/// The session after its level is complete: one life is refunded if one was lost
/// on it (never above `MAX_LIVES`), and it holds on the transition screen, or on
/// victory after the final level.
pub open spec fn after_level(g: Game) -> Game {
    Game {
        lives: if g.lost_life_this_level && g.lives < MAX_LIVES { (g.lives + 1) as u32 } else { g.lives },
        state: if g.current_level == FINAL_LEVEL { GameState::Victory } else { GameState::LevelTransition },
        ..g
    }
}

impl Game {
    pub open spec fn wf(&self) -> bool {
        &&& self.paddle.wf()
        &&& forall|i: int| 0 <= i < self.balls.len() ==> (#[trigger] self.balls[i]).wf()
        &&& self.lives <= MAX_LIVES
        &&& self.penguin matches Some(p) ==> p.wf()
        &&& self.max_speed_sq >= 0
        &&& forall|i: int| 0 <= i < self.blocks.len() ==> placed(#[trigger] self.blocks[i])
    }

    /// A session at the splash screen, about to play level 1.
    pub fn new() -> (g: Game)
        ensures
            g.wf(),
            fresh_session(g, 1),
    {
        Game::new_level(1)
    }

    /// A session at the splash screen, about to play `level`: a fresh paddle with
    /// one ball resting on it, the level's blocks, full lives and no score.
    pub fn new_level(level: usize) -> (g: Game)
        ensures
            g.wf(),
            fresh_session(g, level),
    {
        let paddle = Paddle::new();
        let ball = ball_on_paddle(&paddle);
        let mut balls = Vec::new();
        balls.push(ball);
        Game {
            state: GameState::SplashScreen,
            paddle,
            balls,
            blocks: create_blocks(level),
            bonuses: Vec::new(),
            rockets: Vec::new(),
            particles: Vec::new(),
            penguin: None,
            stolen_heart_position: None,
            score: 0,
            lives: MAX_LIVES,
            current_level: level,
            frame_count: 0,
            bonus_cooldown: 0,
            lost_life_this_level: false,
            max_speed_sq: 0,
            max_speed_record_frame: 0,
            portal_active: false,
            portal_completion_timer: 0,
            gravity_mode: false,
            is_test_mode: false,
        }
    }

    /// Starts the whole session over at level 1.
    pub fn reset(&mut self)
        ensures
            final(self).wf(),
            fresh_session(*final(self), 1),
    {
        *self = Game::new();
    }

    /// The level is complete: refund one life if one was lost on it (never above
    /// `MAX_LIVES`), then hold on the transition screen, or on victory after the
    /// final level.
    pub fn next_level(&mut self)
        requires
            old(self).wf(),
        ensures
            final(self).wf(),
            *final(self) == after_level(*old(self)),
    {
        if self.lost_life_this_level && self.lives < MAX_LIVES {
            self.lives += 1;
        }
        if self.current_level == FINAL_LEVEL {
            self.state = GameState::Victory;
        } else {
            self.state = GameState::LevelTransition;
        }
    }

    /// Moves on to the next level: a fresh paddle with one ball resting on it, the
    /// level's blocks, nothing else in play, and the per-level flags and timers reset.
    pub fn start_next_level(&mut self)
        requires
            old(self).wf(),
            old(self).current_level < usize::MAX,
        ensures
            final(self).wf(),
            final(self).current_level == old(self).current_level + 1,
            final(self).state == GameState::Playing,
            final(self).paddle == Paddle::new_spec(),
            final(self).balls.len() == 1,
            rests_on(final(self).balls[0], final(self).paddle),
            final(self).blocks@ == level_blocks(final(self).current_level),
            final(self).bonuses.len() == 0,
            final(self).rockets.len() == 0,
            final(self).particles.len() == 0,
            final(self).penguin.is_none(),
            final(self).stolen_heart_position.is_none(),
            !final(self).lost_life_this_level,
            !final(self).portal_active,
            final(self).portal_completion_timer == 0,
            final(self).max_speed_sq == 0,
            final(self).score == old(self).score,
            final(self).lives == old(self).lives,
            final(self).gravity_mode == old(self).gravity_mode,
    {
        self.current_level = self.current_level + 1;
        self.paddle = Paddle::new();
        let ball = ball_on_paddle(&self.paddle);
        let mut balls = Vec::new();
        balls.push(ball);
        self.balls = balls;
        self.blocks = create_blocks(self.current_level);
        self.bonuses = Vec::new();
        self.particles = Vec::new();
        self.rockets = Vec::new();
        self.penguin = None;
        self.stolen_heart_position = None;
        self.state = GameState::Playing;
        self.lost_life_this_level = false;
        self.portal_active = false;
        self.portal_completion_timer = 0;
        self.max_speed_sq = 0;
    }

    /// Flips between playing and paused; every other state stays as it is.
    pub fn toggle_pause(&mut self)
        ensures
            *final(self) == (Game {
                state: match old(self).state {
                    GameState::Playing => GameState::Paused,
                    GameState::Paused => GameState::Playing,
                    s => s,
                },
                ..*old(self)
            }),
    {
        self.state = match self.state {
            GameState::Playing => GameState::Paused,
            GameState::Paused => GameState::Playing,
            GameState::GameOver => GameState::GameOver,
            GameState::Victory => GameState::Victory,
            GameState::LevelTransition => GameState::LevelTransition,
            GameState::SplashScreen => GameState::SplashScreen,
            GameState::LevelEditor => GameState::LevelEditor,
        };
    }

    pub fn toggle_gravity_mode(&mut self)
        ensures
            *final(self) == (Game { gravity_mode: !old(self).gravity_mode, ..*old(self) }),
    {
        self.gravity_mode = !self.gravity_mode;
    }
}

/// Speed (pixels per second) at which the portal opens.
pub const PORTAL_SPEED: i64 = 3600;
/// Points for opening the portal.
pub const PORTAL_BONUS: u32 = 5000;

/// Whether a squared speed (sub-pixels per tick, squared) reaches the portal speed.
pub open spec fn opens_portal(s: int) -> bool {
    9 * s >= 25 * (PORTAL_SPEED * PORTAL_SPEED)
}

/// The speed record and portal flag after observing squared speed `s`: a new record
/// replaces the old one, and a new record at portal speed opens the portal.
pub open spec fn speed_step(max: int, portal: bool, s: int) -> (int, bool) {
    if s > max {
        (s, portal || opens_portal(s))
    } else {
        (max, portal)
    }
}

/// Whether observing `s` is what opens the portal.
pub open spec fn activates(max: int, portal: bool, s: int) -> bool {
    !portal && s > max && opens_portal(s)
}

/// How many times the portal opens over a run of observed speeds.
pub open spec fn activation_count(max: int, portal: bool, speeds: Seq<int>) -> nat
    decreases speeds.len(),
{
    if speeds.len() == 0 {
        0
    } else {
        let next = speed_step(max, portal, speeds[0]);
        (if activates(max, portal, speeds[0]) { 1nat } else { 0nat }) + activation_count(
            next.0,
            next.1,
            speeds.drop_first(),
        )
    }
}

/// The portal opens at most once per level: over any run of speeds observed after
/// the level started, it opens at most once, and never again once it is open,
/// however often the record crosses the portal speed afterwards.
pub proof fn lemma_portal_opens_once(max: int, portal: bool, speeds: Seq<int>)
    ensures
        activation_count(max, portal, speeds) <= 1,
        portal ==> activation_count(max, portal, speeds) == 0,
    decreases speeds.len(),
{
    if speeds.len() > 0 {
        let next = speed_step(max, portal, speeds[0]);
        lemma_portal_opens_once(next.0, next.1, speeds.drop_first());
    }
}

/// Squared speed of a ball, in (sub-pixels per tick) squared.
pub open spec fn speed_sq(b: Ball) -> int {
    b.vel_x * b.vel_x + b.vel_y * b.vel_y
}

fn speed_sq_exec(b: &Ball) -> (s: i64)
    requires
        b.wf(),
    ensures
        s == speed_sq(*b),
        0 <= s <= 2 * VELOCITY_LIMIT * VELOCITY_LIMIT,
{
    assert(0 <= b.vel_x * b.vel_x <= VELOCITY_LIMIT * VELOCITY_LIMIT) by (nonlinear_arith)
        requires -VELOCITY_LIMIT <= b.vel_x <= VELOCITY_LIMIT;
    assert(0 <= b.vel_y * b.vel_y <= VELOCITY_LIMIT * VELOCITY_LIMIT) by (nonlinear_arith)
        requires -VELOCITY_LIMIT <= b.vel_y <= VELOCITY_LIMIT;
    b.vel_x * b.vel_x + b.vel_y * b.vel_y
}

/// The speed record and portal flag after the first `k` balls of a tick were
/// checked: a ball is checked only while the portal is closed.
pub open spec fn record_after(balls: Seq<Ball>, max: int, portal: bool, k: nat) -> (int, bool)
    decreases k,
{
    if k == 0 {
        (max, portal)
    } else {
        let prev = record_after(balls, max, portal, (k - 1) as nat);
        if prev.1 {
            prev
        } else {
            speed_step(prev.0, prev.1, speed_sq(balls[k - 1]))
        }
    }
}

proof fn lemma_record_prefix(a: Seq<Ball>, b: Seq<Ball>, max: int, portal: bool, k: nat)
    requires
        k <= a.len(),
        k <= b.len(),
        forall|j: int| 0 <= j < k ==> a[j] == b[j],
    ensures
        record_after(a, max, portal, k) == record_after(b, max, portal, k),
    decreases k,
{
    if k > 0 {
        lemma_record_prefix(a, b, max, portal, (k - 1) as nat);
    }
}

/// A ball resting on the paddle follows it before it moves.
pub open spec fn rested(b: Ball, p: Paddle) -> Ball {
    if b.attached_to_paddle {
        Ball { x: rest_x(p) as i64, y: rest_y(p) as i64, ..b }
    } else {
        b
    }
}

/// Ball `i` of a tick: it sits on its orbit slot while the portal is open, and
/// otherwise (after following the paddle, if it rests on it) takes one step.
pub open spec fn ball_advanced(
    b: Ball,
    n: Ball,
    p: Paddle,
    gravity: bool,
    orbit: bool,
    frame: u64,
    i: int,
) -> bool {
    if orbit {
        &&& n.x == (PORTAL_X + orbit_offset(orbit_slot(frame, i)).0 - BALL_SIZE / 2) * SUBPIXELS
        &&& n.y == (PORTAL_Y + orbit_offset(orbit_slot(frame, i)).1 - BALL_SIZE / 2) * SUBPIXELS
        &&& n.motion() == (Motion { x: n.x as int, y: n.y as int, ..b.motion() })
        &&& n.trail_positions == b.trail_positions
    } else {
        ball_updated(rested(b, p), n, gravity)
    }
}

/// Whether active ball `i` is closer than a ball's width to another active ball.
pub open spec fn touches_another(balls: Seq<Ball>, i: int) -> bool {
    exists|j: int|
        #![trigger balls[j]]
        0 <= j < balls.len() && j != i && balls[i].active && balls[j].active && (balls_touch(
            balls[i],
            balls[j],
        ) || balls_touch(balls[j], balls[i]))
}

/// A ball pushed apart from another: heading up at least at `EJECT_SPEED`, moving
/// sideways at `SEPARATION_SPEED`, everything else kept.
pub open spec fn pair_ejected(b: Ball, n: Ball) -> bool {
    &&& n == (Ball {
        vel_x: n.vel_x,
        vel_y: (-(if abs_i(b.vel_y as int) >= EJECT_SPEED {
            abs_i(b.vel_y as int)
        } else {
            EJECT_SPEED as int
        })) as i64,
        ..b
    })
    &&& (n.vel_x == SEPARATION_SPEED || n.vel_x == -SEPARATION_SPEED)
}

/// The ball-to-ball stage of a tick: while the portal is closed, a ball that
/// touches another is pushed apart (see `pair_ejected`); every other ball, and
/// everything but debris, stays as it is.
pub open spec fn pairs_resolved(g: Game, h: Game) -> bool {
    &&& h == (Game { balls: h.balls, particles: h.particles, ..g })
    &&& h.balls@.len() == g.balls@.len()
    &&& forall|j: int|
        0 <= j < g.balls@.len() ==> #[trigger] h.balls@[j] == g.balls@[j] || (!g.portal_active
            && touches_another(g.balls@, j) && pair_ejected(g.balls@[j], h.balls@[j]))
}

/// The balls stage of a tick: every ball advances (see `ball_advanced`), the speed
/// record and the portal latch follow `record_after`, and nothing else but debris
/// and the record's frame changes.
pub open spec fn balls_advanced(g: Game, h: Game) -> bool {
    let n = g.balls@.len();
    &&& h.balls@.len() == n
    &&& forall|j: int|
        0 <= j < n ==> ball_advanced(
            g.balls@[j],
            #[trigger] h.balls@[j],
            g.paddle,
            g.gravity_mode,
            record_after(h.balls@, g.max_speed_sq as int, g.portal_active, j as nat).1,
            g.frame_count,
            j,
        )
    &&& (h.max_speed_sq as int, h.portal_active) == record_after(
        h.balls@,
        g.max_speed_sq as int,
        g.portal_active,
        n,
    )
    &&& h == (Game {
        balls: h.balls,
        particles: h.particles,
        max_speed_sq: h.max_speed_sq,
        portal_active: h.portal_active,
        max_speed_record_frame: h.max_speed_record_frame,
        ..g
    })
}

impl Game {
    /// Adds `count` debris particles at (`cx`, `cy`) (sub-pixels), flying off in
    /// random directions at up to `spread` sub-pixels per tick along each axis.
    fn burst(&mut self, cx: i64, cy: i64, count: u32, spread: u32, color: Color)
        requires
            spread <= 10_000,
        ensures
            *final(self) == (Game { particles: final(self).particles, ..*old(self) }),
            final(self).particles@.len() == old(self).particles@.len() + count,
            forall|i: int|
                0 <= i < old(self).particles@.len() ==> #[trigger] final(self).particles@[i]
                    == old(self).particles@[i],
    {
        let mut k: u32 = 0;
        while k < count
            invariant
                k <= count,
                spread <= 10_000,
                *self == (Game { particles: self.particles, ..*old(self) }),
                self.particles@.len() == old(self).particles@.len() + k,
                forall|i: int|
                    0 <= i < old(self).particles@.len() ==> #[trigger] self.particles@[i]
                        == old(self).particles@[i],
            decreases count - k,
        {
            let vx = random_below(2 * spread + 1) as i64 - spread as i64;
            let vy = random_below(2 * spread + 1) as i64 - spread as i64;
            self.particles.push(Particle::new(cx, cy, vx, vy, color));
            k += 1;
        }
    }

    /// Compares a ball's squared speed with the level's record: a new record is
    /// kept (with the frame it was set), and one at portal speed opens the portal.
    /// Returns whether this observation opened the portal.
    pub fn observe_speed(&mut self, s: i64) -> (activated: bool)
        requires
            0 <= s <= 2 * VELOCITY_LIMIT * VELOCITY_LIMIT,
        ensures
            (final(self).max_speed_sq as int, final(self).portal_active) == speed_step(
                old(self).max_speed_sq as int,
                old(self).portal_active,
                s as int,
            ),
            activated == activates(old(self).max_speed_sq as int, old(self).portal_active, s as int),
            *final(self) == (Game {
                max_speed_sq: final(self).max_speed_sq,
                portal_active: final(self).portal_active,
                max_speed_record_frame: if s > old(self).max_speed_sq {
                    old(self).frame_count
                } else {
                    old(self).max_speed_record_frame
                },
                ..*old(self)
            }),
    {
        if s > self.max_speed_sq {
            self.max_speed_sq = s;
            self.max_speed_record_frame = self.frame_count;
            if 9 * s >= 25 * (PORTAL_SPEED * PORTAL_SPEED) && !self.portal_active {
                self.portal_active = true;
                return true;
            }
        }
        false
    }
}

/// `a + b`, saturating at the largest `u32`.
pub open spec fn sat_u32(v: int) -> u32 {
    if v > u32::MAX { u32::MAX } else { v as u32 }
}

/// The score after adding `count` blocks' worth of points.
fn add_block_points(score: u32, count: usize) -> (r: u32)
    ensures
        r == sat_u32(score + BLOCK_SCORE * count),
{
    if count > (u32::MAX / BLOCK_SCORE) as usize {
        u32::MAX
    } else {
        score.saturating_add(count as u32 * BLOCK_SCORE)
    }
}

/// One `Explosion` cue for each Explosive block among the first `n` of `broken`.
pub open spec fn blast_cues(broken: Seq<Block>, n: nat) -> Seq<SoundEffect>
    decreases n,
{
    if n == 0 {
        seq![]
    } else {
        let prev = blast_cues(broken, (n - 1) as nat);
        if broken[n - 1].block_type == BlockType::Explosive {
            prev.push(SoundEffect::Explosion)
        } else {
            prev
        }
    }
}

/// What a ball's block collisions do to the session (see
/// `Game::collide_ball_with_blocks`).
pub open spec fn block_hit_rel(g: Game, h: Game, i: int) -> bool {
    &&& (h.balls.len() == g.balls.len())
    &&& (forall|j: int|
                0 <= j < g.balls.len() && j != i ==> #[trigger] h.balls@[j]
                    == g.balls@[j])
    &&& (!g.balls[i].active ==> h.balls@[i] == g.balls@[i] && h.blocks@ == g.blocks@)
    &&& (g.balls[i].active ==> h.blocks@.len() == g.blocks@.len() && near_field(h.balls@[i]))
    &&& (g.balls[i].active ==> forall|k: int|
                0 <= k < g.blocks@.len() ==> #[trigger] h.blocks@[k]
                    == blast_all(
                    strikes(
                        g.blocks@,
                        g.balls[i].rect_spec(),
                        g.paddle.ghost_timer > 0,
                    )[k],
                    broken_upto(
                        g.blocks@,
                        g.balls[i].rect_spec(),
                        g.paddle.ghost_timer > 0,
                        g.blocks@.len(),
                    ),
                ))
    &&& (g.balls[i].active && g.paddle.ghost_timer > 0 ==> h.balls@[i] == g.balls@[i])
    &&& (g.balls[i].active && g.paddle.ghost_timer == 0 ==> h.balls@[i] == {
                let b = g.balls@[i];
                let k = strike_index(g.blocks@, b.rect_spec(), g.blocks@.len());
                if k >= 0 {
                    bounced(b, g.blocks@[k], overlap_rect(b.rect_spec(), g.blocks@[k].rect_spec()))
                } else {
                    b
                }
            })
    &&& (h.score == sat_u32(g.score + BLOCK_SCORE * count_broken(g.blocks@, h.blocks@)))
    &&& (h == (Game {
                balls: h.balls,
                blocks: h.blocks,
                score: h.score,
                bonuses: h.bonuses,
                bonus_cooldown: h.bonus_cooldown,
                particles: h.particles,
                ..g
            }))
    &&& (forall|j: int|
                0 <= j < g.bonuses@.len() ==> #[trigger] h.bonuses@[j]
                    == g.bonuses@[j])
    &&& (h.bonuses@.len() >= g.bonuses@.len())
    &&& (!g.balls[i].active ==> h == g)
    &&& (g.balls[i].active ==> dropped_at(
        g,
        h,
        broken_upto(g.blocks@, g.balls[i].rect_spec(), g.paddle.ghost_timer > 0, g.blocks@.len()),
    ))
}

/// The power-ups after a ball broke the blocks `broken`: at most one new power-up,
/// dropped only once the cooldown has passed (which restarts it), at one of the
/// broken blocks.
pub open spec fn dropped_at(g: Game, h: Game, broken: Seq<Block>) -> bool {
    &&& h.bonuses@.len() == g.bonuses@.len() ==> h.bonuses@ == g.bonuses@ && h.bonus_cooldown
        == g.bonus_cooldown
    &&& h.bonuses@.len() != g.bonuses@.len() ==> g.bonus_cooldown >= DROP_COOLDOWN
        && h.bonus_cooldown == 0 && exists|k: int|
        0 <= k < broken.len() && h.bonuses@ == g.bonuses@.push(
            Bonus {
                x: (#[trigger] broken[k].x + BLOCK_WIDTH / 2) as i32,
                y: broken[k].y,
                bonus_type: h.bonuses@.last().bonus_type,
                active: true,
            },
        )
}

/// What a ball's paddle collision does to the session (see
/// `Game::collide_ball_with_paddle`).
pub open spec fn paddle_hit_rel(g: Game, h: Game, i: int) -> bool {
    let hit = g.balls@[i].active && overlaps(g.balls@[i].rect_spec(), g.paddle.rect_spec());
    &&& h.balls.len() == g.balls.len()
    &&& forall|j: int| 0 <= j < g.balls.len() && j != i ==> #[trigger] h.balls@[j] == g.balls@[j]
    &&& h.balls@[i].active ==> h.balls@[i].in_field()
    &&& h.balls@[i] == if hit { paddle_bounced(g.balls@[i], g.paddle) } else { g.balls@[i] }
    &&& h.score == if hit { sat_u32(g.score + PADDLE_SCORE) } else { g.score }
    &&& h == (Game { balls: h.balls, score: h.score, paddle: h.paddle, ..g })
    &&& h.paddle == (Paddle { spin_intensity: h.paddle.spin_intensity, ..g.paddle })
}

/// The per-ball collisions of a tick over the first `k` balls: each ball meets the
/// paddle (see `paddle_hit_rel`), then the blocks (see `block_hit_rel`).
pub open spec fn collided_upto(g: Game, h: Game, k: nat) -> bool
    decreases k,
{
    if k == 0 {
        h == g
    } else {
        exists|a: Game, b: Game|
            #![trigger paddle_hit_rel(a, b, k - 1)]
            collided_upto(g, a, (k - 1) as nat) && paddle_hit_rel(a, b, k - 1) && block_hit_rel(
                b,
                h,
                k - 1,
            )
    }
}

/// A rocket's tick (rocket `k`): it climbs (see `rocket_step`); if it is still in
/// play and touches an active block, the first such block is destroyed, the rocket
/// is spent, and its blast destroys the active blocks around that block, each
/// destroyed block scoring `BLOCK_SCORE`.
pub open spec fn rocket_rel(g: Game, h: Game, k: int) -> bool {
    let r = rocket_step(g.rockets@[k]);
    let j = strike_index(g.blocks@, r.rect_spec(), g.blocks@.len());
    let hit = r.active && j >= 0;
    let mid = g.blocks@.update(j, Block { active: false, ..g.blocks@[j] });
    &&& h == (Game { rockets: h.rockets, blocks: h.blocks, score: h.score, particles: h.particles, ..g })
    &&& h.rockets@ == g.rockets@.update(k, if hit { Rocket { active: false, ..r } } else { r })
    &&& hit ==> h.blocks@ == Seq::new(
        mid.len(),
        |q: int|
            blasted(
                mid[q],
                center_x(g.blocks@[j]),
                center_y(g.blocks@[j]),
                ROCKET_BLAST_RADIUS_SQ as int,
            ),
    ) && h.score == sat_u32(g.score + BLOCK_SCORE * (1 + count_broken(mid, h.blocks@)))
    &&& !hit ==> h.blocks@ == g.blocks@ && h.score == g.score
}

/// The rocket stage of a tick over the first `k` rockets.
pub open spec fn rockets_upto(g: Game, h: Game, k: nat) -> bool
    decreases k,
{
    if k == 0 {
        h == g
    } else {
        exists|a: Game| #[trigger] rocket_rel(a, h, k - 1) && rockets_upto(g, a, (k - 1) as nat)
    }
}

/// The session after power-up `kind` takes effect (see `Game::apply_bonus`): an
/// extra ball resting above the paddle's centre, or the paddle's bonus.
pub open spec fn bonus_applied(g: Game, h: Game, kind: BonusType) -> bool {
    &&& h == (Game { balls: h.balls, paddle: h.paddle, ..g })
    &&& h.paddle == paddle_with_bonus(g.paddle, kind)
    &&& kind == BonusType::ExtraBall ==> h.balls@ == g.balls@.push(h.balls@.last()) && h.balls@.last().motion()
        == (Motion {
        x: (g.paddle.x + g.paddle.width / 2) * SUBPIXELS,
        y: (g.paddle.y - 20) * SUBPIXELS,
        vel_x: 0,
        vel_y: 0,
        spin: 0,
        active: true,
        attached: true,
        launch_timer: LAUNCH_DELAY as int,
    }) && h.balls@.last().trail_positions@.len() == 0
    &&& kind != BonusType::ExtraBall ==> h.balls == g.balls
}

/// A power-up's tick (power-up `k`): it falls (see `bonus_step`); if it is still in
/// play and touches the paddle, it is collected, scores `BONUS_SCORE` and takes
/// effect (see `bonus_applied`).
pub open spec fn bonus_rel(g: Game, h: Game, k: int) -> bool {
    let b = bonus_step(g.bonuses@[k]);
    let caught = b.active && overlaps(b.rect_spec(), g.paddle.rect_spec());
    &&& caught ==> h.bonuses@ == g.bonuses@.update(k, Bonus { active: false, ..b }) && h.score
        == sat_u32(g.score + BONUS_SCORE) && bonus_applied(
        Game { bonuses: h.bonuses, score: h.score, ..g },
        h,
        b.bonus_type,
    )
    &&& !caught ==> h == (Game { bonuses: h.bonuses, ..g }) && h.bonuses@ == g.bonuses@.update(k, b)
}

/// The power-up stage of a tick over the first `k` power-ups.
pub open spec fn bonuses_upto(g: Game, h: Game, k: nat) -> bool
    decreases k,
{
    if k == 0 {
        h == g
    } else {
        exists|a: Game| #[trigger] bonus_rel(a, h, k - 1) && bonuses_upto(g, a, (k - 1) as nat)
    }
}

/// The portal stage of a tick: while the portal is open every block is pulled
/// (see `pulled`); once no active block was left, the closing timer runs, and when
/// it has run `PORTAL_FINISH_TICKS` ticks the level is complete (see `after_level`).
pub open spec fn portal_rel(g: Game, h: Game) -> bool {
    let consumed = forall|q: int| 0 <= q < g.blocks@.len() ==> !(#[trigger] g.blocks@[q]).active;
    let t = if consumed {
        if g.portal_completion_timer == u64::MAX { u64::MAX } else { (g.portal_completion_timer + 1) as u64 }
    } else {
        g.portal_completion_timer
    };
    let m = Game { blocks: h.blocks, particles: h.particles, portal_completion_timer: t, ..g };
    &&& !g.portal_active ==> h == g
    &&& g.portal_active ==> h.blocks@ == Seq::new(g.blocks@.len(), |q: int| pulled(g.blocks@[q]))
        && h == if consumed && t >= PORTAL_FINISH_TICKS { after_level(m) } else { m }
}

/// The penguin stage of a tick: the penguin moves on (see `penguin_step`), the
/// stolen heart disappears once it is grabbed, and the penguin once it is gone.
pub open spec fn penguin_rel(g: Game, h: Game) -> bool {
    match g.penguin {
        None => h == g,
        Some(p) => {
            let q = penguin_step(p);
            h == (Game {
                penguin: if q.state == PenguinState::Done { None } else { Some(q) },
                stolen_heart_position: if q.state == PenguinState::Grabbing {
                    None
                } else {
                    g.stolen_heart_position
                },
                ..g
            })
        },
    }
}

/// A life is lost (see `Game::lose_life`): a life and `LIFE_PENALTY` points go
/// (neither below zero), a penguin comes for the heart, and the game is over or a
/// new ball rests on the paddle.
pub open spec fn life_lost(g: Game, h: Game) -> bool {
    let lives = if g.lives > 0 { g.lives - 1 } else { 0 };
    let heart = ((WINDOW_WIDTH - 30 - lives * 25) * SUBPIXELS, 25 * SUBPIXELS);
    &&& h.lives == lives
    &&& h.score == if g.score >= LIFE_PENALTY { g.score - LIFE_PENALTY } else { 0 }
    &&& h.stolen_heart_position == Some((heart.0 as i64, heart.1 as i64))
    &&& h.penguin == Some(Penguin {
        x: PENGUIN_START_X,
        y: PENGUIN_START_Y,
        target_x: heart.0 as i64,
        target_y: heart.1 as i64,
        state: PenguinState::WalkingIn,
        frame_count: 0,
    })
    &&& lives == 0 ==> h.state == GameState::GameOver && h.balls == g.balls
    &&& lives > 0 ==> h.state == g.state && h.balls@ == g.balls@.push(h.balls@.last()) && rests_on(
        h.balls@.last(),
        g.paddle,
    )
    &&& h == (Game {
        lives: h.lives,
        lost_life_this_level: true,
        score: h.score,
        stolen_heart_position: h.stolen_heart_position,
        penguin: h.penguin,
        state: h.state,
        balls: h.balls,
        ..g
    })
}

proof fn lemma_open_portal_stays(balls: Seq<Ball>, max: int, k: nat)
    ensures
        record_after(balls, max, true, k) == (max, true),
    decreases k,
{
    if k > 0 {
        lemma_open_portal_stays(balls, max, (k - 1) as nat);
    }
}

/// One tick of play, stage by stage (`g0` before, `h` after, `s` the cues):
/// the frame and drop cooldown advance and the paddle ticks (`g1`); the balls
/// advance and the speed record may open the portal (`g2`, see `balls_advanced`);
/// touching balls are pushed apart (`g3`); each ball meets the paddle and then the
/// blocks (`g4`, see `collided_upto`); opening the portal scores `PORTAL_BONUS`
/// (`g5`); rockets (`g6`) and power-ups (`g7`) move and act; the portal pulls the
/// blocks (`g8`); the penguin (`g9`) and the debris (`g10`) move; spent balls,
/// power-ups and rockets are removed (`g11`); with no ball left and the portal
/// closed a life is lost (`g12`, ending on the `Oh` cue); and with the portal closed
/// and only indestructible blocks left the level is complete.
pub open spec fn tick_stages(
    g0: Game,
    g1: Game,
    g2: Game,
    g3: Game,
    g4: Game,
    g5: Game,
    g6: Game,
    g7: Game,
    g8: Game,
    g9: Game,
    g10: Game,
    g11: Game,
    g12: Game,
    h: Game,
    s: Seq<SoundEffect>,
) -> bool {
    let lose = g11.balls@.len() == 0 && !g11.portal_active && g11.state == GameState::Playing;
    let done = !g12.portal_active && g12.state == GameState::Playing && level_cleared(g12.blocks@);
    &&& g1 == (Game {
        frame_count: vstd::wrapping::u64_specs::wrapping_add(g0.frame_count, 1),
        bonus_cooldown: if g0.bonus_cooldown == u64::MAX {
            u64::MAX
        } else {
            (g0.bonus_cooldown + 1) as u64
        },
        paddle: paddle_step(g0.paddle),
        ..g0
    })
    &&& balls_advanced(g1, g2)
    &&& pairs_resolved(g2, g3)
    &&& collided_upto(g3, g4, g3.balls@.len())
    &&& g5 == if !g1.portal_active && g2.portal_active {
        Game { score: sat_u32(g4.score + PORTAL_BONUS), ..g4 }
    } else {
        g4
    }
    &&& rockets_upto(g5, g6, g5.rockets@.len())
    &&& bonuses_upto(g6, g7, g6.bonuses@.len())
    &&& portal_rel(g7, g8)
    &&& penguin_rel(g8, g9)
    &&& g10 == (Game { particles: g10.particles, ..g9 })
    &&& g11 == (Game {
        balls: g11.balls,
        bonuses: g11.bonuses,
        rockets: g11.rockets,
        particles: g11.particles,
        ..g10
    })
    &&& g11.balls@ == active_balls(g10.balls@)
    &&& g11.bonuses@ == active_bonuses(g10.bonuses@)
    &&& g11.rockets@ == active_rockets(g10.rockets@)
    &&& lose ==> life_lost(g11, g12) && s.len() > 0 && s.last() == SoundEffect::Oh
    &&& !lose ==> g12 == g11
    &&& h == if done { after_level(g12) } else { g12 }
}

impl Game {
    /// Rolls for a power-up drop at a destroyed block: it happens with the drop
    /// chance, only once the cooldown has passed, and restarts the cooldown.
    fn maybe_drop_bonus(&mut self, e: &Block)
        requires
            placed(*e),
        ensures
            *final(self) == (Game {
                bonuses: final(self).bonuses,
                bonus_cooldown: final(self).bonus_cooldown,
                ..*old(self)
            }),
            final(self).bonuses@.len() == old(self).bonuses@.len() ==> final(self).bonuses@
                == old(self).bonuses@ && final(self).bonus_cooldown == old(self).bonus_cooldown,
            final(self).bonuses@.len() != old(self).bonuses@.len() ==> old(self).bonus_cooldown
                >= DROP_COOLDOWN && final(self).bonus_cooldown == 0 && final(self).bonuses@
                == old(self).bonuses@.push(
                Bonus {
                    x: (e.x + BLOCK_WIDTH / 2) as i32,
                    y: e.y,
                    bonus_type: final(self).bonuses@.last().bonus_type,
                    active: true,
                },
            ),
    {
        let roll = random_below(100);
        if drop_passes(roll, self.bonus_cooldown) {
            let kind = bonus_kind_for(random_below(100));
            self.bonuses.push(Bonus::new(e.x + BLOCK_WIDTH / 2, e.y, kind));
            self.bonus_cooldown = 0;
        }
    }

    /// Resolves ball `i` against the blocks (see `strike_blocks`); then every broken
    /// Explosive block blasts the active blocks around it, every destroyed block
    /// scores `BLOCK_SCORE`, and each block the ball broke may drop a power-up.
    pub fn collide_ball_with_blocks(&mut self, i: usize, sounds: &mut Vec<SoundEffect>)
        requires
            old(self).wf(),
            i < old(self).balls.len(),
            old(self).balls[i as int].active ==> old(self).balls[i as int].in_field(),
        ensures
            final(self).wf(),
            block_hit_rel(*old(self), *final(self), i as int),
            !old(self).balls@[i as int].active ==> final(sounds)@ == old(sounds)@,
            old(self).balls@[i as int].active ==> final(sounds)@ == old(sounds)@ + hit_cues(
                old(self).blocks@,
                old(self).balls@[i as int].rect_spec(),
                old(self).paddle.ghost_timer > 0,
                old(self).blocks@.len(),
            ) + blast_cues(
                broken_upto(
                    old(self).blocks@,
                    old(self).balls@[i as int].rect_spec(),
                    old(self).paddle.ghost_timer > 0,
                    old(self).blocks@.len(),
                ),
                broken_upto(
                    old(self).blocks@,
                    old(self).balls@[i as int].rect_spec(),
                    old(self).paddle.ghost_timer > 0,
                    old(self).blocks@.len(),
                ).len(),
            ),
    {
        if !self.balls[i].active {
            proof {
                lemma_count_broken_same(self.blocks@);
            }
            return;
        }
        let pass_through = self.paddle.ghost_timer > 0;
        let ghost g0 = *self;
        let ghost blocks0 = self.blocks@;
        let ghost r = self.balls@[i as int].rect_spec();
        let broken = strike_blocks(&mut self.blocks, &mut self.balls[i], pass_through, sounds);
        let ghost cues1 = sounds@;
        let ghost blocks1 = self.blocks@;
        let ghost balls1 = self.balls@;
        proof {
            lemma_broken_placed(blocks0, r, pass_through, blocks0.len());
            lemma_strikes_count(blocks0, r, pass_through);
            assert forall|k: int| 0 <= k < self.blocks.len() implies placed(
                #[trigger] self.blocks@[k],
            ) by {
                assert(placed(blocks0[k]));
            }
        }
        let mut j: usize = 0;
        while j < broken.len()
            invariant
                j <= broken.len(),
                broken@ == broken_upto(blocks0, r, pass_through, blocks0.len()),
                forall|k: int| 0 <= k < broken@.len() ==> placed(#[trigger] broken@[k]),
                self.blocks@ == blocks1,
                self.balls@ == balls1,
                self.score == sat_u32(g0.score + BLOCK_SCORE * j),
                *self == (Game {
                    balls: self.balls,
                    blocks: self.blocks,
                    score: self.score,
                    bonuses: self.bonuses,
                    bonus_cooldown: self.bonus_cooldown,
                    particles: self.particles,
                    ..g0
                }),
                self.wf(),
                forall|q: int|
                    0 <= q < g0.bonuses@.len() ==> #[trigger] self.bonuses@[q] == g0.bonuses@[q],
                self.bonuses@.len() >= g0.bonuses@.len(),
                dropped_at(g0, *self, broken@),
                sounds@ == cues1,
            decreases broken.len() - j,
        {
            let e = broken[j];
            self.score = self.score.saturating_add(BLOCK_SCORE);
            let (cx, cy) = block_center(&e);
            let count = 10 + random_below(6);
            self.burst(cx * SUBPIXELS, cy * SUBPIXELS, count, 400, e.color);
            let ghost before = *self;
            self.maybe_drop_bonus(&e);
            proof {
                if self.bonuses@.len() != before.bonuses@.len() {
                    assert(broken@[j as int] == e);
                    assert(self.bonuses@ == g0.bonuses@.push(
                        Bonus {
                            x: (broken@[j as int].x + BLOCK_WIDTH / 2) as i32,
                            y: broken@[j as int].y,
                            bonus_type: self.bonuses@.last().bonus_type,
                            active: true,
                        },
                    ));
                }
            }
            j += 1;
        }
        assert(count_broken(blocks0, blocks1) == broken@.len());
        let mut j: usize = 0;
        while j < broken.len()
            invariant
                j <= broken.len(),
                broken@ == broken_upto(blocks0, r, pass_through, blocks0.len()),
                forall|k: int| 0 <= k < broken@.len() ==> placed(#[trigger] broken@[k]),
                self.blocks@.len() == blocks1.len(),
                forall|k: int|
                    0 <= k < blocks1.len() ==> #[trigger] self.blocks@[k] == blast_all(
                        blocks1[k],
                        broken@.subrange(0, j as int),
                    ),
                only_deactivates(blocks0, self.blocks@),
                self.balls@ == balls1,
                dropped_at(g0, *self, broken@),
                sounds@ == cues1 + blast_cues(broken@, j as nat),
                forall|q: int|
                    0 <= q < g0.bonuses@.len() ==> #[trigger] self.bonuses@[q] == g0.bonuses@[q],
                self.bonuses@.len() >= g0.bonuses@.len(),
                self.score == sat_u32(g0.score + BLOCK_SCORE * count_broken(blocks0, self.blocks@)),
                *self == (Game {
                    balls: self.balls,
                    blocks: self.blocks,
                    score: self.score,
                    bonuses: self.bonuses,
                    bonus_cooldown: self.bonus_cooldown,
                    particles: self.particles,
                    ..g0
                }),
                self.wf(),
            decreases broken.len() - j,
        {
            let e = broken[j];
            let ghost before = self.blocks@;
            if matches!(e.block_type, BlockType::Explosive) {
                let (cx, cy) = block_center(&e);
                let n = explode_at(&mut self.blocks, cx, cy, BLOCK_BLAST_RADIUS_SQ);
                proof {
                    assert(only_deactivates(before, self.blocks@));
                    lemma_count_broken_chain(blocks0, before, self.blocks@);
                }
                self.score = add_block_points(self.score, n);
                sounds.push(SoundEffect::Explosion);
            }
            proof {
                assert(sounds@ =~= cues1 + blast_cues(broken@, (j + 1) as nat));
                assert(broken@.subrange(0, j + 1).drop_last() =~= broken@.subrange(0, j as int));
                assert forall|k: int| 0 <= k < blocks1.len() implies #[trigger] self.blocks@[k]
                    == blast_all(blocks1[k], broken@.subrange(0, j + 1)) by {
                    assert(broken@.subrange(0, j + 1).last() == e);
                }
                assert forall|k: int| 0 <= k < self.blocks.len() implies placed(
                    #[trigger] self.blocks@[k],
                ) by {
                    assert(placed(before[k]));
                }
            }
            j += 1;
        }
        assert(broken@.subrange(0, broken@.len() as int) =~= broken@);
    }
}

/// Points for a paddle hit.
pub const PADDLE_SCORE: u32 = 5;
/// Points for collecting a power-up.
pub const BONUS_SCORE: u32 = 2;
/// Ticks the portal animation runs after the last block is consumed.
pub const PORTAL_FINISH_TICKS: u64 = 270;

/// The paddle after collecting power-up `kind` (an extra ball is added to the balls instead).
pub open spec fn paddle_with_bonus(p: Paddle, kind: BonusType) -> Paddle {
    match kind {
        BonusType::LongPaddle => Paddle { width: p.long_width, bonus_timer: LONG_BONUS_TICKS, ..p },
        BonusType::GhostBall => Paddle { ghost_timer: GHOST_BONUS_TICKS, ..p },
        BonusType::Rocket => Paddle {
            rocket_ammo: if p.rocket_ammo == u32::MAX { u32::MAX } else { (p.rocket_ammo + 1) as u32 },
            ..p
        },
        BonusType::ExtraBall => p,
    }
}

/// The balls of `s` still in play, in order.
pub open spec fn active_balls(s: Seq<Ball>) -> Seq<Ball>
    decreases s.len(),
{
    if s.len() == 0 {
        seq![]
    } else {
        let p = active_balls(s.drop_last());
        if s.last().active {
            p.push(s.last())
        } else {
            p
        }
    }
}

/// The bonuss of `s` still in play, in order.
pub open spec fn active_bonuses(s: Seq<Bonus>) -> Seq<Bonus>
    decreases s.len(),
{
    if s.len() == 0 {
        seq![]
    } else {
        let p = active_bonuses(s.drop_last());
        if s.last().active {
            p.push(s.last())
        } else {
            p
        }
    }
}

/// The rockets of `s` still in play, in order.
pub open spec fn active_rockets(s: Seq<Rocket>) -> Seq<Rocket>
    decreases s.len(),
{
    if s.len() == 0 {
        seq![]
    } else {
        let p = active_rockets(s.drop_last());
        if s.last().active {
            p.push(s.last())
        } else {
            p
        }
    }
}

/// Keeps the active balls, in order.
fn keep_active_balls(v: &mut Vec<Ball>)
    requires
        forall|j: int| 0 <= j < old(v).len() ==> (#[trigger] old(v)@[j]).wf(),
    ensures
        forall|k: int| 0 <= k < final(v).len() ==> (#[trigger] final(v)@[k]).wf() && final(v)@[k].active,
        final(v).len() == 0 <==> forall|j: int| 0 <= j < old(v).len() ==> !(#[trigger] old(v)@[j]).active,
        final(v)@ == active_balls(old(v)@),
{
    let ghost orig = v@;
    let total = v.len();
    assert(orig.len() == total);
    let mut kept: Vec<Ball> = Vec::new();
    let mut c: usize = 0;
    while v.len() > 0
        invariant
            c <= orig.len(),
            orig.len() <= usize::MAX,
            c + v.len() == orig.len(),
            v@ == orig.subrange(c as int, orig.len() as int),
            forall|j: int| 0 <= j < orig.len() ==> (#[trigger] orig[j]).wf(),
            forall|k: int| 0 <= k < kept.len() ==> (#[trigger] kept@[k]).wf() && kept@[k].active,
            kept.len() == 0 <==> forall|j: int| 0 <= j < c ==> !(#[trigger] orig[j]).active,
            kept@ == active_balls(orig.subrange(0, c as int)),
        decreases v.len(),
    {
        let b = v.remove(0);
        assert(b == orig[c as int]);
        if b.active {
            kept.push(b);
        }
        assert(orig.subrange(0, c + 1).drop_last() =~= orig.subrange(0, c as int));
        c += 1;
        assert(v@ =~= orig.subrange(c as int, orig.len() as int));
    }
    assert(orig.subrange(0, orig.len() as int) =~= orig);
    *v = kept;
}

fn keep_active_bonuses(v: &mut Vec<Bonus>)
    ensures
        forall|k: int| 0 <= k < final(v).len() ==> (#[trigger] final(v)@[k]).active,
        final(v)@ == active_bonuses(old(v)@),
{
    let ghost orig = v@;
    let total = v.len();
    assert(orig.len() == total);
    let mut kept: Vec<Bonus> = Vec::new();
    let mut c: usize = 0;
    while v.len() > 0
        invariant
            c <= orig.len(),
            orig.len() <= usize::MAX,
            c + v.len() == orig.len(),
            v@ == orig.subrange(c as int, orig.len() as int),
            forall|k: int| 0 <= k < kept.len() ==> (#[trigger] kept@[k]).active,
            kept@ == active_bonuses(orig.subrange(0, c as int)),
        decreases v.len(),
    {
        let b = v.remove(0);
        assert(b == orig[c as int]);
        if b.active {
            kept.push(b);
        }
        assert(orig.subrange(0, c + 1).drop_last() =~= orig.subrange(0, c as int));
        c += 1;
        assert(v@ =~= orig.subrange(c as int, orig.len() as int));
    }
    assert(orig.subrange(0, orig.len() as int) =~= orig);
    *v = kept;
}

fn keep_active_rockets(v: &mut Vec<Rocket>)
    ensures
        forall|k: int| 0 <= k < final(v).len() ==> (#[trigger] final(v)@[k]).active,
        final(v)@ == active_rockets(old(v)@),
{
    let ghost orig = v@;
    let total = v.len();
    assert(orig.len() == total);
    let mut kept: Vec<Rocket> = Vec::new();
    let mut c: usize = 0;
    while v.len() > 0
        invariant
            c <= orig.len(),
            orig.len() <= usize::MAX,
            c + v.len() == orig.len(),
            v@ == orig.subrange(c as int, orig.len() as int),
            forall|k: int| 0 <= k < kept.len() ==> (#[trigger] kept@[k]).active,
            kept@ == active_rockets(orig.subrange(0, c as int)),
        decreases v.len(),
    {
        let b = v.remove(0);
        assert(b == orig[c as int]);
        if b.active {
            kept.push(b);
        }
        assert(orig.subrange(0, c + 1).drop_last() =~= orig.subrange(0, c as int));
        c += 1;
        assert(v@ =~= orig.subrange(c as int, orig.len() as int));
    }
    assert(orig.subrange(0, orig.len() as int) =~= orig);
    *v = kept;
}

fn keep_live_particles(v: &mut Vec<Particle>)
    ensures
        forall|k: int| 0 <= k < final(v).len() ==> (#[trigger] final(v)@[k]).lifetime < final(v)@[k].max_lifetime,
{
    let mut kept: Vec<Particle> = Vec::new();
    while v.len() > 0
        invariant
            forall|k: int| 0 <= k < kept.len() ==> (#[trigger] kept@[k]).lifetime < kept@[k].max_lifetime,
        decreases v.len(),
    {
        let b = v.remove(0);
        if b.is_alive() {
            kept.push(b);
        }
    }
    *v = kept;
}

/// Whether every block is destroyed or indestructible: the level is complete.
pub open spec fn level_cleared(blocks: Seq<Block>) -> bool {
    forall|k: int|
        0 <= k < blocks.len() ==> !(#[trigger] blocks[k]).active || blocks[k].block_type
            == BlockType::Undestroyable
}

fn cleared_exec(blocks: &Vec<Block>) -> (r: bool)
    ensures
        r == level_cleared(blocks@),
{
    let mut k: usize = 0;
    while k < blocks.len()
        invariant
            k <= blocks.len(),
            forall|j: int|
                0 <= j < k ==> !(#[trigger] blocks@[j]).active || blocks@[j].block_type
                    == BlockType::Undestroyable,
        decreases blocks.len() - k,
    {
        if blocks[k].active && !matches!(blocks[k].block_type, BlockType::Undestroyable) {
            return false;
        }
        k += 1;
    }
    true
}

impl Game {
    /// Whether every active ball lies in the field.
    pub open spec fn balls_in_field(&self) -> bool {
        forall|j: int|
            0 <= j < self.balls.len() && (#[trigger] self.balls@[j]).active ==> self.balls@[j].in_field()
    }

    /// First stage of a tick: each ball either circles the open portal, or (resting
    /// on the paddle, it first follows the paddle) moves one step, and its speed is
    /// checked against the level's record. Returns whether the portal opened.
    #[verifier::rlimit(60)]
    fn advance_balls(&mut self) -> (opened: bool)
        requires
            old(self).wf(),
        ensures
            final(self).wf(),
            final(self).balls_in_field(),
            balls_advanced(*old(self), *final(self)),
            opened == (!old(self).portal_active && final(self).portal_active),
    {
        let ghost g0 = *self;
        let n = self.balls.len();
        let mut opened = false;
        let mut i: usize = 0;
        while i < n
            invariant
                self.wf(),
                n == self.balls.len(),
                i <= n,
                forall|j: int|
                    0 <= j < i && (#[trigger] self.balls@[j]).active ==> self.balls@[j].in_field(),
                opened == (!g0.portal_active && self.portal_active),
                g0.portal_active ==> self.portal_active,
                n == g0.balls.len(),
                g0.wf(),
                forall|j: int| i <= j < n ==> #[trigger] self.balls@[j] == g0.balls@[j],
                forall|j: int|
                    0 <= j < i ==> ball_advanced(
                        g0.balls@[j],
                        #[trigger] self.balls@[j],
                        g0.paddle,
                        g0.gravity_mode,
                        record_after(self.balls@, g0.max_speed_sq as int, g0.portal_active, j as nat).1,
                        g0.frame_count,
                        j,
                    ),
                (self.max_speed_sq as int, self.portal_active) == record_after(
                    self.balls@,
                    g0.max_speed_sq as int,
                    g0.portal_active,
                    i as nat,
                ),
                *self == (Game {
                    balls: self.balls,
                    particles: self.particles,
                    max_speed_sq: self.max_speed_sq,
                    portal_active: self.portal_active,
                    max_speed_record_frame: self.max_speed_record_frame,
                    ..g0
                }),
            decreases n - i,
        {
            let ghost before = self.balls@;
            if self.portal_active {
                let frame = self.frame_count;
                place_on_orbit(&mut self.balls[i], frame, i);
            } else {
                if self.balls[i].attached_to_paddle {
                    let rx = (self.paddle.x + self.paddle.width / 2 - BALL_SIZE / 2) as i64 * SUBPIXELS;
                    let ry = (self.paddle.y - BALL_SIZE) as i64 * SUBPIXELS;
                    self.balls[i].x = rx;
                    self.balls[i].y = ry;
                }
                let g = self.gravity_mode;
                self.balls[i].update(g);
                let s = speed_sq_exec(&self.balls[i]);
                let record = s > self.max_speed_sq;
                if self.observe_speed(s) {
                    opened = true;
                    self.burst(PORTAL_X * SUBPIXELS, PORTAL_Y * SUBPIXELS, 100, 2000, Color::new(150, 50, 255));
                }
                if record {
                    let cx = self.balls[i].x + (BALL_SIZE / 2) as i64 * SUBPIXELS;
                    let cy = self.balls[i].y + (BALL_SIZE / 2) as i64 * SUBPIXELS;
                    self.burst(cx, cy, 5, 300, Color::new(200, 255, 255));
                }
            }
            proof {
                assert forall|j: int| 0 <= j <= i implies record_after(
                    self.balls@,
                    g0.max_speed_sq as int,
                    g0.portal_active,
                    j as nat,
                ) == #[trigger] record_after(before, g0.max_speed_sq as int, g0.portal_active, j as nat) by {
                    lemma_record_prefix(self.balls@, before, g0.max_speed_sq as int, g0.portal_active, j as nat);
                }
            }
            i += 1;
        }
        opened
    }

    /// Ball-to-ball collisions (none while the portal is open): every pair of active
    /// balls closer than a ball's width is pushed apart (see `ejected`), with a ring
    /// of debris and one sound per pair. Positions do not change.
    fn collide_ball_pairs(&mut self, sounds: &mut Vec<SoundEffect>)
        requires
            old(self).wf(),
            old(self).balls_in_field(),
        ensures
            final(self).wf(),
            final(self).balls_in_field(),
            pairs_resolved(*old(self), *final(self)),
    {
        if self.portal_active {
            return;
        }
        let ghost g0 = *self;
        let n = self.balls.len();
        let mut pairs: Vec<(usize, usize, i64)> = Vec::new();
        let mut i: usize = 0;
        while i < n
            invariant
                *self == g0,
                n == self.balls.len(),
                i <= n,
                g0.wf(),
                g0.balls_in_field(),
                forall|q: int| 0 <= q < pairs.len() ==> (#[trigger] pairs@[q]).0 < n && pairs@[q].1 < n
                    && g0.balls@[pairs@[q].0 as int].active && g0.balls@[pairs@[q].1 as int].active
                    && -200_000 <= pairs@[q].2 <= 200_000 && pairs@[q].0 != pairs@[q].1
                    && balls_touch(g0.balls@[pairs@[q].0 as int], g0.balls@[pairs@[q].1 as int]),
                !g0.portal_active,
            decreases n - i,
        {
            let mut j: usize = i + 1;
            while j < n
                invariant
                    *self == g0,
                    n == self.balls.len(),
                    i < n,
                    i + 1 <= j <= n,
                    g0.wf(),
                    g0.balls_in_field(),
                    forall|q: int| 0 <= q < pairs.len() ==> (#[trigger] pairs@[q]).0 < n && pairs@[q].1 < n
                        && g0.balls@[pairs@[q].0 as int].active && g0.balls@[pairs@[q].1 as int].active
                        && -200_000 <= pairs@[q].2 <= 200_000 && pairs@[q].0 != pairs@[q].1
                        && balls_touch(g0.balls@[pairs@[q].0 as int], g0.balls@[pairs@[q].1 as int]),
                    !g0.portal_active,
                decreases n - j,
            {
                if self.balls[i].active && self.balls[j].active && balls_touch_exec(
                    &self.balls[i],
                    &self.balls[j],
                ) {
                    let ax = self.balls[i].x;
                    let cx = ax + scale_exec(self.balls[j].x - ax, 1, 2);
                    pairs.push((i, j, cx));
                }
                j += 1;
            }
            i += 1;
        }
        let mut q: usize = 0;
        while q < pairs.len()
            invariant
                self.wf(),
                n == self.balls.len(),
                n == g0.balls.len(),
                forall|p: int| 0 <= p < pairs.len() ==> (#[trigger] pairs@[p]).0 < n && pairs@[p].1 < n
                    && g0.balls@[pairs@[p].0 as int].active && g0.balls@[pairs@[p].1 as int].active
                    && -200_000 <= pairs@[p].2 <= 200_000 && pairs@[p].0 != pairs@[p].1
                    && balls_touch(g0.balls@[pairs@[p].0 as int], g0.balls@[pairs@[p].1 as int]),
                !g0.portal_active,
                forall|j: int|
                    0 <= j < n ==> #[trigger] self.balls@[j] == g0.balls@[j] || (touches_another(
                        g0.balls@,
                        j,
                    ) && pair_ejected(g0.balls@[j], self.balls@[j])),
                forall|j: int|
                    0 <= j < n ==> (#[trigger] self.balls@[j]).x == g0.balls@[j].x && self.balls@[j].y
                        == g0.balls@[j].y && self.balls@[j].active == g0.balls@[j].active,
                g0.balls_in_field(),
                *self == (Game { balls: self.balls, particles: self.particles, ..g0 }),
            decreases pairs.len() - q,
        {
            let (a, b, cx) = pairs[q];
            assert(g0.balls@[a as int].in_field() && g0.balls@[b as int].in_field());
            assert(touches_another(g0.balls@, a as int)) by {
                assert(balls_touch(g0.balls@[a as int], g0.balls@[b as int]));
            }
            assert(touches_another(g0.balls@, b as int)) by {
                assert(balls_touch(g0.balls@[b as int], g0.balls@[a as int]) || balls_touch(
                    g0.balls@[a as int],
                    g0.balls@[b as int],
                ));
            }
            eject(&mut self.balls[a], cx);
            eject(&mut self.balls[b], cx);
            let cy = self.balls[a].y + (self.balls[b].y - self.balls[a].y) / 2 + (BALL_SIZE / 2) as i64
                * SUBPIXELS;
            self.burst(cx + (BALL_SIZE / 2) as i64 * SUBPIXELS, cy, 36, 600, Color::new(200, 255, 255));
            sounds.push(SoundEffect::Bounce);
            q += 1;
        }
        assert(self.balls_in_field()) by {
            assert forall|j: int|
                0 <= j < self.balls.len() && (#[trigger] self.balls@[j]).active implies self.balls@[j].in_field() by {
                assert(g0.balls@[j].active);
            }
        }
    }

    /// Ball `i` against the paddle: on contact it bounces (see `paddle_bounced`),
    /// the hit scores `PADDLE_SCORE`, and a fast paddle shows a full spin discharge.
    pub fn collide_ball_with_paddle(&mut self, i: usize, sounds: &mut Vec<SoundEffect>)
        requires
            old(self).wf(),
            i < old(self).balls.len(),
            old(self).balls[i as int].active ==> old(self).balls[i as int].in_field(),
        ensures
            final(self).wf(),
            paddle_hit_rel(*old(self), *final(self), i as int),
    {
        if self.balls[i].active {
            let br = self.balls[i].rect();
            let pr = self.paddle.rect();
            if check_collision(br, pr) {
                let p = self.paddle;
                let discharge = bounce_off_paddle(&mut self.balls[i], &p);
                if discharge {
                    self.paddle.spin_intensity = FULL_INTENSITY;
                }
                self.score = self.score.saturating_add(PADDLE_SCORE);
                sounds.push(SoundEffect::Bounce);
            }
        }
    }

    /// Applies the effect of a collected power-up: an extra ball resting on the
    /// paddle, a long paddle, ghost mode, or one more rocket.
    pub fn apply_bonus(&mut self, kind: BonusType)
        requires
            old(self).wf(),
        ensures
            final(self).wf(),
            bonus_applied(*old(self), *final(self), kind),
    {
        match kind {
            BonusType::ExtraBall => {
                let x = (self.paddle.x + self.paddle.width / 2) as i64 * SUBPIXELS;
                let y = (self.paddle.y - 20) as i64 * SUBPIXELS;
                self.balls.push(Ball::new(x, y));
            },
            BonusType::LongPaddle => self.paddle.activate_long_bonus(),
            BonusType::GhostBall => self.paddle.activate_ghost_bonus(),
            BonusType::Rocket => self.paddle.add_rockets(),
        }
    }

    /// Power-ups fall; one that touches the paddle is collected (see `bonus_rel`).
    fn advance_bonuses(&mut self)
        requires
            old(self).wf(),
        ensures
            final(self).wf(),
            bonuses_upto(*old(self), *final(self), old(self).bonuses@.len()),
            *final(self) == (Game {
                balls: final(self).balls,
                paddle: final(self).paddle,
                bonuses: final(self).bonuses,
                score: final(self).score,
                ..*old(self)
            }),
    {
        let ghost g0 = *self;
        let n = self.bonuses.len();
        let mut k: usize = 0;
        while k < n
            invariant
                self.wf(),
                n == self.bonuses.len(),
                k <= n,
                bonuses_upto(g0, *self, k as nat),
                *self == (Game {
                    balls: self.balls,
                    paddle: self.paddle,
                    bonuses: self.bonuses,
                    score: self.score,
                    ..g0
                }),
            decreases n - k,
        {
            let ghost ga = *self;
            self.bonuses[k].update();
            let ghost b = self.bonuses@[k as int];
            if self.bonuses[k].active && check_collision(self.bonuses[k].rect(), self.paddle.rect()) {
                self.bonuses[k].active = false;
                self.score = self.score.saturating_add(BONUS_SCORE);
                let kind = self.bonuses[k].bonus_type;
                let ghost mid = *self;
                self.apply_bonus(kind);
                assert(mid == (Game { bonuses: self.bonuses, score: self.score, ..ga }));
                assert(kind == b.bonus_type);
                assert(overlaps(b.rect_spec(), ga.paddle.rect_spec()));
                assert(self.bonuses@ == ga.bonuses@.update(k as int, Bonus { active: false, ..b }));
                assert(self.score == sat_u32(ga.score + BONUS_SCORE));
            } else {
                assert(self.bonuses@ =~= ga.bonuses@.update(k as int, b));
                assert(*self == (Game { bonuses: self.bonuses, ..ga }));
            }
            assert(b == bonus_step(ga.bonuses@[k as int]));
            assert(bonus_rel(ga, *self, k as int));
            assert(bonus_rel(ga, *self, ((k + 1) as nat) - 1));
            assert(bonuses_upto(g0, *self, (k + 1) as nat));
            k += 1;
        }
    }

    /// Rockets climb; one that touches an active block destroys the first such
    /// block and explodes, destroying every active block within the rocket's blast
    /// (see `rocket_rel`).
    fn advance_rockets(&mut self, sounds: &mut Vec<SoundEffect>)
        requires
            old(self).wf(),
        ensures
            final(self).wf(),
            rockets_upto(*old(self), *final(self), old(self).rockets@.len()),
            *final(self) == (Game {
                rockets: final(self).rockets,
                blocks: final(self).blocks,
                score: final(self).score,
                particles: final(self).particles,
                ..*old(self)
            }),
    {
        let ghost g0 = *self;
        let n = self.rockets.len();
        let mut k: usize = 0;
        while k < n
            invariant
                self.wf(),
                n == self.rockets.len(),
                k <= n,
                rockets_upto(g0, *self, k as nat),
                *self == (Game {
                    rockets: self.rockets,
                    blocks: self.blocks,
                    score: self.score,
                    particles: self.particles,
                    ..g0
                }),
            decreases n - k,
        {
            let ghost ga = *self;
            self.rockets[k].update();
            let ghost r = self.rockets@[k as int];
            if self.rockets[k].active {
                let rr = self.rockets[k].rect();
                let m = self.blocks.len();
                let mut b: usize = 0;
                while b < m
                    invariant_except_break
                        strike_index(ga.blocks@, rr, b as nat) == -1,
                    invariant
                        m == self.blocks.len(),
                        m == ga.blocks@.len(),
                        b <= m,
                        self.blocks@ == ga.blocks@,
                        rr == r.rect_spec(),
                        rr.w >= 0 && rr.h >= 0,
                    ensures
                        b < m ==> strike_index(ga.blocks@, rr, m as nat) == b,
                        b == m ==> strike_index(ga.blocks@, rr, m as nat) == -1,
                    decreases m - b,
                {
                    let blk = self.blocks[b];
                    if blk.active && check_collision(rr, blk.rect()) {
                        proof {
                            assert(blk == ga.blocks@[b as int]);
                            assert(touches(ga.blocks@[b as int], rr));
                            assert(strike_index(ga.blocks@, rr, (b + 1) as nat) == b);
                            lemma_strike_index_stays(ga.blocks@, rr, (b + 1) as nat, m as nat);
                        }
                        break;
                    }
                    b += 1;
                }
                let hit: Option<usize> = if b < m { Some(b) } else { None };
                match hit {
                    Some(h) => {
                        let blk = self.blocks[h];
                        assert(placed(self.blocks@[h as int]));
                        self.blocks.set(h, Block { active: false, ..blk });
                        let ghost mid = self.blocks@;
                        assert forall|q: int| 0 <= q < self.blocks.len() implies placed(#[trigger] self.blocks@[q]) by {
                            assert(placed(ga.blocks@[q]));
                        }
                        self.score = self.score.saturating_add(BLOCK_SCORE);
                        let c = block_center(&blk);
                        self.burst(c.0 * SUBPIXELS, c.1 * SUBPIXELS, 12, 400, blk.color);
                        self.rockets[k].active = false;
                        sounds.push(SoundEffect::BreakingGlass);
                        let destroyed = explode_at(&mut self.blocks, c.0, c.1, ROCKET_BLAST_RADIUS_SQ);
                        assert forall|q: int| 0 <= q < self.blocks.len() implies placed(#[trigger] self.blocks@[q]) by {
                            assert(placed(mid[q]));
                        }
                        self.score = add_block_points(self.score, destroyed);
                        assert(self.blocks@ =~= Seq::new(
                            mid.len(),
                            |q: int| blasted(mid[q], center_x(ga.blocks@[h as int]), center_y(ga.blocks@[h as int]), ROCKET_BLAST_RADIUS_SQ as int),
                        ));
                        assert(self.rockets@ == ga.rockets@.update(k as int, Rocket { active: false, ..r }));
                    },
                    None => {
                        proof {
                            lemma_strike_index_range(ga.blocks@, rr, m as nat);
                        }
                        assert(self.rockets@ == ga.rockets@.update(k as int, r));
                    },
                }
            } else {
                assert(self.rockets@ == ga.rockets@.update(k as int, r));
            }
            let ghost rs = rocket_step(ga.rockets@[k as int]);
            assert(r == rs);
            assert(*self == (Game { rockets: self.rockets, blocks: self.blocks, score: self.score, particles: self.particles, ..ga }));
            assert(rocket_rel(ga, *self, k as int));
            assert(rockets_upto(g0, ga, k as nat));
            assert(rocket_rel(ga, *self, ((k + 1) as nat) - 1));
            assert(rockets_upto(g0, *self, (k + 1) as nat));
            k += 1;
        }
    }

    /// While the portal is open, it pulls every active block toward its centre and
    /// consumes the blocks that arrive; once none is left, its closing animation
    /// runs `PORTAL_FINISH_TICKS` ticks and then the level is complete.
    fn advance_portal(&mut self)
        requires
            old(self).wf(),
        ensures
            final(self).wf(),
            portal_rel(*old(self), *final(self)),
    {
        if !self.portal_active {
            return;
        }
        let mut all_consumed = true;
        let n = self.blocks.len();
        let mut k: usize = 0;
        let ghost g0 = *self;
        while k < n
            invariant
                self.wf(),
                n == self.blocks.len(),
                k <= n,
                *self == (Game { blocks: self.blocks, particles: self.particles, ..g0 }),
                g0.portal_active,
                n == g0.blocks@.len(),
                forall|q: int| 0 <= q < k ==> #[trigger] self.blocks@[q] == pulled(g0.blocks@[q]),
                forall|q: int| k <= q < n ==> #[trigger] self.blocks@[q] == g0.blocks@[q],
                all_consumed == forall|q: int| 0 <= q < k ==> !(#[trigger] g0.blocks@[q]).active,
            decreases n - k,
        {
            if self.blocks[k].active {
                all_consumed = false;
                assert(placed(self.blocks@[k as int]));
                pull_block(&mut self.blocks[k]);
                if !self.blocks[k].active {
                    self.burst(PORTAL_X * SUBPIXELS, PORTAL_Y * SUBPIXELS, 5, 300, Color::new(150, 50, 255));
                }
            }
            k += 1;
        }
        assert(self.blocks@ =~= Seq::new(g0.blocks@.len(), |q: int| pulled(g0.blocks@[q])));
        if all_consumed {
            self.portal_completion_timer = self.portal_completion_timer.saturating_add(1);
            if self.portal_completion_timer >= PORTAL_FINISH_TICKS {
                self.next_level();
            }
        }
    }

    /// Debris moves, falls and ages.
    fn advance_particles(&mut self)
        ensures
            *final(self) == (Game { particles: final(self).particles, ..*old(self) }),
            final(self).particles.len() == old(self).particles.len(),
    {
        let ghost g0 = *self;
        let m = self.particles.len();
        let mut k: usize = 0;
        while k < m
            invariant
                m == self.particles.len(),
                k <= m,
                *self == (Game { particles: self.particles, ..g0 }),
            decreases m - k,
        {
            self.particles[k].update();
            k += 1;
        }
    }

    /// The penguin carrying off a heart moves on; the heart disappears once grabbed
    /// and the penguin once its flight is over.
    fn advance_penguin(&mut self)
        requires
            old(self).wf(),
        ensures
            final(self).wf(),
            penguin_rel(*old(self), *final(self)),
    {
        let taken = self.penguin.take();
        match taken {
            Some(mut p) => {
                p.update();
                if matches!(p.state, PenguinState::Grabbing) && self.stolen_heart_position.is_some() {
                    self.stolen_heart_position = None;
                }
                if !p.is_done() {
                    self.penguin = Some(p);
                }
            },
            None => {},
        }
    }

    /// A life is lost: one life (never below zero) and `LIFE_PENALTY` points (never
    /// below zero) go, the level is marked as having cost a life, a penguin comes for
    /// the lost heart, and either the game is over or a new ball rests on the paddle.
    pub fn lose_life(&mut self, sounds: &mut Vec<SoundEffect>)
        requires
            old(self).wf(),
        ensures
            final(self).wf(),
            life_lost(*old(self), *final(self)),
            final(sounds)@ == old(sounds)@.push(SoundEffect::Oh),
    {
        self.lives = if self.lives > 0 { self.lives - 1 } else { 0 };
        self.lost_life_this_level = true;
        self.score = score_after_life_loss(self.score);
        sounds.push(SoundEffect::Oh);
        let hx = (WINDOW_WIDTH as i64 - 30 - self.lives as i64 * 25) * SUBPIXELS;
        let hy: i64 = 25 * SUBPIXELS;
        self.stolen_heart_position = Some((hx, hy));
        self.penguin = Some(Penguin::new(hx, hy));
        if self.lives == 0 {
            self.state = GameState::GameOver;
        } else {
            let b = ball_on_paddle(&self.paddle);
            self.balls.push(b);
        }
    }

    /// Advances the session by one tick and returns the sound cues of the tick.
    /// Outside `Playing` nothing changes. Otherwise, in order: the paddle, the balls
    /// (and the speed record and portal), ball-to-ball, ball-to-paddle and
    /// ball-to-block collisions, rockets, power-ups, the portal, the penguin and the
    /// debris; then spent entities are removed, a life is lost when no ball is left
    /// (unless the portal is open), and the level completes when only indestructible
    /// blocks remain (unless the portal is open).
    pub fn update(&mut self) -> (sounds: Vec<SoundEffect>)
        requires
            old(self).wf(),
        ensures
            final(self).wf(),
            old(self).state != GameState::Playing ==> *final(self) == *old(self) && sounds@.len() == 0,
            old(self).state == GameState::Playing ==> exists|
                g1: Game,
                g2: Game,
                g3: Game,
                g4: Game,
                g5: Game,
                g6: Game,
                g7: Game,
                g8: Game,
                g9: Game,
                g10: Game,
                g11: Game,
                g12: Game,
            |
                #[trigger] tick_stages(
                    *old(self),
                    g1,
                    g2,
                    g3,
                    g4,
                    g5,
                    g6,
                    g7,
                    g8,
                    g9,
                    g10,
                    g11,
                    g12,
                    *final(self),
                    sounds@,
                ),
            old(self).state == GameState::Playing ==> final(self).state == GameState::Playing
                || final(self).state == GameState::GameOver || final(self).state == GameState::Victory
                || final(self).state == GameState::LevelTransition,
            old(self).state == GameState::Playing ==> final(self).current_level == old(self).current_level,
            old(self).state == GameState::Playing && old(self).portal_active ==> final(self).portal_active,
            old(self).state == GameState::Playing && final(self).state == GameState::GameOver
                ==> final(self).lives == 0 && final(self).lost_life_this_level,
            old(self).state == GameState::Playing && final(self).state == GameState::Playing
                && !final(self).portal_active ==> !level_cleared(final(self).blocks@),
            old(self).state == GameState::Playing && final(self).state == GameState::Playing
                ==> final(self).balls.len() > 0 || final(self).portal_active,
            old(self).state == GameState::Playing && final(self).state != GameState::GameOver ==> forall|j: int|
                0 <= j < final(self).balls.len() ==> (#[trigger] final(self).balls@[j]).active,
    {
        let mut sounds: Vec<SoundEffect> = Vec::new();
        if !matches!(self.state, GameState::Playing) {
            return sounds;
        }
        let ghost g0 = *self;
        self.frame_count = self.frame_count.wrapping_add(1);
        self.bonus_cooldown = self.bonus_cooldown.saturating_add(1);
        self.paddle.update();
        let ghost g1 = *self;
        let opened = self.advance_balls();
        let ghost g2 = *self;
        self.collide_ball_pairs(&mut sounds);
        let ghost g3 = *self;
        let n = self.balls.len();
        let mut i: usize = 0;
        while i < n
            invariant
                self.wf(),
                n == self.balls.len(),
                n == g3.balls@.len(),
                i <= n,
                self.state == GameState::Playing,
                self.current_level == g3.current_level,
                self.portal_active == g3.portal_active,
                self.rockets == g3.rockets,
                self.bonuses@.len() >= g3.bonuses@.len(),
                forall|j: int|
                    i <= j < n && (#[trigger] self.balls@[j]).active ==> self.balls@[j].in_field(),
                collided_upto(g3, *self, i as nat),
            decreases n - i,
        {
            let ghost ga = *self;
            self.collide_ball_with_paddle(i, &mut sounds);
            let ghost gb = *self;
            self.collide_ball_with_blocks(i, &mut sounds);
            proof {
                assert(paddle_hit_rel(ga, gb, ((i + 1) as nat) - 1));
                assert(block_hit_rel(gb, *self, ((i + 1) as nat) - 1));
                assert(collided_upto(g3, ga, i as nat));
                assert(collided_upto(g3, *self, (i + 1) as nat));
            }
            i += 1;
        }
        let ghost g4 = *self;
        if opened {
            self.score = self.score.saturating_add(PORTAL_BONUS);
        }
        let ghost g5 = *self;
        self.advance_rockets(&mut sounds);
        let ghost g6 = *self;
        self.advance_bonuses();
        let ghost g7 = *self;
        self.advance_portal();
        let ghost g8 = *self;
        self.advance_penguin();
        let ghost g9 = *self;
        self.advance_particles();
        let ghost g10 = *self;
        keep_active_balls(&mut self.balls);
        keep_active_bonuses(&mut self.bonuses);
        keep_live_particles(&mut self.particles);
        keep_active_rockets(&mut self.rockets);
        let ghost g11 = *self;
        if self.balls.len() == 0 && !self.portal_active && matches!(self.state, GameState::Playing) {
            self.lose_life(&mut sounds);
        }
        let ghost g12 = *self;
        if !self.portal_active && matches!(self.state, GameState::Playing) && cleared_exec(&self.blocks) {
            self.next_level();
        }
        proof {
            if g0.portal_active {
                lemma_open_portal_stays(g2.balls@, g1.max_speed_sq as int, g1.balls@.len());
            }
            assert(tick_stages(g0, g1, g2, g3, g4, g5, g6, g7, g8, g9, g10, g11, g12, *self, sounds@));
        }
        sounds
    }
}

/// Sparks shown when a ball is launched.
pub const LAUNCH_SPARKS: u32 = 20;

/// How many of the first `k` balls rest on the paddle.
pub open spec fn attached_count(balls: Seq<Ball>, k: nat) -> nat
    decreases k,
{
    if k == 0 {
        0
    } else {
        attached_count(balls, (k - 1) as nat) + if balls[k - 1].attached_to_paddle {
            1nat
        } else {
            0nat
        }
    }
}

impl Game {
    /// Fires a rocket from the paddle's centre when there is ammunition (one round
    /// is spent); returns the cue to play, or `None` when nothing was fired.
    pub fn fire_rocket(&mut self) -> (cue: Option<SoundEffect>)
        requires
            old(self).wf(),
        ensures
            final(self).wf(),
            old(self).paddle.rocket_ammo == 0 ==> *final(self) == *old(self) && cue.is_none(),
            old(self).paddle.rocket_ammo > 0 ==> cue == Some(SoundEffect::Load)
                && final(self).paddle == (Paddle {
                rocket_ammo: (old(self).paddle.rocket_ammo - 1) as u32,
                ..old(self).paddle
            }) && final(self).rockets@ == old(self).rockets@.push(
                Rocket {
                    x: (old(self).paddle.x + old(self).paddle.width / 2 - 5) as i32,
                    y: (old(self).paddle.y - 20) as i32,
                    active: true,
                },
            ) && *final(self) == (Game {
                paddle: final(self).paddle,
                rockets: final(self).rockets,
                ..*old(self)
            }),
    {
        if self.paddle.rocket_ammo > 0 {
            self.paddle.rocket_ammo = self.paddle.rocket_ammo - 1;
            let r = Rocket::new(self.paddle.x + self.paddle.width / 2 - 5, self.paddle.y - 20);
            self.rockets.push(r);
            Some(SoundEffect::Load)
        } else {
            None
        }
    }

    /// Launches every ball resting on the paddle (each in a random one of the three
    /// launch directions, with a burst of sparks); balls in flight are untouched.
    pub fn launch_balls(&mut self)
        requires
            old(self).wf(),
        ensures
            final(self).wf(),
            final(self).balls.len() == old(self).balls.len(),
            forall|j: int|
                0 <= j < old(self).balls.len() ==> {
                    let b = #[trigger] old(self).balls@[j];
                    &&& b.attached_to_paddle ==> final(self).balls@[j].trail_positions
                        == b.trail_positions && exists|d: int|
                        0 <= d < 3 && final(self).balls@[j].motion() == #[trigger] launched(
                            b.motion(),
                            d,
                        )
                    &&& !b.attached_to_paddle ==> final(self).balls@[j] == b
                },
            final(self).particles@.len() == old(self).particles@.len() + LAUNCH_SPARKS
                * attached_count(old(self).balls@, old(self).balls@.len()),
            *final(self) == (Game {
                balls: final(self).balls,
                particles: final(self).particles,
                ..*old(self)
            }),
    {
        let ghost g0 = *self;
        let n = self.balls.len();
        let mut i: usize = 0;
        while i < n
            invariant
                self.wf(),
                n == self.balls.len(),
                n == g0.balls.len(),
                i <= n,
                forall|j: int| i <= j < n ==> #[trigger] self.balls@[j] == g0.balls@[j],
                forall|j: int|
                    0 <= j < i ==> {
                        let b = #[trigger] g0.balls@[j];
                        &&& b.attached_to_paddle ==> self.balls@[j].trail_positions
                            == b.trail_positions && exists|d: int|
                            0 <= d < 3 && self.balls@[j].motion() == #[trigger] launched(
                                b.motion(),
                                d,
                            )
                        &&& !b.attached_to_paddle ==> self.balls@[j] == b
                    },
                self.particles@.len() == g0.particles@.len() + LAUNCH_SPARKS * attached_count(
                    g0.balls@,
                    i as nat,
                ),
                attached_count(g0.balls@, i as nat) <= i,
                *self == (Game { balls: self.balls, particles: self.particles, ..g0 }),
            decreases n - i,
        {
            if self.balls[i].attached_to_paddle {
                self.balls[i].launch();
                let cx = self.balls[i].x + (BALL_SIZE / 2) as i64 * SUBPIXELS;
                let cy = self.balls[i].y + (BALL_SIZE / 2) as i64 * SUBPIXELS;
                self.burst(cx, cy, LAUNCH_SPARKS, 600, Color::new(255, 200, 50));
            }
            i += 1;
        }
    }
}

impl Game {
    /// The confirm/continue command of the holding screens: the splash screen starts
    /// play, the transition screen moves on to the next level, and after a game over
    /// or a victory a fresh session starts at level 1; elsewhere nothing happens.
    pub fn confirm(&mut self)
        requires
            old(self).wf(),
        ensures
            final(self).wf(),
            old(self).state == GameState::SplashScreen ==> *final(self) == (Game {
                state: GameState::Playing,
                ..*old(self)
            }),
            old(self).state == GameState::LevelTransition && old(self).current_level < usize::MAX
                ==> final(self).state == GameState::Playing && final(self).current_level == old(self).current_level + 1 && final(self).blocks@ == level_blocks(final(self).current_level)
                && final(self).score == old(self).score && final(self).lives == old(self).lives,
            old(self).state == GameState::GameOver || old(self).state == GameState::Victory
                ==> final(self).state == GameState::Playing && final(self).current_level == 1
                && final(self).score == 0 && final(self).lives == MAX_LIVES && final(self).blocks@
                == level_blocks(1),
            old(self).state == GameState::Playing || old(self).state == GameState::Paused
                || old(self).state == GameState::LevelEditor || (old(self).state
                == GameState::LevelTransition && old(self).current_level == usize::MAX) ==> *final(self) == *old(self),
    {
        match self.state {
            GameState::SplashScreen => {
                self.state = GameState::Playing;
            },
            GameState::LevelTransition => {
                if self.current_level < usize::MAX {
                    self.start_next_level();
                }
            },
            GameState::GameOver | GameState::Victory => {
                self.reset();
                self.state = GameState::Playing;
            },
            _ => {},
        }
    }
}

/// The session fields that the collision, rocket and power-up stages never touch.
pub open spec fn same_frame(g: Game, h: Game) -> bool {
    &&& h.portal_active == g.portal_active
    &&& h.state == g.state
    &&& h.current_level == g.current_level
    &&& h.lives == g.lives
}

proof fn lemma_collided_keeps(g: Game, h: Game, k: nat)
    requires
        collided_upto(g, h, k),
    ensures
        same_frame(g, h),
    decreases k,
{
    if k > 0 {
        let (a, b) = choose|a: Game, b: Game|
            #![trigger paddle_hit_rel(a, b, k - 1)]
            collided_upto(g, a, (k - 1) as nat) && paddle_hit_rel(a, b, k - 1) && block_hit_rel(
                b,
                h,
                k - 1,
            );
        lemma_collided_keeps(g, a, (k - 1) as nat);
    }
}

proof fn lemma_rockets_keep(g: Game, h: Game, k: nat)
    requires
        rockets_upto(g, h, k),
    ensures
        same_frame(g, h),
    decreases k,
{
    if k > 0 {
        let a = choose|a: Game| #[trigger] rocket_rel(a, h, k - 1) && rockets_upto(g, a, (k - 1) as nat);
        lemma_rockets_keep(g, a, (k - 1) as nat);
    }
}

proof fn lemma_bonuses_keep(g: Game, h: Game, k: nat)
    requires
        bonuses_upto(g, h, k),
    ensures
        same_frame(g, h),
    decreases k,
{
    if k > 0 {
        let a = choose|a: Game| #[trigger] bonus_rel(a, h, k - 1) && bonuses_upto(g, a, (k - 1) as nat);
        lemma_bonuses_keep(g, a, (k - 1) as nat);
    }
}

/// Over a tick the portal latch only closes never: a portal that was open stays
/// open and its bonus is not paid again; a portal that opens during the tick is
/// paid `PORTAL_BONUS` exactly once, at the stage after the collisions.
pub proof fn lemma_tick_portal_latch(
    g0: Game,
    g1: Game,
    g2: Game,
    g3: Game,
    g4: Game,
    g5: Game,
    g6: Game,
    g7: Game,
    g8: Game,
    g9: Game,
    g10: Game,
    g11: Game,
    g12: Game,
    h: Game,
    s: Seq<SoundEffect>,
)
    requires
        tick_stages(g0, g1, g2, g3, g4, g5, g6, g7, g8, g9, g10, g11, g12, h, s),
    ensures
        g0.portal_active ==> g2.portal_active && g5 == g4 && h.portal_active,
        !g0.portal_active && g2.portal_active ==> g5.score == sat_u32(g4.score + PORTAL_BONUS),
        !g2.portal_active ==> g5 == g4,
        h.portal_active == g2.portal_active,
{
    if g0.portal_active {
        lemma_open_portal_stays(g2.balls@, g1.max_speed_sq as int, g1.balls@.len());
    }
    lemma_collided_keeps(g3, g4, g3.balls@.len());
    lemma_rockets_keep(g5, g6, g5.rockets@.len());
    lemma_bonuses_keep(g6, g7, g6.bonuses@.len());
}

/// With a single ball, the collision stage of a tick is that ball's paddle
/// collision followed by its block collisions: in particular the first touched
/// block takes its hit (or, in ghost mode, every touched block does), with the
/// bounce, the blasts and the score of `block_hit_rel`.
pub proof fn lemma_single_ball_collisions(g3: Game, g4: Game)
    requires
        g3.balls@.len() == 1,
        collided_upto(g3, g4, 1),
    ensures
        exists|b: Game| #[trigger] paddle_hit_rel(g3, b, 0) && block_hit_rel(b, g4, 0),
{
    let (a, b) = choose|a: Game, b: Game|
        #![trigger paddle_hit_rel(a, b, 0)]
        collided_upto(g3, a, 0) && paddle_hit_rel(a, b, 0) && block_hit_rel(b, g4, 0);
    assert(a == g3);
    assert(paddle_hit_rel(g3, b, 0) && block_hit_rel(b, g4, 0));
}

} // verus!
