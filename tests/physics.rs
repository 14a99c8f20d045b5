use brickbreaker::entities::{
    Ball, Block, BlockType, BonusType, Color, Paddle, BALL_X_MAX, FIELD_BOTTOM, ICE_HEALTH,
};
use brickbreaker::game::{Game, GameState, SoundEffect, MAX_LIVES};
use brickbreaker::geometry::{check_collision, intersection, Rect};
use brickbreaker::physics::{
    bonus_kind_for, drop_passes, explode_at, hit_block, score_after_life_loss, BLOCK_SCORE,
};

fn flying_ball(x: i64, y: i64, vx: i64, vy: i64) -> Ball {
    let mut b = Ball::new(x, y);
    b.attached_to_paddle = false;
    b.vel_x = vx;
    b.vel_y = vy;
    b
}

fn red() -> Color {
    Color::new(255, 0, 0)
}

/// A session in play on level 1 with the given blocks and no balls.
fn game_with_blocks(blocks: Vec<Block>) -> Game {
    let mut g = Game::new_level(1);
    g.state = GameState::Playing;
    g.blocks = blocks;
    g.balls.clear();
    g
}

#[test]
fn rectangles_intersect() {
    let a = Rect::new(0, 0, 10, 10);
    let b = Rect::new(5, 8, 10, 10);
    let o = intersection(a, b).unwrap();
    assert_eq!((o.x, o.y, o.w, o.h), (5, 8, 5, 2));
    assert!(check_collision(a, b));
    assert!(!check_collision(a, Rect::new(10, 0, 5, 5)));
    assert!(intersection(a, Rect::new(0, 10, 5, 5)).is_none());
}

#[test]
fn ball_stays_inside_walls_for_a_thousand_ticks() {
    let starts = [(10_000, 30_000, 9_000, -7_000), (126_000, 100, -3_000, -9_999), (500, 500, 0, -1), (60_000, 40_000, 10_000, 10_000)];
    for &(x, y, vx, vy) in &starts {
        let mut b = flying_ball(x, y, vx, vy);
        b.spin = 50_000;
        for _ in 0..1000 {
            if !b.active {
                break;
            }
            b.update(false);
            assert!(0 <= b.x && b.x <= BALL_X_MAX, "x = {}", b.x);
            assert!(b.y >= 0);
            if b.active {
                assert!(b.y < FIELD_BOTTOM);
            }
        }
    }
}

#[test]
fn ball_reflects_off_left_wall_and_keeps_horizontal_speed() {
    let mut b = flying_ball(100, 30_000, -500, 0);
    b.update(false);
    assert_eq!(b.x, 0);
    assert_eq!(b.vel_x, 500);
    let mut slow = flying_ball(50_000, 30_000, 50, -400);
    slow.update(false);
    assert_eq!(slow.vel_x, 200);
    assert_eq!(slow.x, 50_050);
}

#[test]
fn ball_leaves_through_the_bottom() {
    let mut b = flying_ball(50_000, 71_900, 300, 400);
    b.update(false);
    assert!(!b.active);
}

#[test]
fn attached_ball_launches_once_after_countdown() {
    let mut g = Game::new_level(1);
    g.state = GameState::Playing;
    let mut launches = 0;
    let mut was_attached = g.balls[0].attached_to_paddle;
    assert!(was_attached);
    for tick in 1..=40 {
        g.update();
        let attached = g.balls[0].attached_to_paddle;
        if was_attached && !attached {
            launches += 1;
            assert_eq!(tick, 31);
            assert_eq!(g.balls[0].vel_y, -400);
            assert!([-400, 0, 400].contains(&g.balls[0].vel_x));
        }
        assert!(!(attached && !was_attached));
        was_attached = attached;
    }
    assert_eq!(launches, 1);
}

#[test]
fn hits_by_block_kind() {
    let mut normal = Block::new(0, 0, red(), BlockType::Normal);
    assert!(hit_block(&mut normal));
    assert!(!normal.active);
    assert_eq!(normal.health, 1);

    let mut ice = Block::new(0, 0, red(), BlockType::Ice);
    assert_eq!(ice.health, ICE_HEALTH);
    assert!(!hit_block(&mut ice));
    assert!(ice.active);
    assert_eq!(ice.health, ICE_HEALTH - 1);
    assert!(hit_block(&mut ice));
    assert!(!ice.active);

    let mut wall = Block::new(0, 0, red(), BlockType::Undestroyable);
    assert!(!hit_block(&mut wall));
    assert!(wall.active);

    let mut boom = Block::new(0, 0, red(), BlockType::Explosive);
    assert!(hit_block(&mut boom));
    assert!(!boom.active);
}

#[test]
fn top_hit_reverses_vertical_velocity() {
    // block at (340, 120); the ball's rectangle enters its bottom edge by 3 pixels
    let mut g = game_with_blocks(vec![Block::new(340, 120, red(), BlockType::Normal)]);
    g.balls.push(flying_ball(36_400, 13_700, 300, -400));
    let mut sounds = Vec::new();
    g.collide_ball_with_blocks(0, &mut sounds);
    assert!(!g.blocks[0].active);
    assert_eq!(g.balls[0].vel_y, 400);
    assert_eq!(g.balls[0].vel_x, 300);
    assert_eq!(g.balls[0].y, 14_000);
    assert_eq!(g.score, BLOCK_SCORE);
    assert_eq!(sounds, vec![SoundEffect::Bounce]);
}

#[test]
fn side_hit_reverses_horizontal_velocity() {
    // the ball's rectangle overlaps the block's left edge by 2 pixels, 12 tall
    let mut g = game_with_blocks(vec![Block::new(340, 120, red(), BlockType::Ice)]);
    g.balls.push(flying_ball(33_000, 12_400, 400, 300));
    let mut sounds = Vec::new();
    g.collide_ball_with_blocks(0, &mut sounds);
    assert!(g.blocks[0].active);
    assert_eq!(g.blocks[0].health, ICE_HEALTH - 1);
    assert_eq!(g.balls[0].vel_x, -400);
    assert_eq!(g.balls[0].vel_y, 300);
    assert_eq!(g.balls[0].x, 32_800);
    assert_eq!(g.score, 0);
    assert_eq!(sounds, vec![SoundEffect::BreakingGlass]);
}

#[test]
fn only_the_first_block_is_hit_outside_ghost_mode() {
    let blocks = vec![
        Block::new(340, 120, red(), BlockType::Normal),
        Block::new(340, 140, red(), BlockType::Normal),
    ];
    let mut g = game_with_blocks(blocks);
    g.balls.push(flying_ball(36_400, 13_400, 300, 400));
    let mut sounds = Vec::new();
    g.collide_ball_with_blocks(0, &mut sounds);
    assert_eq!(g.blocks.iter().filter(|b| !b.active).count(), 1);
    assert!(!g.blocks[0].active);
    assert_eq!(g.score, BLOCK_SCORE);
}

#[test]
fn ghost_ball_passes_through_every_touched_block() {
    let blocks = vec![
        Block::new(340, 120, red(), BlockType::Normal),
        Block::new(340, 140, red(), BlockType::Ice),
        Block::new(400, 120, red(), BlockType::Normal),
        Block::new(600, 300, red(), BlockType::Normal),
    ];
    let mut g = game_with_blocks(blocks);
    g.paddle.activate_ghost_bonus();
    // the ball's rectangle spans x 394..406, y 134..146: it touches the first three blocks
    g.balls.push(flying_ball(39_400, 13_400, 300, 400));
    let mut sounds = Vec::new();
    g.collide_ball_with_blocks(0, &mut sounds);
    assert!(!g.blocks[0].active);
    assert!(g.blocks[1].active);
    assert_eq!(g.blocks[1].health, ICE_HEALTH - 1);
    assert!(!g.blocks[2].active);
    assert!(g.blocks[3].active);
    assert_eq!((g.balls[0].x, g.balls[0].y), (39_400, 13_400));
    assert_eq!((g.balls[0].vel_x, g.balls[0].vel_y), (300, 400));
    assert_eq!(g.score, 2 * BLOCK_SCORE);
}

#[test]
fn explosive_block_destroys_its_neighbours() {
    // an Explosive block with Normal neighbours to its left, right and below, and
    // one Normal block out of reach
    let blocks = vec![
        Block::new(340, 120, red(), BlockType::Explosive),
        Block::new(280, 120, red(), BlockType::Normal),
        Block::new(400, 120, red(), BlockType::Normal),
        Block::new(340, 140, red(), BlockType::Normal),
        Block::new(700, 300, red(), BlockType::Normal),
    ];
    let mut g = game_with_blocks(blocks);
    g.balls.push(flying_ball(36_400, 12_500, 300, -400));
    let mut sounds = Vec::new();
    g.collide_ball_with_blocks(0, &mut sounds);
    assert!(g.blocks[..4].iter().all(|b| !b.active));
    assert!(g.blocks[4].active);
    assert_eq!(g.score, 4 * BLOCK_SCORE);
    assert!(sounds.contains(&SoundEffect::Explosion));
}

#[test]
fn explosion_counts_what_it_destroys() {
    let mut blocks = vec![
        Block::new(0, 0, red(), BlockType::Normal),
        Block::new(60, 0, red(), BlockType::Undestroyable),
        Block::new(200, 0, red(), BlockType::Normal),
    ];
    let n = explode_at(&mut blocks, 30, 10, 3600);
    assert_eq!(n, 2);
    assert!(!blocks[0].active && !blocks[1].active && blocks[2].active);
}

#[test]
fn life_loss_penalty_stops_at_zero() {
    assert_eq!(score_after_life_loss(10), 0);
    assert_eq!(score_after_life_loss(20), 0);
    assert_eq!(score_after_life_loss(75), 55);
    let mut g = Game::new_level(1);
    g.state = GameState::Playing;
    g.score = 10;
    let mut sounds = Vec::new();
    g.lose_life(&mut sounds);
    assert_eq!(g.score, 0);
    assert_eq!(g.lives, MAX_LIVES - 1);
    assert!(g.lost_life_this_level);
    assert_eq!(g.balls.len(), 2);
    assert!(g.balls[1].attached_to_paddle);
    assert_eq!(sounds, vec![SoundEffect::Oh]);
}

#[test]
fn losing_the_last_life_ends_the_game() {
    let mut g = Game::new_level(1);
    g.state = GameState::Playing;
    g.lives = 1;
    g.balls.clear();
    let sounds = g.update();
    assert_eq!(g.state, GameState::GameOver);
    assert_eq!(g.lives, 0);
    assert!(sounds.contains(&SoundEffect::Oh));
}

#[test]
fn dropped_ball_costs_a_life_and_respawns() {
    let mut g = Game::new_level(1);
    g.state = GameState::Playing;
    g.score = 30;
    g.balls[0] = flying_ball(50_000, 71_950, 300, 400);
    g.update();
    assert_eq!(g.lives, MAX_LIVES - 1);
    assert_eq!(g.score, 10);
    assert_eq!(g.balls.len(), 1);
    assert!(g.balls[0].attached_to_paddle);
    assert!(g.penguin.is_some());
}

#[test]
fn portal_opens_once_per_level() {
    let mut g = Game::new_level(1);
    g.state = GameState::Playing;
    // 60 pixels per tick is 3600 pixels per second
    let portal = 6_000i64 * 6_000;
    assert!(!g.observe_speed(1_000_000));
    assert!(!g.portal_active);
    assert!(g.observe_speed(portal));
    assert!(g.portal_active);
    assert!(!g.observe_speed(portal + 1));
    assert!(!g.observe_speed(2 * portal));
    assert!(g.portal_active);
    assert_eq!(g.max_speed_sq, 2 * portal);
    g.start_next_level();
    assert!(!g.portal_active);
    assert!(g.observe_speed(portal));
}

#[test]
fn paddle_hit_sends_the_ball_up_and_aims_it() {
    let mut g = game_with_blocks(Vec::new());
    // paddle at 570..710, y 670; the ball's centre is 30 pixels right of the paddle's centre
    g.balls.push(flying_ball(66_400, 66_000, 0, 400));
    let mut sounds = Vec::new();
    g.collide_ball_with_paddle(0, &mut sounds);
    assert_eq!(g.balls[0].vel_y, -400);
    assert_eq!(g.balls[0].vel_x, 300);
    assert_eq!(g.balls[0].spin, 60);
    assert_eq!(g.score, 5);
}

#[test]
fn paddle_moves_within_the_field() {
    let mut p = Paddle::new();
    assert_eq!(p.x, 570);
    p.set_x(-40);
    assert_eq!(p.x, 0);
    p.move_left();
    assert_eq!(p.x, 0);
    p.set_x(5000);
    assert_eq!(p.x, 1140);
    p.activate_long_bonus();
    assert_eq!(p.width, 180);
    p.move_right();
    assert_eq!(p.x, 1100);
    for _ in 0..300 {
        p.update();
    }
    assert_eq!(p.width, 140);
    assert_eq!(p.bonus_timer, 0);
}

#[test]
fn drops_and_their_kinds() {
    assert!(drop_passes(14, 60));
    assert!(!drop_passes(15, 60));
    assert!(!drop_passes(0, 59));
    assert_eq!(bonus_kind_for(0), BonusType::LongPaddle);
    assert_eq!(bonus_kind_for(49), BonusType::LongPaddle);
    assert_eq!(bonus_kind_for(50), BonusType::ExtraBall);
    assert_eq!(bonus_kind_for(75), BonusType::GhostBall);
    assert_eq!(bonus_kind_for(99), BonusType::Rocket);
}

#[test]
fn collected_power_ups_take_effect() {
    let mut g = game_with_blocks(Vec::new());
    g.apply_bonus(BonusType::Rocket);
    assert_eq!(g.paddle.rocket_ammo, 1);
    assert_eq!(g.fire_rocket(), Some(SoundEffect::Load));
    assert_eq!(g.paddle.rocket_ammo, 0);
    assert_eq!(g.rockets.len(), 1);
    assert_eq!(g.fire_rocket(), None);
    g.apply_bonus(BonusType::ExtraBall);
    assert_eq!(g.balls.len(), 1);
    g.apply_bonus(BonusType::GhostBall);
    assert_eq!(g.paddle.ghost_timer, 600);
}

#[test]
fn pause_toggles_only_between_play_and_pause() {
    let mut g = Game::new();
    g.toggle_pause();
    assert_eq!(g.state, GameState::SplashScreen);
    g.state = GameState::Playing;
    g.toggle_pause();
    assert_eq!(g.state, GameState::Paused);
    g.toggle_pause();
    assert_eq!(g.state, GameState::Playing);
    g.state = GameState::GameOver;
    g.toggle_pause();
    assert_eq!(g.state, GameState::GameOver);
}

#[test]
fn clearing_a_level_refunds_a_lost_life() {
    let mut g = game_with_blocks(vec![Block::new(340, 120, red(), BlockType::Undestroyable)]);
    g.balls.push(flying_ball(50_000, 40_000, 300, -400));
    g.lives = 2;
    g.lost_life_this_level = true;
    g.update();
    assert_eq!(g.state, GameState::LevelTransition);
    assert_eq!(g.lives, 3);
    g.current_level = 9;
    g.state = GameState::Playing;
    g.update();
    assert_eq!(g.state, GameState::Victory);
}

#[test]
fn continue_moves_through_the_holding_screens() {
    let mut g = Game::new();
    g.confirm();
    assert_eq!(g.state, GameState::Playing);
    g.confirm();
    assert_eq!(g.state, GameState::Playing);
    g.state = GameState::LevelTransition;
    g.score = 40;
    g.confirm();
    assert_eq!(g.state, GameState::Playing);
    assert_eq!(g.current_level, 2);
    assert_eq!(g.score, 40);
    assert_eq!(g.blocks.len(), 100);
    g.state = GameState::GameOver;
    g.confirm();
    assert_eq!((g.state, g.current_level, g.score, g.lives), (GameState::Playing, 1, 0, MAX_LIVES));
}

#[test]
fn portal_bonus_is_paid_once_through_the_tick() {
    let mut g = game_with_blocks(vec![Block::new(40, 80, red(), BlockType::Normal)]);
    // 60 pixels per tick sideways is 3600 pixels per second
    g.balls.push(flying_ball(60_000, 40_000, 6_000, -400));
    g.update();
    assert!(g.portal_active);
    assert!(g.score >= 5_000 && g.score < 5_100);
    let before = g.score;
    g.update();
    assert!(g.portal_active);
    assert!(g.score < before + 5_000);
}

#[test]
fn explosive_hit_through_the_tick() {
    let blocks = vec![
        Block::new(340, 120, red(), BlockType::Explosive),
        Block::new(280, 120, red(), BlockType::Normal),
        Block::new(400, 120, red(), BlockType::Normal),
        Block::new(340, 140, red(), BlockType::Normal),
        Block::new(700, 300, red(), BlockType::Normal),
    ];
    let mut g = game_with_blocks(blocks);
    // one tick of flight brings the ball's rectangle into the Explosive block only
    g.balls.push(flying_ball(36_400, 12_900, 300, -400));
    let sounds = g.update();
    assert!(g.blocks[..4].iter().all(|b| !b.active));
    assert!(g.blocks[4].active);
    assert_eq!(g.score, 4 * BLOCK_SCORE);
    assert_eq!(sounds.iter().filter(|&&c| c == SoundEffect::Explosion).count(), 1);
    assert_eq!(g.state, GameState::Playing);
}
