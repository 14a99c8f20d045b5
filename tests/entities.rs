use brickbreaker::entities::{
    Ball, Bonus, BonusType, Color, Particle, Penguin, PenguinState, Rocket, LAUNCH_DELAY,
};

#[test]
fn particle_fades_and_dies() {
    let mut p = Particle::new(0, 0, 100, -200, Color::new(1, 2, 3));
    assert!(p.max_lifetime >= 20 && p.max_lifetime < 40);
    assert!(p.size >= 3 && p.size < 8);
    assert_eq!(p.alpha(), 255);
    p.update();
    assert_eq!((p.x, p.y, p.vel_y), (100, -200, -170));
    p.lifetime = p.max_lifetime / 2;
    assert!(p.alpha() > 100 && p.alpha() < 140);
    p.lifetime = p.max_lifetime;
    assert!(!p.is_alive());
    assert_eq!(p.alpha(), 0);
}

#[test]
fn power_ups_fall_and_rockets_climb() {
    let mut b = Bonus::new(100, 719, BonusType::GhostBall);
    b.update();
    assert_eq!(b.y, 721);
    assert!(!b.active);
    let mut r = Rocket::new(100, 5);
    r.update();
    assert_eq!(r.y, -3);
    assert!(!r.active);
}

#[test]
fn penguin_steals_a_heart() {
    let mut p = Penguin::new(120_000, 2_500);
    let mut ticks = 0;
    while p.state == PenguinState::WalkingIn {
        p.update();
        ticks += 1;
        assert!(ticks < 1000);
    }
    assert_eq!(p.state, PenguinState::Grabbing);
    assert_eq!((p.x, p.y), (120_000, 2_500));
    for _ in 0..30 {
        p.update();
    }
    assert_eq!(p.state, PenguinState::RunningAway);
    while !p.is_done() {
        p.update();
        ticks += 1;
        assert!(ticks < 2000);
    }
    assert!(p.x > 138_000 || p.y > 82_000);
}

#[test]
fn launch_picks_one_of_three_directions() {
    for _ in 0..20 {
        let mut b = Ball::new(1000, 1000);
        assert_eq!(b.launch_timer, LAUNCH_DELAY);
        b.launch();
        assert!(!b.attached_to_paddle);
        assert_eq!(b.vel_y, -400);
        assert!([-400, 0, 400].contains(&b.vel_x));
    }
    let mut b = Ball::new(1000, 1000);
    b.launch_in_direction(0);
    assert_eq!(b.vel_x, -400);
    b.launch_in_direction(2);
    assert_eq!(b.vel_x, -400);
}

#[test]
fn fast_ball_leaves_a_trail() {
    let mut b = Ball::new(50_000, 40_000);
    b.attached_to_paddle = false;
    b.vel_x = 3_000;
    b.vel_y = 1_000;
    for _ in 0..30 {
        b.update(false);
    }
    assert!(b.trail_positions.len() <= 20 && b.trail_positions.len() > 8);
    b.vel_x = 200;
    b.vel_y = 100;
    b.update(false);
    assert!(b.trail_positions.is_empty());
}
