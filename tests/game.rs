use pong::geometry::{ScreenBounds, Vector};
use pong::input::{paddle_direction, paddle_input, paddle_velocity};
use pong::layout::{playfield_layout, Capsule, Cuboid, GameConfig};
use pong::motion::{clamp_angle, fix_ball_angle, isqrt, restore_fixed_speed, restore_speed, FixedSpeed};
use pong::physics::{bounce, integrate, physics_tick, Body};
use pong::sound::{play_collision_sound, CollisionEvent};

fn square(lo: i64, hi: i64) -> ScreenBounds {
    ScreenBounds { bottom_left: Vector::new(lo, lo), top_right: Vector::new(hi, hi) }
}

fn body(px: i64, py: i64, vx: i64, vy: i64) -> Body {
    Body { position: Vector::new(px, py), velocity: Vector::new(vx, vy) }
}

#[test]
fn bounds_from_window_are_centred_on_camera() {
    let b = ScreenBounds::from_window(Vector::new(0, 0), 800, 600, 1000);
    assert_eq!(b.bottom_left, Vector::new(-400000, -300000));
    assert_eq!(b.top_right, Vector::new(400000, 300000));
    assert_eq!(b.width(), 800000);
    assert_eq!(b.height(), 600000);
    let c = ScreenBounds::from_window(Vector::new(10, -20), 3, 5, 2);
    assert_eq!(c.bottom_left, Vector::new(7, -25));
    assert_eq!(c.top_right, Vector::new(13, -15));
    let odd = ScreenBounds::from_window(Vector::new(0, 0), 3, 1, 1);
    assert_eq!(odd.bottom_left, Vector::new(-1, 0));
    assert_eq!(odd.top_right, Vector::new(2, 1));
    assert_eq!(odd.width(), 3);
    assert_eq!(odd.height(), 1);
}

#[test]
fn integrate_adds_velocity_times_step() {
    let mut b = body(10, -10, 3, -4);
    integrate(&mut b, 7);
    assert_eq!(b, body(31, -38, 3, -4));
}

#[test]
fn tick_inside_moves_exactly_without_notification() {
    let bounds = square(-100, 100);
    let mut bodies = vec![body(0, 0, 3, -4), body(-50, 50, -1, 2)];
    let mut events = Vec::new();
    physics_tick(&bounds, &mut bodies, 5, &mut events);
    assert_eq!(bodies, vec![body(15, -20, 3, -4), body(-55, 60, -1, 2)]);
    assert!(events.is_empty());
}

#[test]
fn tick_moves_before_detecting() {
    let bounds = square(-100, 100);
    let mut bodies = vec![body(95, 0, 2, 0)];
    let mut events = vec![CollisionEvent::Stopped];
    physics_tick(&bounds, &mut bodies, 5, &mut events);
    assert_eq!(bodies, vec![body(105, 0, -2, 0)]);
    assert_eq!(events, vec![CollisionEvent::Stopped, CollisionEvent::Started]);
}

#[test]
fn bounce_below_left_flips_once() {
    let bounds = square(0, 100);
    let mut b = body(-1, 50, -7, 3);
    assert_eq!(bounce(&bounds, &mut b), 1);
    assert_eq!(b.velocity, Vector::new(7, 3));
    assert_eq!(bounce(&bounds, &mut b), 0);
    assert_eq!(b.velocity, Vector::new(7, 3));
}

#[test]
fn bounce_on_right_edge_is_inclusive() {
    let bounds = square(0, 100);
    let mut b = body(100, 50, 5, 0);
    assert_eq!(bounce(&bounds, &mut b), 1);
    assert_eq!(b.velocity, Vector::new(-5, 0));
    let mut on_left = body(0, 50, -5, 0);
    assert_eq!(bounce(&bounds, &mut on_left), 0);
    assert_eq!(on_left.velocity, Vector::new(-5, 0));
}

#[test]
fn bounce_corner_flips_both() {
    let bounds = square(0, 100);
    let mut b = body(-1, 101, -2, 3);
    assert_eq!(bounce(&bounds, &mut b), 2);
    assert_eq!(b.velocity, Vector::new(2, -3));
    let mut bodies = vec![body(0, 98, -2, 3)];
    let mut events = Vec::new();
    physics_tick(&bounds, &mut bodies, 1, &mut events);
    assert_eq!(bodies, vec![body(-2, 101, 2, -3)]);
    assert_eq!(events, vec![CollisionEvent::Started, CollisionEvent::Started]);
}

#[test]
fn bounce_ignores_inward_or_resting_bodies() {
    let bounds = square(0, 100);
    let mut resting = body(-5, 50, 0, 0);
    assert_eq!(bounce(&bounds, &mut resting), 0);
    assert_eq!(resting.velocity, Vector::new(0, 0));
    let mut inward = body(120, -3, -4, 6);
    assert_eq!(bounce(&bounds, &mut inward), 0);
    assert_eq!(inward.velocity, Vector::new(-4, 6));
}

#[test]
fn isqrt_rounds_down() {
    assert_eq!(isqrt(0), 0);
    assert_eq!(isqrt(1), 1);
    assert_eq!(isqrt(15), 3);
    assert_eq!(isqrt(16), 4);
    assert_eq!(isqrt(1010000), 1004);
    assert_eq!(isqrt(u128::MAX), 18446744073709551615);
}

#[test]
fn clamp_angle_turns_flat_directions() {
    assert_eq!(clamp_angle(Vector::new(1000, 0)), Vector::new(866, 500));
    assert_eq!(clamp_angle(Vector::new(-1000, 100)), Vector::new(-869, 502));
    assert_eq!(clamp_angle(Vector::new(1000, -100)), Vector::new(869, -502));
}

#[test]
fn clamp_angle_keeps_other_directions() {
    assert_eq!(clamp_angle(Vector::new(100, 1000)), Vector::new(100, 1000));
    assert_eq!(clamp_angle(Vector::new(-1000, -100)), Vector::new(-1000, -100));
    assert_eq!(clamp_angle(Vector::new(0, 0)), Vector::new(0, 0));
    assert_eq!(clamp_angle(Vector::new(-3, -700)), Vector::new(-3, -700));
}

#[test]
fn clamp_angle_is_idempotent() {
    let samples = [Vector::new(1000, 0), Vector::new(-1000, 100), Vector::new(7, -1), Vector::new(123456, 789)];
    for &v in samples.iter() {
        let once = clamp_angle(v);
        assert_eq!(clamp_angle(once), once);
        let before = v.x as i128 * v.x as i128 + v.y as i128 * v.y as i128;
        let after = once.x as i128 * once.x as i128 + once.y as i128 * once.y as i128;
        assert!(after <= before);
    }
}

#[test]
fn fix_ball_angle_keeps_position() {
    let mut ball = body(4, 5, 1000, 0);
    fix_ball_angle(&mut ball);
    assert_eq!(ball, body(4, 5, 866, 500));
}

#[test]
fn restore_speed_rescales() {
    assert_eq!(restore_speed(Vector::new(3, 4), 10), Vector::new(6, 8));
    assert_eq!(restore_speed(Vector::new(-3, 4), 1000), Vector::new(-600, 800));
    assert_eq!(restore_speed(Vector::new(0, -9), 750), Vector::new(0, -750));
}

#[test]
fn restore_speed_reaches_target_within_rounding() {
    let r = restore_speed(Vector::new(123456, -654321), 750000);
    assert_eq!(r, Vector::new(139055, -736996));
    let len2 = r.x as i128 * r.x as i128 + r.y as i128 * r.y as i128;
    let target = 750000i128 * 750000i128;
    assert!((len2 - target).abs() * 1000 < target);
}

#[test]
fn restore_speed_on_short_vectors() {
    assert_eq!(restore_speed(Vector::new(1, 1), 750), Vector::new(530, 530));
    assert_eq!(restore_speed(Vector::new(1000, 1000), 750), Vector::new(530, 530));
    assert_eq!(restore_speed(Vector::new(530, 530), 750), Vector::new(530, 530));
    let r = restore_speed(Vector::new(1, 2), 750);
    assert_eq!(r, Vector::new(335, 670));
    let len2 = r.x * r.x + r.y * r.y;
    assert!(len2 <= 750 * 750);
    assert!((r.x + 1) * (r.x + 1) + (r.y + 1) * (r.y + 1) > 750 * 750);
}

#[test]
fn restore_speed_leaves_zero() {
    assert_eq!(restore_speed(Vector::new(0, 0), 750), Vector::new(0, 0));
}

#[test]
fn restore_fixed_speed_keeps_position() {
    let mut ball = body(1, 2, 30, 40);
    restore_fixed_speed(&mut ball, &FixedSpeed(5));
    assert_eq!(ball, body(1, 2, 3, 4));
}

#[test]
fn sound_plays_once_for_many_starts() {
    let mut events = vec![CollisionEvent::Started, CollisionEvent::Stopped, CollisionEvent::Started];
    assert_eq!(play_collision_sound(&mut events), 1);
    assert!(events.is_empty());
    let mut one = vec![CollisionEvent::Started];
    assert_eq!(play_collision_sound(&mut one), 1);
}

#[test]
fn sound_silent_for_stops_only() {
    let mut events = vec![CollisionEvent::Stopped, CollisionEvent::Stopped];
    assert_eq!(play_collision_sound(&mut events), 0);
    assert!(events.is_empty());
    let mut none: Vec<CollisionEvent> = Vec::new();
    assert_eq!(play_collision_sound(&mut none), 0);
}

#[test]
fn paddle_velocity_from_keys() {
    assert_eq!(paddle_velocity(true, false, 1000), Vector::new(-1000, 0));
    assert_eq!(paddle_velocity(false, true, 1000), Vector::new(1000, 0));
    assert_eq!(paddle_velocity(true, true, 1000), Vector::new(0, 0));
    assert_eq!(paddle_velocity(false, false, 1000), Vector::new(0, 0));
    assert_eq!(paddle_direction(true, false), -1);
}

#[test]
fn paddle_input_sets_velocity_only() {
    let mut paddle = body(7, -3, 55, 66);
    paddle_input(&mut paddle, false, true, 1000);
    assert_eq!(paddle, body(7, -3, 1000, 0));
    paddle_input(&mut paddle, false, false, 1000);
    assert_eq!(paddle, body(7, -3, 0, 0));
}

#[test]
fn standard_config_scales_with_units() {
    let c = GameConfig::standard(1000);
    assert_eq!(c.ball_size, 30000);
    assert_eq!(c.paddle_length, 150000);
    assert_eq!(c.wall_thickness, 30000);
    assert_eq!(c.ball_speed, 750000);
    assert_eq!(c.paddle_speed, 1000000);
}

#[test]
fn layout_of_standard_playfield() {
    let bounds = ScreenBounds::from_window(Vector::new(0, 0), 800, 600, 1000);
    let l = playfield_layout(&bounds, &GameConfig::standard(1000));
    let wall = |cx, cy, hx, hy| Cuboid { center: Vector::new(cx, cy), half_extents: Vector::new(hx, hy) };
    assert_eq!(
        l.walls,
        vec![
            wall(-385000, 0, 15000, 300000),
            wall(385000, 0, 15000, 300000),
            wall(0, -285000, 370000, 15000),
            wall(0, 285000, 370000, 15000),
        ]
    );
    assert_eq!(l.paddle, Capsule { center: Vector::new(0, -210000), half_length: 75000, radius: 15000 });
    assert_eq!(l.ball_center, Vector::new(0, 0));
    assert_eq!(l.ball_radius, 15000);
    assert_eq!(l.ball_velocity, Vector::new(530330, 530330));
}
