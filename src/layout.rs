use vstd::prelude::*;
use crate::geometry::{ScreenBounds, Vector, MAX_COMPONENT};
use crate::motion::{restore_speed, restored};

verus! {

/// Both components of the ball's starting direction, up and to the right;
/// large, so that rescaling it to the ball's speed loses little to rounding.
pub const DIAGONAL: i64 = 1073741824;

/// Sizes (in world units) and speeds (in world units per time unit) of the
/// game's pieces.
#[derive(Clone, Copy, Debug, PartialEq, Eq, Structural)]
pub struct GameConfig {
    pub ball_size: i64,
    pub paddle_length: i64,
    pub wall_thickness: i64,
    pub ball_speed: i64,
    pub paddle_speed: i64,
}

impl GameConfig {
    /// All values are non-negative, the paddle's offset from the floor fits,
    /// and the speeds are valid velocity components.
    pub open spec fn wf(self) -> bool {
        &&& 0 <= self.ball_size
        &&& 3 * self.ball_size <= i64::MAX
        &&& 0 <= self.paddle_length
        &&& 0 <= self.wall_thickness
        &&& 0 <= self.ball_speed <= MAX_COMPONENT
        &&& 0 <= self.paddle_speed <= MAX_COMPONENT
    }

    /// The game's standard setup at `units_per_pixel` world units per pixel: a
    /// 30 pixel ball, a 150 pixel paddle, walls as thick as the ball, a ball
    /// speed of 750 and a paddle speed of 1000 pixels per second.
    pub fn standard(units_per_pixel: u16) -> (r: GameConfig)
        ensures
            r.wf(),
            r.ball_size == 30 * units_per_pixel,
            r.paddle_length == 150 * units_per_pixel,
            r.wall_thickness == 30 * units_per_pixel,
            r.ball_speed == 750 * units_per_pixel,
            r.paddle_speed == 1000 * units_per_pixel,
    {
        let u = units_per_pixel as i64;
        GameConfig {
            ball_size: 30 * u,
            paddle_length: 150 * u,
            wall_thickness: 30 * u,
            ball_speed: 750 * u,
            paddle_speed: 1000 * u,
        }
    }
}

/// An axis-aligned box collider.
#[derive(Clone, Copy, Debug, PartialEq, Eq, Structural)]
pub struct Cuboid {
    pub center: Vector,
    pub half_extents: Vector,
}

/// A horizontal capsule collider: a segment of `2 * half_length` swept by a
/// disc of `radius`.
#[derive(Clone, Copy, Debug, PartialEq, Eq, Structural)]
pub struct Capsule {
    pub center: Vector,
    pub half_length: i64,
    pub radius: i64,
}

/// Where the pieces of the game start.
#[derive(Debug)]
pub struct Layout {
    /// Left, right, bottom and top wall, in that order.
    pub walls: Vec<Cuboid>,
    pub paddle: Capsule,
    pub ball_center: Vector,
    pub ball_radius: i64,
    pub ball_velocity: Vector,
}

pub open spec fn cuboid(cx: int, cy: int, hx: int, hy: int) -> Cuboid {
    Cuboid {
        center: Vector { x: cx as i64, y: cy as i64 },
        half_extents: Vector { x: hx as i64, y: hy as i64 },
    }
}

/// The four walls around the playfield, centred on the origin: the side walls
/// span the full height, the floor and ceiling stop one thickness short of the
/// sides on each end.
pub open spec fn walls_of(w: int, h: int, t: int) -> Seq<Cuboid> {
    seq![
        cuboid(-(w / 2) + t / 2, 0, t / 2, h / 2),
        cuboid(w / 2 - t / 2, 0, t / 2, h / 2),
        cuboid(0, -(h / 2) + t / 2, w / 2 - t, t / 2),
        cuboid(0, h / 2 - t / 2, w / 2 - t, t / 2),
    ]
}

pub fn wall_cuboid(cx: i64, cy: i64, hx: i64, hy: i64) -> (r: Cuboid)
    ensures
        r == cuboid(cx as int, cy as int, hx as int, hy as int),
{
    Cuboid { center: Vector { x: cx, y: cy }, half_extents: Vector { x: hx, y: hy } }
}

/// The walls, paddle and ball placed in `bounds`, the playfield seen by a
/// camera at the origin: the paddle lies three ball sizes above the floor's
/// edge, the ball starts at the origin and moves up and to the right at the
/// ball speed.
pub fn playfield_layout(bounds: &ScreenBounds, config: &GameConfig) -> (r: Layout)
    requires
        bounds.wf(),
        config.wf(),
    ensures
        r.walls@ == walls_of(bounds.spec_width(), bounds.spec_height(), config.wall_thickness as int),
        r.paddle.center.x == 0,
        r.paddle.center.y == -(bounds.spec_height() / 2) + 3 * config.ball_size,
        r.paddle.half_length == config.paddle_length / 2,
        r.paddle.radius == config.wall_thickness / 2,
        r.ball_center == Vector::new_spec(0, 0),
        r.ball_radius == config.ball_size / 2,
        r.ball_velocity == restored(Vector::new_spec(DIAGONAL, DIAGONAL), config.ball_speed),
{
    let hw = bounds.width() / 2;
    let hh = bounds.height() / 2;
    let t = config.wall_thickness;
    let mut walls: Vec<Cuboid> = Vec::new();
    walls.push(wall_cuboid(-hw + t / 2, 0, t / 2, hh));
    walls.push(wall_cuboid(hw - t / 2, 0, t / 2, hh));
    walls.push(wall_cuboid(0, -hh + t / 2, hw - t, t / 2));
    walls.push(wall_cuboid(0, hh - t / 2, hw - t, t / 2));
    assert(walls@ =~= walls_of(bounds.spec_width(), bounds.spec_height(), t as int));
    Layout {
        walls,
        paddle: Capsule {
            center: Vector { x: 0, y: -hh + 3 * config.ball_size },
            half_length: config.paddle_length / 2,
            radius: t / 2,
        },
        ball_center: Vector { x: 0, y: 0 },
        ball_radius: config.ball_size / 2,
        ball_velocity: restore_speed(Vector { x: DIAGONAL, y: DIAGONAL }, config.ball_speed),
    }
}

} // verus!
