use vstd::prelude::*;

verus! {

/// Largest magnitude allowed for one velocity component, so that negating
/// components, and multiplying the squares of two of them, can never
/// overflow.
pub const MAX_COMPONENT: i64 = 2147483648;

/// A 2D vector in world units.
#[derive(Clone, Copy, Debug, PartialEq, Eq, Structural)]
pub struct Vector {
    pub x: i64,
    pub y: i64,
}

impl Vector {
    pub fn new(x: i64, y: i64) -> (r: Vector)
        ensures
            r.x == x,
            r.y == y,
    {
        Vector { x, y }
    }

    pub open spec fn new_spec(x: i64, y: i64) -> Vector {
        Vector { x, y }
    }

    /// Both components lie within `[-MAX_COMPONENT, MAX_COMPONENT]`.
    pub open spec fn bounded(self) -> bool {
        -MAX_COMPONENT <= self.x <= MAX_COMPONENT && -MAX_COMPONENT <= self.y <= MAX_COMPONENT
    }
}

/// The playfield rectangle, fixed once at startup.
#[derive(Clone, Copy, Debug, PartialEq, Eq, Structural)]
pub struct ScreenBounds {
    pub bottom_left: Vector,
    pub top_right: Vector,
}

impl ScreenBounds {
    /// The corners are ordered and the extents fit in an `i64`.
    pub open spec fn wf(self) -> bool {
        &&& self.bottom_left.x <= self.top_right.x
        &&& self.bottom_left.y <= self.top_right.y
        &&& self.top_right.x - self.bottom_left.x <= i64::MAX
        &&& self.top_right.y - self.bottom_left.y <= i64::MAX
    }

    pub open spec fn spec_width(self) -> int {
        self.top_right.x - self.bottom_left.x
    }

    pub open spec fn spec_height(self) -> int {
        self.top_right.y - self.bottom_left.y
    }

    pub fn width(&self) -> (r: i64)
        requires
            self.wf(),
        ensures
            r == self.spec_width(),
    {
        self.top_right.x - self.bottom_left.x
    }

    pub fn height(&self) -> (r: i64)
        requires
            self.wf(),
        ensures
            r == self.spec_height(),
    {
        self.top_right.y - self.bottom_left.y
    }

    /// The rectangle seen by a camera centred on `center` through a window of
    /// `width` by `height` pixels, each pixel `units_per_pixel` world units wide.
    /// Where an extent is odd, the half below or left of the centre is the
    /// smaller one, rounded down.
    pub fn from_window(center: Vector, width: u32, height: u32, units_per_pixel: u16) -> (r:
        ScreenBounds)
        requires
            center.bounded(),
        ensures
            r.wf(),
            r.bottom_left.x == center.x - width * units_per_pixel / 2,
            r.bottom_left.y == center.y - height * units_per_pixel / 2,
            r.top_right.x == r.bottom_left.x + width * units_per_pixel,
            r.top_right.y == r.bottom_left.y + height * units_per_pixel,
            r.spec_width() == width * units_per_pixel,
            r.spec_height() == height * units_per_pixel,
    {
        proof {
            assert(0 <= width * units_per_pixel <= 0xffff_ffffnat * 0xffffnat) by (nonlinear_arith);
            assert(0 <= height * units_per_pixel <= 0xffff_ffffnat * 0xffffnat) by (nonlinear_arith);
        }
        let full_w: i64 = (width as i64) * (units_per_pixel as i64);
        let full_h: i64 = (height as i64) * (units_per_pixel as i64);
        let left: i64 = center.x - full_w / 2;
        let bottom: i64 = center.y - full_h / 2;
        ScreenBounds {
            bottom_left: Vector { x: left, y: bottom },
            top_right: Vector { x: left + full_w, y: bottom + full_h },
        }
    }

    /// The position lies in the half-open rectangle `[bottom_left, top_right)`,
    /// where no bounce is ever detected.
    pub open spec fn contains(self, p: Vector) -> bool {
        self.bottom_left.x <= p.x < self.top_right.x && self.bottom_left.y <= p.y < self.top_right.y
    }
}

} // verus!
