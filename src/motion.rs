use vstd::prelude::*;
use crate::geometry::{Vector, MAX_COMPONENT};
use crate::physics::Body;

verus! {

/// `r` is the integer square root of `n`, rounded down.
pub open spec fn is_floor_sqrt(r: nat, n: nat) -> bool {
    r * r <= n < (r + 1) * (r + 1)
}

pub open spec fn floor_sqrt(n: nat) -> nat {
    choose|r: nat| #[trigger] is_floor_sqrt(r, n)
}

/// The squared length of `v`.
pub open spec fn norm2(v: Vector) -> int {
    v.x * v.x + v.y * v.y
}

proof fn lemma_floor_sqrt_unique(r1: nat, r2: nat, n: nat)
    requires
        is_floor_sqrt(r1, n),
        is_floor_sqrt(r2, n),
    ensures
        r1 == r2,
{
    if r1 < r2 {
        assert((r1 + 1) * (r1 + 1) <= r2 * r2) by (nonlinear_arith)
            requires
                0 <= r1 + 1 <= r2,
        ;
    } else if r2 < r1 {
        assert((r2 + 1) * (r2 + 1) <= r1 * r1) by (nonlinear_arith)
            requires
                0 <= r2 + 1 <= r1,
        ;
    }
}

proof fn lemma_floor_sqrt_exists(n: nat)
    ensures
        exists|r: nat| #[trigger] is_floor_sqrt(r, n),
    decreases n,
{
    if n == 0 {
        assert(0nat * 0nat == 0 && (0nat + 1) * (0nat + 1) == 1) by (nonlinear_arith);
        assert(is_floor_sqrt(0, 0));
    } else {
        lemma_floor_sqrt_exists((n - 1) as nat);
        let r = choose|r: nat| #[trigger] is_floor_sqrt(r, (n - 1) as nat);
        if (r + 1) * (r + 1) <= n {
            assert((r + 2) * (r + 2) == (r + 1) * (r + 1) + 2 * r + 3) by (nonlinear_arith);
            assert(is_floor_sqrt(r + 1, n));
        } else {
            assert(is_floor_sqrt(r, n));
        }
    }
}

/// `floor_sqrt` is the integer square root, rounded down.
pub proof fn lemma_floor_sqrt(n: nat)
    ensures
        is_floor_sqrt(floor_sqrt(n), n),
{
    lemma_floor_sqrt_exists(n);
}

/// The integer square root of `n`, rounded down.
pub fn isqrt(n: u128) -> (r: u64)
    ensures
        r == floor_sqrt(n as nat),
{
    let mut lo: u128 = 0;
    let mut hi: u128 = 0x1_0000_0000_0000_0000;
    assert(hi * hi == 0x1_0000_0000_0000_0000int * 0x1_0000_0000_0000_0000int);
    while hi - lo > 1
        invariant
            lo < hi <= 0x1_0000_0000_0000_0000,
            lo * lo <= n,
            n < hi * hi,
        decreases hi - lo,
    {
        let mid: u128 = lo + (hi - lo) / 2;
        assert(mid * mid <= 0xffff_ffff_ffff_ffffu128 * 0xffff_ffff_ffff_ffffu128) by (nonlinear_arith)
            requires
                mid < 0x1_0000_0000_0000_0000,
        ;
        if mid * mid <= n {
            lo = mid;
        } else {
            hi = mid;
        }
    }
    proof {
        assert(hi == lo + 1);
        lemma_floor_sqrt(n as nat);
        lemma_floor_sqrt_unique(lo as nat, floor_sqrt(n as nat), n as nat);
    }
    lo as u64
}

/// The direction of `v` is too flat: its angle to the positive x axis lies in
/// `[0°, 30°)`, in `(150°, 180°]` or in `(-30°, 0°)`. Angles in
/// `(-180°, -150°)` are left alone, as the lower clamp bound of negative
/// angles is `-330°`.
pub open spec fn too_flat(v: Vector) -> bool {
    &&& v.x != 0
    &&& 3 * (v.y * v.y) < v.x * v.x
    &&& !(v.x < 0 && v.y < 0)
}

/// The velocity after angle correction: a too flat direction is turned to the
/// nearest allowed angle (30°, 150° or -30°), keeping the speed up to integer
/// rounding; any other velocity is kept. With `s` the speed rounded down, the
/// vertical part becomes `ceil(s / 2)` and the horizontal part the rest of
/// the speed, rounded down.
pub open spec fn corrected(v: Vector) -> Vector {
    if !too_flat(v) {
        v
    } else {
        let s = floor_sqrt(norm2(v) as nat);
        let b = (s + 1) / 2;
        let a = floor_sqrt((s * s - b * b) as nat);
        Vector {
            x: (if v.x > 0 { a as int } else { -a }) as i64,
            y: (if v.y >= 0 { b as int } else { -b }) as i64,
        }
    }
}

proof fn lemma_turned_parts(x: int, y: int, s: int, a: int, b: int)
    requires
        -MAX_COMPONENT <= x <= MAX_COMPONENT,
        -MAX_COMPONENT <= y <= MAX_COMPONENT,
        x != 0,
        3 * (y * y) < x * x,
        0 <= s,
        s * s <= x * x + y * y < (s + 1) * (s + 1),
        b == (s + 1) / 2,
        0 <= a,
        a * a <= s * s - b * b < (a + 1) * (a + 1),
    ensures
        1 <= s,
        0 <= b <= s,
        b <= MAX_COMPONENT,
        a < x || a < -x,
        a <= s,
        a * a <= 3 * (b * b),
        a * a + b * b <= x * x + y * y < a * a + b * b + 4 * s + 2,
{
    assert(1 <= x * x) by (nonlinear_arith)
        requires
            x != 0,
    ;
    assert(0 <= y * y) by (nonlinear_arith);
    assert(1 <= s) by (nonlinear_arith)
        requires
            0 <= s,
            1 <= x * x + y * y < (s + 1) * (s + 1),
    ;
    assert(b <= s);
    assert(s * s <= 4 * (b * b)) by (nonlinear_arith)
        requires
            0 <= s <= 2 * b,
    ;
    assert(4 * (a * a) < 4 * (x * x));
    assert(a < x || a < -x) by (nonlinear_arith)
        requires
            a * a < x * x,
            0 <= a,
    ;
    assert(a <= s) by (nonlinear_arith)
        requires
            a * a <= s * s,
            0 <= a,
            0 <= s,
    ;
    assert(x * x <= MAX_COMPONENT * MAX_COMPONENT) by (nonlinear_arith)
        requires
            -MAX_COMPONENT <= x <= MAX_COMPONENT,
    ;
    assert(b <= MAX_COMPONENT) by (nonlinear_arith)
        requires
            b == (s + 1) / 2,
            3 * (s * s) < 4 * (MAX_COMPONENT * MAX_COMPONENT),
            0 <= s,
    ;
    assert((s + 1) * (s + 1) == s * s + 2 * s + 1) by (nonlinear_arith);
    assert((a + 1) * (a + 1) == a * a + 2 * a + 1) by (nonlinear_arith);
}

fn magnitude(c: i64) -> (r: u128)
    ensures
        r == if c < 0 { -c } else { c as int },
{
    if c < 0 {
        (-(c as i128)) as u128
    } else {
        c as u128
    }
}

/// Turns a too flat velocity to the nearest allowed angle, keeping its speed
/// up to integer rounding; any other velocity is returned unchanged.
pub fn clamp_angle(v: Vector) -> (r: Vector)
    requires
        v.bounded(),
    ensures
        r == corrected(v),
        r.bounded(),
        !too_flat(r),
        norm2(r) <= norm2(v) < norm2(r) + 4 * floor_sqrt(norm2(v) as nat) + 2,
{
    let ax = magnitude(v.x);
    let ay = magnitude(v.y);
    proof {
        assert(ax * ax <= MAX_COMPONENT * MAX_COMPONENT) by (nonlinear_arith)
            requires
                0 <= ax <= MAX_COMPONENT,
        ;
        assert(ay * ay <= MAX_COMPONENT * MAX_COMPONENT) by (nonlinear_arith)
            requires
                0 <= ay <= MAX_COMPONENT,
        ;
        assert(ax * ax == v.x * v.x) by (nonlinear_arith)
            requires
                ax == v.x || ax == -v.x,
        ;
        assert(ay * ay == v.y * v.y) by (nonlinear_arith)
            requires
                ay == v.y || ay == -v.y,
        ;
    }
    if !(v.x != 0 && 3 * (ay * ay) < ax * ax && !(v.x < 0 && v.y < 0)) {
        return v;
    }
    let n: u128 = ax * ax + ay * ay;
    let s: u64 = isqrt(n);
    proof {
        lemma_floor_sqrt(n as nat);
    }
    let s2: u128 = (s as u128) * (s as u128);
    let b: u64 = s / 2 + s % 2;
    assert(b == (s + 1) / 2);
    assert(b * b <= s * s) by (nonlinear_arith)
        requires
            0 <= b <= s,
    ;
    let a: u64 = isqrt(s2 - (b as u128) * (b as u128));
    proof {
        lemma_floor_sqrt((s * s - b * b) as nat);
        lemma_turned_parts(v.x as int, v.y as int, s as int, a as int, b as int);
    }
    let x: i64 = if v.x > 0 {
        a as i64
    } else {
        -(a as i64)
    };
    let y: i64 = if v.y >= 0 {
        b as i64
    } else {
        -(b as i64)
    };
    let r = Vector { x, y };
    assert(norm2(r) == a * a + b * b && x * x == a * a && y * y == b * b) by (nonlinear_arith)
        requires
            x == a || x == -a,
            y == b || y == -b,
            norm2(r) == x * x + y * y,
    ;
    r
}

/// The angle correction never leaves a too flat direction, so applying it to
/// its own result changes nothing.
pub proof fn lemma_clamp_angle_idempotent(v: Vector)
    requires
        v.bounded(),
    ensures
        !too_flat(corrected(v)),
        corrected(corrected(v)) == corrected(v),
{
    if too_flat(v) {
        let s = floor_sqrt(norm2(v) as nat);
        let b = (s + 1) / 2;
        assert(0 <= norm2(v)) by (nonlinear_arith)
            requires
                norm2(v) == v.x * v.x + v.y * v.y,
        ;
        lemma_floor_sqrt(norm2(v) as nat);
        assert(b * b <= s * s) by (nonlinear_arith)
            requires
                0 <= b <= s,
        ;
        let a = floor_sqrt((s * s - b * b) as nat);
        lemma_floor_sqrt((s * s - b * b) as nat);
        lemma_turned_parts(v.x as int, v.y as int, s as int, a as int, b as int);
        let r = corrected(v);
        assert(r.x * r.x == a * a && r.y * r.y == b * b) by (nonlinear_arith)
            requires
                r.x == a || r.x == -a,
                r.y == b || r.y == -b,
        ;
    }
}

/// Applies the angle correction to a ball's velocity; its position is kept.
/// The new direction is never too flat, and the speed is kept up to rounding.
pub fn fix_ball_angle(ball: &mut Body)
    requires
        old(ball).velocity.bounded(),
    ensures
        final(ball).position == old(ball).position,
        final(ball).velocity == corrected(old(ball).velocity),
        final(ball).velocity.bounded(),
        !too_flat(final(ball).velocity),
        norm2(final(ball).velocity) <= norm2(old(ball).velocity) < norm2(final(ball).velocity) + 4
            * floor_sqrt(norm2(old(ball).velocity) as nat) + 2,
{
    ball.velocity = clamp_angle(ball.velocity);
}

pub open spec fn abs_int(i: int) -> int {
    if i < 0 {
        -i
    } else {
        i
    }
}

/// One component `c` of a vector with squared length `n`, rescaled to a
/// vector of length `speed`: `c * speed / sqrt(n)`, rounded toward zero. Its
/// magnitude is the integer square root of `c^2 * speed^2 / n`, which is
/// the same number, as rounding `x` down does not change `floor(sqrt(x))`.
pub open spec fn scaled(c: int, speed: int, n: int) -> int {
    let q = floor_sqrt(((c * c) * (speed * speed) / n) as nat) as int;
    if c < 0 {
        -q
    } else {
        q
    }
}

/// `v` rescaled to length `speed`, or zero if `v` is zero: each component is
/// multiplied by `speed` and divided by the exact length of `v`, rounding
/// toward zero.
pub open spec fn restored(v: Vector, speed: i64) -> Vector {
    if v.x == 0 && v.y == 0 {
        v
    } else {
        Vector {
            x: scaled(v.x as int, speed as int, norm2(v)) as i64,
            y: scaled(v.y as int, speed as int, norm2(v)) as i64,
        }
    }
}

/// The component `r` is `c * speed / sqrt(n)` rounded toward zero: the sign
/// of `c` (or zero), and `|r| <= |c| * speed / sqrt(n) < |r| + 1`, squared.
pub open spec fn scaled_within(r: int, c: int, speed: int, n: int) -> bool {
    &&& r * r * n <= (c * c) * (speed * speed) < (abs_int(r) + 1) * (abs_int(r) + 1) * n
    &&& c > 0 ==> r >= 0
    &&& c < 0 ==> r <= 0
    &&& c == 0 ==> r == 0
}

proof fn lemma_scaled(c: int, speed: int, n: int)
    requires
        0 <= speed,
        1 <= n,
        c * c <= n,
    ensures
        scaled_within(scaled(c, speed, n), c, speed, n),
        -speed <= scaled(c, speed, n) <= speed,
{
    let cc = c * c;
    let ss = speed * speed;
    assert(0 <= cc && 0 <= ss) by (nonlinear_arith)
        requires
            cc == c * c,
            ss == speed * speed,
    ;
    assert(0 <= cc * ss) by (nonlinear_arith)
        requires
            0 <= cc,
            0 <= ss,
    ;
    let m = (cc * ss) / n;
    assert(0 <= m * n <= cc * ss < (m + 1) * n && m <= ss) by (nonlinear_arith)
        requires
            m == (cc * ss) / n,
            1 <= n,
            0 <= cc <= n,
            0 <= ss,
            0 <= cc * ss,
    ;
    lemma_floor_sqrt(m as nat);
    let q = floor_sqrt(m as nat) as int;
    assert(q * q * n <= m * n) by (nonlinear_arith)
        requires
            q * q <= m,
            1 <= n,
    ;
    assert((m + 1) * n <= (q + 1) * (q + 1) * n) by (nonlinear_arith)
        requires
            m < (q + 1) * (q + 1),
            1 <= n,
    ;
    assert(q <= speed) by (nonlinear_arith)
        requires
            q * q <= ss,
            ss == speed * speed,
            0 <= q,
            0 <= speed,
    ;
    if c == 0 {
        assert(cc * ss == 0) by (nonlinear_arith)
            requires
                cc == c * c,
                c == 0,
        ;
        assert(m == 0);
        assert(q == 0) by (nonlinear_arith)
            requires
                q * q <= 0,
                0 <= q,
        ;
    }
    let r = scaled(c, speed, n);
    assert(r * r == q * q) by (nonlinear_arith)
        requires
            r == q || r == -q,
    ;
}

fn scale_component(c: i64, speed: i64, n: u128) -> (r: i64)
    requires
        -MAX_COMPONENT <= c <= MAX_COMPONENT,
        0 <= speed <= MAX_COMPONENT,
        1 <= n,
        c * c <= n,
    ensures
        r == scaled(c as int, speed as int, n as int),
{
    let m = magnitude(c);
    proof {
        lemma_scaled(c as int, speed as int, n as int);
        assert(m * m <= MAX_COMPONENT * MAX_COMPONENT) by (nonlinear_arith)
            requires
                0 <= m <= MAX_COMPONENT,
        ;
        assert(speed * speed <= MAX_COMPONENT * MAX_COMPONENT) by (nonlinear_arith)
            requires
                0 <= speed <= MAX_COMPONENT,
        ;
        assert(m * m == c * c) by (nonlinear_arith)
            requires
                m == c || m == -c,
        ;
    }
    let mm: u128 = m * m;
    let ss: u128 = (speed as u128) * (speed as u128);
    assert(mm * ss <= (MAX_COMPONENT * MAX_COMPONENT) * (MAX_COMPONENT * MAX_COMPONENT))
        by (nonlinear_arith)
        requires
            0 <= mm <= MAX_COMPONENT * MAX_COMPONENT,
            0 <= ss <= MAX_COMPONENT * MAX_COMPONENT,
    ;
    let q: u64 = isqrt(mm * ss / n);
    if c < 0 {
        -(q as i64)
    } else {
        q as i64
    }
}

/// Rescales `v` to length `speed`, keeping its direction; a zero vector stays
/// zero. Each component is `c * speed / |v|` rounded toward zero, so the
/// result's length is at most `speed`, and moving each component one unit
/// away from zero would make it longer than `speed`.
pub fn restore_speed(v: Vector, speed: i64) -> (r: Vector)
    requires
        v.bounded(),
        0 <= speed <= MAX_COMPONENT,
    ensures
        r == restored(v, speed),
        r.bounded(),
        v.x == 0 && v.y == 0 ==> r == v,
        !(v.x == 0 && v.y == 0) ==> {
            &&& scaled_within(r.x as int, v.x as int, speed as int, norm2(v))
            &&& scaled_within(r.y as int, v.y as int, speed as int, norm2(v))
            &&& norm2(r) <= speed * speed
            &&& speed * speed < (abs_int(r.x as int) + 1) * (abs_int(r.x as int) + 1) + (abs_int(
                r.y as int,
            ) + 1) * (abs_int(r.y as int) + 1)
        },
{
    proof {
        lemma_restore_speed(v, speed);
    }
    if v.x == 0 && v.y == 0 {
        return v;
    }
    let ax = magnitude(v.x);
    let ay = magnitude(v.y);
    proof {
        assert(ax * ax <= MAX_COMPONENT * MAX_COMPONENT && ay * ay <= MAX_COMPONENT * MAX_COMPONENT)
            by (nonlinear_arith)
            requires
                0 <= ax <= MAX_COMPONENT,
                0 <= ay <= MAX_COMPONENT,
        ;
        assert(ax * ax == v.x * v.x && ay * ay == v.y * v.y) by (nonlinear_arith)
            requires
                ax == v.x || ax == -v.x,
                ay == v.y || ay == -v.y,
        ;
        assert(0 <= v.y * v.y && 0 <= v.x * v.x) by (nonlinear_arith);
        assert(1 <= norm2(v)) by (nonlinear_arith)
            requires
                v.x != 0 || v.y != 0,
                norm2(v) == v.x * v.x + v.y * v.y,
        ;
    }
    let n: u128 = ax * ax + ay * ay;
    Vector { x: scale_component(v.x, speed, n), y: scale_component(v.y, speed, n) }
}

/// Speed restoration leaves a zero velocity zero. Otherwise each component
/// keeps the sign of the input's (or becomes zero) and is the input's
/// component times `speed / |v|`, rounded toward zero; so the result is at
/// most `speed` long, and short of it by less than one unit per component.
pub proof fn lemma_restore_speed(v: Vector, speed: i64)
    requires
        v.bounded(),
        0 <= speed <= MAX_COMPONENT,
    ensures
        v.x == 0 && v.y == 0 ==> restored(v, speed) == v,
        !(v.x == 0 && v.y == 0) ==> {
            let r = restored(v, speed);
            &&& scaled_within(r.x as int, v.x as int, speed as int, norm2(v))
            &&& scaled_within(r.y as int, v.y as int, speed as int, norm2(v))
            &&& r.bounded()
            &&& norm2(r) <= speed * speed
            &&& speed * speed < (abs_int(r.x as int) + 1) * (abs_int(r.x as int) + 1) + (abs_int(
                r.y as int,
            ) + 1) * (abs_int(r.y as int) + 1)
        },
{
    if !(v.x == 0 && v.y == 0) {
        let n = norm2(v);
        assert(0 <= v.y * v.y && 0 <= v.x * v.x) by (nonlinear_arith);
        assert(1 <= n) by (nonlinear_arith)
            requires
                v.x != 0 || v.y != 0,
                n == v.x * v.x + v.y * v.y,
        ;
        lemma_scaled(v.x as int, speed as int, n);
        lemma_scaled(v.y as int, speed as int, n);
        let r = restored(v, speed);
        let sx = (abs_int(r.x as int) + 1) * (abs_int(r.x as int) + 1);
        let sy = (abs_int(r.y as int) + 1) * (abs_int(r.y as int) + 1);
        let ss = speed * speed;
        assert(norm2(r) <= ss) by (nonlinear_arith)
            requires
                r.x * r.x * n <= (v.x * v.x) * ss,
                r.y * r.y * n <= (v.y * v.y) * ss,
                norm2(r) == r.x * r.x + r.y * r.y,
                n == v.x * v.x + v.y * v.y,
                1 <= n,
        ;
        assert(ss < sx + sy) by (nonlinear_arith)
            requires
                (v.x * v.x) * ss < sx * n,
                (v.y * v.y) * ss < sy * n,
                n == v.x * v.x + v.y * v.y,
                1 <= n,
        ;
    }
}

/// The speed a body is held at after every physics step.
#[derive(Clone, Copy, Debug, PartialEq, Eq, Structural)]
pub struct FixedSpeed(pub i64);

impl FixedSpeed {
    pub open spec fn wf(self) -> bool {
        0 <= self.0 <= MAX_COMPONENT
    }
}


/// Restores a body's configured fixed speed after a physics step.
pub fn restore_fixed_speed(body: &mut Body, speed: &FixedSpeed)
    requires
        old(body).velocity.bounded(),
        speed.wf(),
    ensures
        final(body).position == old(body).position,
        final(body).velocity == restored(old(body).velocity, speed.0),
        final(body).velocity.bounded(),
{
    body.velocity = restore_speed(body.velocity, speed.0);
}

} // verus!
