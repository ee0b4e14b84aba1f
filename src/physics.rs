use vstd::prelude::*;
use crate::geometry::{ScreenBounds, Vector, MAX_COMPONENT};
use crate::sound::CollisionEvent;

verus! {

/// A moving entity (ball or paddle).
#[derive(Clone, Copy, Debug, PartialEq, Eq, Structural)]
pub struct Body {
    pub position: Vector,
    pub velocity: Vector,
}

/// Whether one axis bounces: below the lower bound and still moving down, or
/// at or above the upper bound and still moving up.
pub open spec fn axis_flips(pos: i64, vel: i64, lo: i64, hi: i64) -> bool {
    (pos < lo && vel < 0) || (pos >= hi && vel > 0)
}

/// The velocity component after the bounce check of one axis.
pub open spec fn axis_bounced(pos: i64, vel: i64, lo: i64, hi: i64) -> int {
    if axis_flips(pos, vel, lo, hi) {
        -vel
    } else {
        vel as int
    }
}

pub open spec fn x_flips(bounds: ScreenBounds, b: Body) -> bool {
    axis_flips(b.position.x, b.velocity.x, bounds.bottom_left.x, bounds.top_right.x)
}

pub open spec fn y_flips(bounds: ScreenBounds, b: Body) -> bool {
    axis_flips(b.position.y, b.velocity.y, bounds.bottom_left.y, bounds.top_right.y)
}

/// The number of collision notifications that one detection pass raises.
pub open spec fn bounce_count(bounds: ScreenBounds, b: Body) -> nat {
    (if x_flips(bounds, b) { 1nat } else { 0nat }) + (if y_flips(bounds, b) { 1nat } else { 0nat })
}

/// The body after one detection pass: each axis checked on its own.
pub open spec fn bounced(bounds: ScreenBounds, b: Body) -> Body {
    Body {
        position: b.position,
        velocity: Vector {
            x: axis_bounced(b.position.x, b.velocity.x, bounds.bottom_left.x, bounds.top_right.x)
                as i64,
            y: axis_bounced(b.position.y, b.velocity.y, bounds.bottom_left.y, bounds.top_right.y)
                as i64,
        },
    }
}

/// The position after moving for `dt` time units.
pub open spec fn moved_position(b: Body, dt: i64) -> (int, int) {
    (b.position.x + b.velocity.x * dt, b.position.y + b.velocity.y * dt)
}

/// Integration of `b` over `dt` stays within `i64`.
pub open spec fn can_move(b: Body, dt: i64) -> bool {
    &&& i64::MIN <= moved_position(b, dt).0 <= i64::MAX
    &&& i64::MIN <= moved_position(b, dt).1 <= i64::MAX
}

pub open spec fn moved(b: Body, dt: i64) -> Body {
    Body {
        position: Vector { x: moved_position(b, dt).0 as i64, y: moved_position(b, dt).1 as i64 },
        velocity: b.velocity,
    }
}

/// One physics tick of a body: move, then check the bounds.
pub open spec fn stepped(bounds: ScreenBounds, b: Body, dt: i64) -> Body {
    bounced(bounds, moved(b, dt))
}

/// A seq of `n` start notifications.
pub open spec fn starts(n: nat) -> Seq<CollisionEvent> {
    Seq::new(n, |i: int| CollisionEvent::Started)
}

/// Advances the body's position by `velocity * dt`, per axis.
pub fn integrate(body: &mut Body, dt: i64)
    requires
        can_move(*old(body), dt),
    ensures
        *final(body) == moved(*old(body), dt),
{
    proof {
        assert(-0x8000_0000_0000_0000int * 0x8000_0000_0000_0000int <= body.velocity.x * dt
            <= 0x8000_0000_0000_0000int * 0x8000_0000_0000_0000int) by (nonlinear_arith)
            requires
                i64::MIN <= body.velocity.x <= i64::MAX,
                i64::MIN <= dt <= i64::MAX,
        ;
        assert(-0x8000_0000_0000_0000int * 0x8000_0000_0000_0000int <= body.velocity.y * dt
            <= 0x8000_0000_0000_0000int * 0x8000_0000_0000_0000int) by (nonlinear_arith)
            requires
                i64::MIN <= body.velocity.y <= i64::MAX,
                i64::MIN <= dt <= i64::MAX,
        ;
    }
    let dx: i128 = (body.velocity.x as i128) * (dt as i128);
    let dy: i128 = (body.velocity.y as i128) * (dt as i128);
    body.position.x = (body.position.x as i128 + dx) as i64;
    body.position.y = (body.position.y as i128 + dy) as i64;
}

fn bounce_axis(pos: i64, vel: i64, lo: i64, hi: i64) -> (r: (i64, bool))
    requires
        -MAX_COMPONENT <= vel <= MAX_COMPONENT,
    ensures
        r.0 == axis_bounced(pos, vel, lo, hi),
        r.1 == axis_flips(pos, vel, lo, hi),
{
    if (pos < lo && vel < 0) || (pos >= hi && vel > 0) {
        (-vel, true)
    } else {
        (vel, false)
    }
}

/// One detection pass: flips each velocity component whose axis is out of
/// bounds in the direction of travel, and returns how many flipped.
pub fn bounce(bounds: &ScreenBounds, body: &mut Body) -> (n: u32)
    requires
        old(body).velocity.bounded(),
    ensures
        *final(body) == bounced(*bounds, *old(body)),
        n == bounce_count(*bounds, *old(body)),
        final(body).velocity.bounded(),
{
    let (vx, fx) = bounce_axis(
        body.position.x,
        body.velocity.x,
        bounds.bottom_left.x,
        bounds.top_right.x,
    );
    let (vy, fy) = bounce_axis(
        body.position.y,
        body.velocity.y,
        bounds.bottom_left.y,
        bounds.top_right.y,
    );
    body.velocity = Vector { x: vx, y: vy };
    let mut n: u32 = 0;
    if fx {
        n = n + 1;
    }
    if fy {
        n = n + 1;
    }
    n
}

/// The number of notifications that one tick raises over all of `bodies`.
pub open spec fn total_bounces(bounds: ScreenBounds, bodies: Seq<Body>, dt: i64) -> nat
    decreases bodies.len(),
{
    if bodies.len() == 0 {
        0
    } else {
        total_bounces(bounds, bodies.drop_last(), dt) + bounce_count(
            bounds,
            moved(bodies.last(), dt),
        )
    }
}

/// Every body can take one tick: its velocity is bounded and its move fits.
pub open spec fn can_tick(bodies: Seq<Body>, dt: i64) -> bool {
    forall|i: int| 0 <= i < bodies.len() ==> bodies[i].velocity.bounded() && can_move(#[trigger] bodies[i], dt)
}

proof fn lemma_starts_add(a: nat, b: nat)
    ensures
        starts(a) + starts(b) == starts(a + b),
{
    assert(starts(a) + starts(b) =~= starts(a + b));
}

/// One physics tick: each body moves by `velocity * dt` and is then checked
/// against the bounds; one start notification is queued per flipped component.
pub fn physics_tick(
    bounds: &ScreenBounds,
    bodies: &mut Vec<Body>,
    dt: i64,
    events: &mut Vec<CollisionEvent>,
)
    requires
        can_tick(old(bodies)@, dt),
    ensures
        final(bodies)@ == Seq::new(old(bodies)@.len(), |i: int| stepped(*bounds, old(bodies)@[i], dt)),
        final(events)@ == old(events)@ + starts(total_bounces(*bounds, old(bodies)@, dt)),
{
    let ghost orig = bodies@;
    let ghost ev0 = events@;
    let n = bodies.len();
    let mut i: usize = 0;
    while i < n
        invariant
            0 <= i <= n,
            n == orig.len(),
            bodies@.len() == n,
            can_tick(orig, dt),
            forall|j: int| 0 <= j < i ==> bodies@[j] == stepped(*bounds, #[trigger] orig[j], dt),
            forall|j: int| i <= j < n ==> bodies@[j] == #[trigger] orig[j],
            events@ == ev0 + starts(total_bounces(*bounds, orig.take(i as int), dt)),
        decreases n - i,
    {
        let mut b = bodies[i];
        assert(b == orig[i as int]);
        integrate(&mut b, dt);
        let k = bounce(bounds, &mut b);
        bodies.set(i, b);
        let ghost before = events@;
        let mut c: u32 = 0;
        while c < k
            invariant
                0 <= c <= k,
                events@ == before + starts(c as nat),
            decreases k - c,
        {
            events.push(CollisionEvent::Started);
            proof {
                lemma_starts_add(c as nat, 1);
                assert(starts(1) =~= seq![CollisionEvent::Started]);
            }
            c = c + 1;
        }
        proof {
            assert(orig.take(i + 1).drop_last() =~= orig.take(i as int));
            assert(orig.take(i + 1).last() == orig[i as int]);
            lemma_starts_add(total_bounces(*bounds, orig.take(i as int), dt), k as nat);
        }
        i = i + 1;
    }
    proof {
        assert(orig.take(n as int) =~= orig);
        assert(bodies@ =~= Seq::new(orig.len(), |j: int| stepped(*bounds, orig[j], dt)));
    }
}

/// A tick in which every body ends its move inside the bounds moves each body
/// by exactly `velocity * dt`, keeps every velocity, and raises no notification.
pub proof fn lemma_tick_inside_no_bounce(bounds: ScreenBounds, bodies: Seq<Body>, dt: i64)
    requires
        can_tick(bodies, dt),
        forall|i: int| 0 <= i < bodies.len() ==> bounds.contains(#[trigger] moved(bodies[i], dt).position),
    ensures
        total_bounces(bounds, bodies, dt) == 0,
        forall|i: int| 0 <= i < bodies.len() ==> {
            &&& (#[trigger] stepped(bounds, bodies[i], dt)).position.x == bodies[i].position.x + bodies[i].velocity.x * dt
            &&& stepped(bounds, bodies[i], dt).position.y == bodies[i].position.y + bodies[i].velocity.y * dt
            &&& stepped(bounds, bodies[i], dt).velocity == bodies[i].velocity
        },
    decreases bodies.len(),
{
    if bodies.len() > 0 {
        let rest = bodies.drop_last();
        assert forall|i: int| 0 <= i < rest.len() implies bounds.contains(#[trigger] moved(rest[i], dt).position) by {
            assert(rest[i] == bodies[i]);
        }
        lemma_tick_inside_no_bounce(bounds, rest, dt);
        assert(bounds.contains(moved(bodies[bodies.len() - 1], dt).position));
    }
}

/// A body below the left edge and moving left turns right with the same speed
/// and raises one notification (when the vertical axis does not bounce too);
/// a second pass on the result raises none.
pub proof fn lemma_bounce_below_left(bounds: ScreenBounds, b: Body)
    requires
        bounds.wf(),
        b.velocity.bounded(),
        b.position.x < bounds.bottom_left.x,
        b.velocity.x < 0,
        !y_flips(bounds, b),
    ensures
        bounced(bounds, b).velocity.x == -b.velocity.x,
        bounced(bounds, b).velocity.x > 0,
        bounced(bounds, b).velocity.y == b.velocity.y,
        bounce_count(bounds, b) == 1,
        bounce_count(bounds, bounced(bounds, b)) == 0,
        bounced(bounds, bounced(bounds, b)) == bounced(bounds, b),
{
}

/// The upper bound is closed: a body exactly on the right edge and moving right
/// turns back and raises one notification (when the vertical axis does not
/// bounce too).
pub proof fn lemma_bounce_on_right_edge(bounds: ScreenBounds, b: Body)
    requires
        bounds.wf(),
        b.velocity.bounded(),
        b.position.x == bounds.top_right.x,
        b.velocity.x > 0,
        !y_flips(bounds, b),
    ensures
        bounced(bounds, b).velocity.x == -b.velocity.x,
        bounced(bounds, b).velocity.y == b.velocity.y,
        bounce_count(bounds, b) == 1,
{
}

/// A body out of bounds on both axes and moving outward on both flips both
/// velocity components and raises two notifications in one pass.
pub proof fn lemma_bounce_corner(bounds: ScreenBounds, b: Body)
    requires
        bounds.wf(),
        b.velocity.bounded(),
        (b.position.x < bounds.bottom_left.x && b.velocity.x < 0) || (b.position.x
            >= bounds.top_right.x && b.velocity.x > 0),
        (b.position.y < bounds.bottom_left.y && b.velocity.y < 0) || (b.position.y
            >= bounds.top_right.y && b.velocity.y > 0),
    ensures
        bounced(bounds, b).velocity.x == -b.velocity.x,
        bounced(bounds, b).velocity.y == -b.velocity.y,
        bounce_count(bounds, b) == 2,
{
}

} // verus!
