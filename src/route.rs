use vstd::prelude::*;

verus! {

/// Largest absolute world coordinate a waypoint may have. World coordinates
/// are integers in a unit that the host chooses (a thousandth of a canvas
/// pixel, say), so that interpolation and projection are exact.
pub const WORLD_LIMIT: i64 = 1_000_000_000_000;

/// Number of fraction units that make up one whole segment between two
/// waypoints: progress along a segment is held in millionths.
pub const FRACTION_ONE: u32 = 1_000_000;

/// Bus-like or train-like; decides spawn density and drawing style.
#[derive(Clone, Copy, Debug, PartialEq, Eq, Structural)]
pub enum VehicleType {
    Bus,
    Train,
}

/// A point in world units.
#[derive(Clone, Copy, Debug, PartialEq, Eq, Structural)]
pub struct Waypoint {
    pub x: i64,
    pub y: i64,
}

/// An ordered chain of waypoints that vehicles travel back and forth.
#[derive(Debug)]
pub struct Route {
    pub id: usize,
    pub kind: VehicleType,
    pub waypoints: Vec<Waypoint>,
}

pub open spec fn in_world(p: Waypoint) -> bool {
    -WORLD_LIMIT <= p.x <= WORLD_LIMIT && -WORLD_LIMIT <= p.y <= WORLD_LIMIT
}

pub open spec fn waypoints_in_world(ws: Seq<Waypoint>) -> bool {
    forall|i: int| 0 <= i < ws.len() ==> #[trigger] in_world(ws[i])
}

impl Route {
    /// Every waypoint lies inside the world.
    pub open spec fn wf(&self) -> bool {
        &&& waypoints_in_world(self.waypoints@)
        &&& self.waypoints@.len() <= usize::MAX
    }

    /// A route may hold vehicles only when it has at least two waypoints.
    pub open spec fn can_host(&self) -> bool {
        self.waypoints@.len() >= 2
    }
}

/// The point at `f / FRACTION_ONE` of the way from `a` to `b`, rounded down.
pub open spec fn lerp_spec(a: int, b: int, f: int) -> int {
    a + (b - a) * f / (FRACTION_ONE as int)
}

pub proof fn lemma_lerp_between(a: int, b: int, f: int)
    requires
        0 <= f < FRACTION_ONE,
    ensures
        a <= b ==> a <= lerp_spec(a, b, f) <= b,
        b <= a ==> b <= lerp_spec(a, b, f) <= a,
{
    let one = FRACTION_ONE as int;
    let d = b - a;
    if d >= 0 {
        assert(0 <= d * f <= d * one) by (nonlinear_arith)
            requires
                d >= 0,
                0 <= f < one,
        ;
        assert(0 <= (d * f) / one <= d) by (nonlinear_arith)
            requires
                0 <= d * f <= d * one,
                one > 0,
        ;
    } else {
        assert(d * one <= d * f <= 0) by (nonlinear_arith)
            requires
                d < 0,
                0 <= f < one,
        ;
        assert(d <= (d * f) / one <= 0) by (nonlinear_arith)
            requires
                d * one <= d * f <= 0,
                one > 0,
        ;
    }
}

/// Linear interpolation between two world coordinates.
pub fn lerp(a: i64, b: i64, f: u32) -> (r: i64)
    requires
        -WORLD_LIMIT <= a <= WORLD_LIMIT,
        -WORLD_LIMIT <= b <= WORLD_LIMIT,
        f < FRACTION_ONE,
    ensures
        r == lerp_spec(a as int, b as int, f as int),
        -WORLD_LIMIT <= r <= WORLD_LIMIT,
{
    proof {
        lemma_lerp_between(a as int, b as int, f as int);
    }
    let d: i128 = (b as i128) - (a as i128);
    assert(-2 * WORLD_LIMIT * FRACTION_ONE <= d * (f as int) <= 2 * WORLD_LIMIT * FRACTION_ONE) by (nonlinear_arith)
        requires
            -2 * WORLD_LIMIT <= d <= 2 * WORLD_LIMIT,
            0 <= f < FRACTION_ONE,
    ;
    let p: i128 = d * (f as i128);
    let q: i128 = match p.checked_div_euclid(FRACTION_ONE as i128) {
        Some(q) => q,
        None => 0,
    };
    ((a as i128) + q) as i64
}

/// The point at fraction `f` of the way from `p` to `q`.
pub open spec fn interpolate(p: Waypoint, q: Waypoint, f: int) -> Waypoint {
    Waypoint { x: lerp_spec(p.x as int, q.x as int, f) as i64, y: lerp_spec(p.y as int, q.y as int, f) as i64 }
}

/// `routes` are the planned ones, numbered from zero.
pub open spec fn routes_follow_plan(routes: Seq<Route>, plan: Seq<(VehicleType, Seq<Waypoint>)>) -> bool {
    &&& routes.len() == plan.len()
    &&& forall|i: int| 0 <= i < routes.len() ==> {
        let rt = #[trigger] routes[i];
        &&& rt.id == i
        &&& rt.kind == plan[i].0
        &&& rt.waypoints@ == plan[i].1
    }
}

} // verus!
