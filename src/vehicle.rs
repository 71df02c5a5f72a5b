use vstd::prelude::*;
use vstd::arithmetic::div_mod::lemma_fundamental_div_mod_converse;
use crate::route::{
    FRACTION_ONE, Route, VehicleType, Waypoint, in_world, interpolate, lemma_lerp_between, lerp,
    waypoints_in_world,
};

verus! {

/// A vehicle moving back and forth along one route of the catalog.
#[derive(Clone, Copy, Debug, PartialEq, Eq, Structural)]
pub struct Vehicle {
    pub kind: VehicleType,
    /// Index of the owning route in the catalog.
    pub route_index: usize,
    /// `1` when moving towards higher waypoint indices, `-1` otherwise.
    pub direction: i8,
    pub last_index: usize,
    pub next_index: usize,
    /// Progress from `last_index` towards `next_index`, in units of `1 / FRACTION_ONE`.
    pub fraction: u32,
    /// Fraction units advanced per tick.
    pub speed: u32,
    pub x: i64,
    pub y: i64,
}

/// The two waypoint indices are valid for a route of `n` waypoints and one
/// step of `direction` apart.
pub open spec fn leg_ok(v: Vehicle, n: int) -> bool {
    &&& 2 <= n <= usize::MAX
    &&& (v.direction == 1 || v.direction == -1)
    &&& v.last_index < n
    &&& v.next_index < n
    &&& v.next_index as int == v.last_index as int + v.direction as int
}

/// Arriving at `next_index`: move on one waypoint, turning round at either end.
pub open spec fn hop(v: Vehicle, n: int) -> Vehicle {
    let last = v.next_index;
    let cand: int = v.next_index as int + v.direction as int;
    if cand < 0 || cand >= n {
        Vehicle {
            last_index: last,
            next_index: (last as int - v.direction as int) as usize,
            direction: (-v.direction) as i8,
            ..v
        }
    } else {
        Vehicle { last_index: last, next_index: cand as usize, ..v }
    }
}

/// `k` arrivals in a row.
pub open spec fn hops(v: Vehicle, n: int, k: nat) -> Vehicle
    decreases k,
{
    if k == 0 {
        v
    } else {
        hop(hops(v, n, (k - 1) as nat), n)
    }
}

/// The position on the current leg at the stored fraction.
pub open spec fn position_of(v: Vehicle, ws: Seq<Waypoint>) -> Waypoint {
    interpolate(ws[v.last_index as int], ws[v.next_index as int], v.fraction as int)
}

/// The vehicle after one kinematic update on a route with waypoints `ws`.
pub open spec fn advanced(v: Vehicle, ws: Seq<Waypoint>) -> Vehicle {
    let total = v.fraction + v.speed;
    let one = FRACTION_ONE as int;
    let h = hops(v, ws.len() as int, (total / one) as nat);
    let moved = Vehicle { fraction: (total % one) as u32, ..h };
    let p = position_of(moved, ws);
    Vehicle { x: p.x, y: p.y, ..moved }
}

/// The vehicle's state is consistent with the route waypoints `ws`:
/// valid leg, fraction below one, position derived from the two.
pub open spec fn vehicle_ok(v: Vehicle, ws: Seq<Waypoint>) -> bool {
    &&& leg_ok(v, ws.len() as int)
    &&& v.fraction < FRACTION_ONE
    &&& v.x == position_of(v, ws).x
    &&& v.y == position_of(v, ws).y
}

pub proof fn lemma_hop_keeps_leg(v: Vehicle, n: int)
    requires
        leg_ok(v, n),
    ensures
        leg_ok(hop(v, n), n),
        hop(v, n).fraction == v.fraction,
        hop(v, n).speed == v.speed,
        hop(v, n).kind == v.kind,
        hop(v, n).route_index == v.route_index,
{
    let h = hop(v, n);
    let cand: int = v.next_index as int + v.direction as int;
    if cand < 0 || cand >= n {
        assert(h.last_index == v.next_index);
        assert(h.direction == -v.direction);
        assert(h.next_index == v.next_index - v.direction);
    } else {
        assert(h.next_index == cand);
    }
}

pub proof fn lemma_hops_keep_leg(v: Vehicle, n: int, k: nat)
    requires
        leg_ok(v, n),
    ensures
        leg_ok(hops(v, n, k), n),
        hops(v, n, k).fraction == v.fraction,
        hops(v, n, k).speed == v.speed,
        hops(v, n, k).kind == v.kind,
        hops(v, n, k).route_index == v.route_index,
    decreases k,
{
    if k > 0 {
        lemma_hops_keep_leg(v, n, (k - 1) as nat);
        lemma_hop_keeps_leg(hops(v, n, (k - 1) as nat), n);
    }
}

pub proof fn lemma_position_in_world(v: Vehicle, ws: Seq<Waypoint>)
    requires
        leg_ok(v, ws.len() as int),
        v.fraction < FRACTION_ONE,
        waypoints_in_world(ws),
    ensures
        in_world(position_of(v, ws)),
{
    let p = ws[v.last_index as int];
    let q = ws[v.next_index as int];
    assert(in_world(p));
    assert(in_world(q));
    lemma_lerp_between(p.x as int, q.x as int, v.fraction as int);
    lemma_lerp_between(p.y as int, q.y as int, v.fraction as int);
}

/// After an update the vehicle is consistent with its route again.
pub proof fn lemma_advanced_ok(v: Vehicle, ws: Seq<Waypoint>)
    requires
        leg_ok(v, ws.len() as int),
        waypoints_in_world(ws),
    ensures
        vehicle_ok(advanced(v, ws), ws),
        in_world(Waypoint { x: advanced(v, ws).x, y: advanced(v, ws).y }),
        advanced(v, ws).kind == v.kind,
        advanced(v, ws).route_index == v.route_index,
        advanced(v, ws).speed == v.speed,
{
    let total = v.fraction + v.speed;
    let one = FRACTION_ONE as int;
    let h = hops(v, ws.len() as int, (total / one) as nat);
    lemma_hops_keep_leg(v, ws.len() as int, (total / one) as nat);
    let moved = Vehicle { fraction: (total % one) as u32, ..h };
    lemma_position_in_world(moved, ws);
}

/// The vehicle after `k` kinematic updates.
pub open spec fn advanced_times(v: Vehicle, ws: Seq<Waypoint>, k: nat) -> Vehicle
    decreases k,
{
    if k == 0 {
        v
    } else {
        advanced(advanced_times(v, ws, (k - 1) as nat), ws)
    }
}

/// However many updates a vehicle goes through, its fraction stays in
/// `[0, FRACTION_ONE)`.
pub proof fn lemma_fraction_stays_below_one(v: Vehicle, ws: Seq<Waypoint>, k: nat)
    requires
        leg_ok(v, ws.len() as int),
        waypoints_in_world(ws),
        k > 0 || v.fraction < FRACTION_ONE,
    ensures
        advanced_times(v, ws, k).fraction < FRACTION_ONE,
{
    lemma_indices_stay_valid(v, ws, k);
}

/// However many updates a vehicle goes through, `last_index` and
/// `next_index` are valid waypoint indices of its route and `next_index` is
/// one step of `direction` away from `last_index`.
pub proof fn lemma_indices_stay_valid(v: Vehicle, ws: Seq<Waypoint>, k: nat)
    requires
        leg_ok(v, ws.len() as int),
        waypoints_in_world(ws),
    ensures
        leg_ok(advanced_times(v, ws, k), ws.len() as int),
        k > 0 ==> vehicle_ok(advanced_times(v, ws, k), ws),
    decreases k,
{
    if k > 0 {
        lemma_indices_stay_valid(v, ws, (k - 1) as nat);
        lemma_advanced_ok(advanced_times(v, ws, (k - 1) as nat), ws);
    }
}

/// On a two-waypoint route, a vehicle heading from waypoint 0 to waypoint 1
/// that reaches waypoint 1 in this update (and no further) turns round:
/// it now heads from 1 back to 0.
pub proof fn lemma_bounce_on_two_waypoints(v: Vehicle, ws: Seq<Waypoint>)
    requires
        ws.len() == 2,
        v.last_index == 0,
        v.next_index == 1,
        v.direction == 1,
        FRACTION_ONE <= v.fraction + v.speed < 2 * FRACTION_ONE,
    ensures
        advanced(v, ws).direction == -1,
        advanced(v, ws).last_index == 1,
        advanced(v, ws).next_index == 0,
        advanced(v, ws).fraction == v.fraction + v.speed - FRACTION_ONE,
{
    let total = v.fraction + v.speed;
    lemma_fundamental_div_mod_converse(total, FRACTION_ONE as int, 1, total - FRACTION_ONE);
    assert(hops(v, 2, 1) == hop(hops(v, 2, 0), 2));
}

/// A vehicle with speed zero does not move: any number of updates leave its
/// leg, direction and position as they were.
pub proof fn lemma_zero_speed_stays(v: Vehicle, ws: Seq<Waypoint>, k: nat)
    requires
        v.speed == 0,
        vehicle_ok(v, ws),
    ensures
        advanced_times(v, ws, k) == v,
    decreases k,
{
    if k > 0 {
        lemma_zero_speed_stays(v, ws, (k - 1) as nat);
        let total = v.fraction + v.speed;
        lemma_fundamental_div_mod_converse(total, FRACTION_ONE as int, 0, total);
        assert(hops(v, ws.len() as int, 0) == v);
        assert(advanced(v, ws) == v);
    }
}

impl Vehicle {
    /// Advances the vehicle by `speed`, crossing as many waypoints as the
    /// progress covers and turning round at either end of the route, then
    /// recomputes its position.
    pub fn update_position(&mut self, route: &Route)
        requires
            leg_ok(*old(self), route.waypoints@.len() as int),
            route.wf(),
        ensures
            *final(self) == advanced(*old(self), route.waypoints@),
            vehicle_ok(*final(self), route.waypoints@),
    {
        let ghost start = *self;
        let ghost ws = route.waypoints@;
        let n = route.waypoints.len();
        let total0: u64 = self.fraction as u64 + self.speed as u64;
        let mut total: u64 = total0;
        let mut last = self.last_index;
        let mut next = self.next_index;
        let mut dir = self.direction;
        let ghost mut k: nat = 0;
        proof {
            lemma_hops_keep_leg(start, n as int, 0);
        }
        while total >= FRACTION_ONE as u64
            invariant
                n == ws.len(),
                n >= 2,
                total0 == start.fraction + start.speed,
                total + k * FRACTION_ONE == total0,
                leg_ok(start, n as int),
                last == hops(start, n as int, k).last_index,
                next == hops(start, n as int, k).next_index,
                dir == hops(start, n as int, k).direction,
            decreases total,
        {
            proof {
                lemma_hops_keep_leg(start, n as int, k);
            }
            total = total - FRACTION_ONE as u64;
            last = next;
            if dir == 1 {
                if next + 1 >= n {
                    dir = -1;
                    next = last - 1;
                } else {
                    next = next + 1;
                }
            } else {
                if next == 0 {
                    dir = 1;
                    next = last + 1;
                } else {
                    next = next - 1;
                }
            }
            proof {
                k = k + 1;
            }
        }
        proof {
            lemma_fundamental_div_mod_converse(total0 as int, FRACTION_ONE as int, k as int, total as int);
            lemma_hops_keep_leg(start, n as int, k);
            lemma_advanced_ok(start, ws);
        }
        self.last_index = last;
        self.next_index = next;
        self.direction = dir;
        self.fraction = total as u32;
        let p = route.waypoints[last];
        let q = route.waypoints[next];
        assert(in_world(ws[last as int]));
        assert(in_world(ws[next as int]));
        self.x = lerp(p.x, q.x, self.fraction);
        self.y = lerp(p.y, q.y, self.fraction);
    }
}

} // verus!
