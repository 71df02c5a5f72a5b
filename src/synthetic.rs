use vstd::prelude::*;
use crate::fleet::{DRAW_SHIFT, draw_state, draw_value, next_state};
use crate::route::{Route, VehicleType, WORLD_LIMIT, Waypoint, in_world, routes_follow_plan};

verus! {

pub const SYNTH_TRAIN_ROUTES: usize = 10;

pub const SYNTH_RADIAL_BUS_ROUTES: usize = 30;

pub const SYNTH_ORBITAL_BUS_ROUTES: usize = 20;

pub const SYNTH_CROSS_BUS_ROUTES: usize = 50;

/// World coordinate of the centre of the generated network, on both axes.
pub const SYNTH_CENTER: i64 = 500_000;

/// Every generated waypoint lies within this distance of the centre on each axis.
pub const SYNTH_REACH: i64 = 450_000;

/// Spacing of train stations along their direction.
pub const TRAIN_STEP: i64 = 40_000;

/// Largest shift of a train station on each axis.
pub const TRAIN_JITTER: i64 = 15_000;

/// Spacing of stops on radial bus routes.
pub const RADIAL_STEP: i64 = 30_000;

/// Largest shift of a radial bus stop on each axis.
pub const RADIAL_JITTER: i64 = 10_000;

/// Radius of the innermost orbital route; each further ring is `ORBIT_STEP` wider.
pub const ORBIT_BASE: i64 = 30_000;

pub const ORBIT_STEP: i64 = 15_000;

/// Cross-town routes run from `-CROSS_HALF` to `CROSS_HALF` about the centre.
pub const CROSS_HALF: i64 = 300_000;

/// Largest sideways offset of a cross-town route from the centre.
pub const CROSS_OFFSET: i64 = 100_000;

/// Largest shift of a cross-town stop on each axis.
pub const CROSS_JITTER: i64 = 10_000;

pub open spec fn synth_route_count() -> int {
    SYNTH_TRAIN_ROUTES + SYNTH_RADIAL_BUS_ROUTES + SYNTH_ORBITAL_BUS_ROUTES + SYNTH_CROSS_BUS_ROUTES
}

pub open spec fn near_center(p: Waypoint) -> bool {
    &&& SYNTH_CENTER - SYNTH_REACH <= p.x <= SYNTH_CENTER + SYNTH_REACH
    &&& SYNTH_CENTER - SYNTH_REACH <= p.y <= SYNTH_CENTER + SYNTH_REACH
}

/// A generated route: numbered `i`, trains first, at least two waypoints,
/// all near the centre.
pub open spec fn synth_route_ok(rt: Route, i: int) -> bool {
    &&& rt.id == i
    &&& rt.kind == (if i < SYNTH_TRAIN_ROUTES { VehicleType::Train } else { VehicleType::Bus })
    &&& rt.waypoints@.len() >= 2
    &&& rt.wf()
    &&& forall|k: int| 0 <= k < rt.waypoints@.len() ==> near_center(#[trigger] rt.waypoints@[k])
}

/// Unit vector, in thousandths, of compass point `i` of sixteen.
pub open spec fn compass_of(i: int) -> (int, int) {
    let j = i % 16;
    if j == 0 {
        (1000, 0)
    } else if j == 1 {
        (924, 383)
    } else if j == 2 {
        (707, 707)
    } else if j == 3 {
        (383, 924)
    } else if j == 4 {
        (0, 1000)
    } else if j == 5 {
        (-383, 924)
    } else if j == 6 {
        (-707, 707)
    } else if j == 7 {
        (-924, 383)
    } else if j == 8 {
        (-1000, 0)
    } else if j == 9 {
        (-924, -383)
    } else if j == 10 {
        (-707, -707)
    } else if j == 11 {
        (-383, -924)
    } else if j == 12 {
        (0, -1000)
    } else if j == 13 {
        (383, -924)
    } else if j == 14 {
        (707, -707)
    } else {
        (924, -383)
    }
}

/// Draw number `c` (from zero) of the generator started at `seed`.
pub open spec fn nth_draw(seed: u64, c: int) -> u32 {
    draw_value(draw_state(seed, (c + 1) as nat))
}

/// `base` moved by at most `amp` either way, as the draw `d` decides.
pub open spec fn jit(base: int, d: u32, amp: int) -> int {
    base + (d as int) % (2 * amp + 1) - amp
}

/// The point `dist` from the centre along the unit vector `dir` (in thousandths).
pub open spec fn along_of(dir: (int, int), dist: int) -> (int, int) {
    (SYNTH_CENTER + dir.0 * dist / 1000, SYNTH_CENTER + dir.1 * dist / 1000)
}

/// Point `p` shifted by draws `c` and `c + 1`, by at most `amp` on each axis.
pub open spec fn jittered_point(p: (int, int), seed: u64, c: int, amp: int) -> Waypoint {
    Waypoint { x: jit(p.0, nth_draw(seed, c), amp) as i64, y: jit(p.1, nth_draw(seed, c + 1), amp) as i64 }
}

/// The centre of the generated network.
pub open spec fn center_point() -> Waypoint {
    Waypoint { x: SYNTH_CENTER, y: SYNTH_CENTER }
}

/// The first `n` stations of a chain leaving the centre along compass point
/// `dir`: the first at the centre itself, the others `step` apart and
/// jittered by up to `amp`, using draws from `c` on.
pub open spec fn radial_points(seed: u64, c: int, dir: int, n: int, step: int, amp: int) -> Seq<Waypoint> {
    Seq::new(
        n as nat,
        |k: int|
            if k == 0 {
                center_point()
            } else {
                jittered_point(along_of(compass_of(dir), k * step), seed, c + 2 * (k - 1), amp)
            },
    )
}

/// The first `n` points of a ring of sixteen round the centre, starting at
/// compass point `start`, jittered by up to a tenth of the radius.
pub open spec fn ring_arc(seed: u64, c: int, start: int, radius: int, n: int) -> Seq<Waypoint> {
    Seq::new(n as nat, |k: int| jittered_point(along_of(compass_of(start % 16 + k), radius), seed, c + 2 * k, radius / 10))
}

/// A closed orbital route: the ring, with its first point repeated at the end.
pub open spec fn ring_points(seed: u64, c: int, start: int, radius: int) -> Seq<Waypoint> {
    let arc = ring_arc(seed, c, start, radius, 16);
    arc.push(arc[0])
}

/// The first `n` stops of a straight chain `gap` apart across the centre,
/// west to east (or south to north), shifted sideways by `offset` and
/// jittered by up to `CROSS_JITTER`.
pub open spec fn cross_points(seed: u64, c: int, east_west: bool, offset: int, gap: int, n: int) -> Seq<Waypoint> {
    Seq::new(
        n as nat,
        |k: int| {
            let a = jit(SYNTH_CENTER - CROSS_HALF + gap * k, nth_draw(seed, c + 2 * k), CROSS_JITTER as int) as i64;
            let b = jit(SYNTH_CENTER + offset, nth_draw(seed, c + 2 * k + 1), CROSS_JITTER as int) as i64;
            if east_west {
                Waypoint { x: a, y: b }
            } else {
                Waypoint { x: b, y: a }
            }
        },
    )
}

/// Route `r` of the generated network when its draws start at `c`: its
/// kind, its waypoints, and how many draws it takes.
///  - trains: 6 to 9 stations radiating from the centre;
///  - radial buses: 7 to 13 stops from the centre along a drawn compass point;
///  - orbital buses: closed rings of growing radius;
///  - cross-town buses: 8 to 17 evenly spaced stops across the network.
pub open spec fn synth_route(seed: u64, c: int, r: int) -> (VehicleType, Seq<Waypoint>, int) {
    if r < SYNTH_TRAIN_ROUTES {
        let n = 6 + nth_draw(seed, c) % 4;
        (VehicleType::Train, radial_points(seed, c + 1, r * 16 / 10, n, TRAIN_STEP as int, TRAIN_JITTER as int), 1 + 2 * (n - 1))
    } else if r < SYNTH_TRAIN_ROUTES + SYNTH_RADIAL_BUS_ROUTES {
        let dir = nth_draw(seed, c) as int;
        let n = 7 + nth_draw(seed, c + 1) % 7;
        (VehicleType::Bus, radial_points(seed, c + 2, dir, n, RADIAL_STEP as int, RADIAL_JITTER as int), 2 + 2 * (n - 1))
    } else if r < SYNTH_TRAIN_ROUTES + SYNTH_RADIAL_BUS_ROUTES + SYNTH_ORBITAL_BUS_ROUTES {
        let ring = r - SYNTH_TRAIN_ROUTES - SYNTH_RADIAL_BUS_ROUTES;
        let start = nth_draw(seed, c) as int;
        (VehicleType::Bus, ring_points(seed, c + 1, start, ORBIT_BASE + ring * ORBIT_STEP), 33)
    } else {
        let axis = nth_draw(seed, c);
        let offset = (nth_draw(seed, c + 1) as int) % (2 * CROSS_OFFSET + 1) - CROSS_OFFSET;
        let n = 8 + nth_draw(seed, c + 2) % 10;
        let gap = 2 * CROSS_HALF / (n - 1);
        (VehicleType::Bus, cross_points(seed, c + 3, axis % 2 == 0, offset, gap, n), 3 + 2 * n)
    }
}

/// The first `r` routes of the network generated from `seed`, and the
/// number of draws they take.
pub open spec fn synth_upto(seed: u64, r: nat) -> (Seq<(VehicleType, Seq<Waypoint>)>, int)
    decreases r,
{
    if r == 0 {
        (Seq::empty(), 0)
    } else {
        let (prev, c) = synth_upto(seed, (r - 1) as nat);
        let (kind, ws, used) = synth_route(seed, c, r - 1);
        (prev.push((kind, ws)), c + used)
    }
}

/// The network generated from `seed`.
pub open spec fn synth_network(seed: u64) -> Seq<(VehicleType, Seq<Waypoint>)> {
    synth_upto(seed, synth_route_count() as nat).0
}

proof fn lemma_synth_upto(seed: u64, r: nat)
    ensures
        synth_upto(seed, r).0.len() == r,
        synth_upto(seed, r).1 >= 0,
    decreases r,
{
    if r > 0 {
        lemma_synth_upto(seed, (r - 1) as nat);
    }
}

fn compass(i: u32) -> (r: (i64, i64))
    ensures
        r.0 as int == compass_of(i as int).0,
        r.1 as int == compass_of(i as int).1,
        -1000 <= r.0 <= 1000,
        -1000 <= r.1 <= 1000,
{
    match i % 16 {
        0 => (1000, 0),
        1 => (924, 383),
        2 => (707, 707),
        3 => (383, 924),
        4 => (0, 1000),
        5 => (-383, 924),
        6 => (-707, 707),
        7 => (-924, 383),
        8 => (-1000, 0),
        9 => (-924, -383),
        10 => (-707, -707),
        11 => (-383, -924),
        12 => (0, -1000),
        13 => (383, -924),
        14 => (707, -707),
        _ => (924, -383),
    }
}

/// The next draw: the generator at draw count `c` moves to `c + 1`.
fn draw(state: &mut u64, Ghost(seed): Ghost<u64>, Ghost(c): Ghost<int>) -> (r: u32)
    requires
        c >= 0,
        *old(state) == draw_state(seed, c as nat),
    ensures
        *final(state) == draw_state(seed, (c + 1) as nat),
        r == nth_draw(seed, c),
{
    *state = next_state(*state);
    (*state / DRAW_SHIFT) as u32
}

fn jittered(base: i64, d: u32, amp: i64) -> (r: i64)
    requires
        0 <= amp <= 1_000_000,
        -WORLD_LIMIT <= base <= WORLD_LIMIT,
    ensures
        r == jit(base as int, d, amp as int),
        base - amp <= r <= base + amp,
{
    base + (d as u64 % (2 * amp as u64 + 1)) as i64 - amp
}

fn along(dir: (i64, i64), dist: i64) -> (r: (i64, i64))
    requires
        -1000 <= dir.0 <= 1000,
        -1000 <= dir.1 <= 1000,
        0 <= dist <= 400_000,
    ensures
        r.0 as int == along_of((dir.0 as int, dir.1 as int), dist as int).0,
        r.1 as int == along_of((dir.0 as int, dir.1 as int), dist as int).1,
        SYNTH_CENTER - 400_000 <= r.0 <= SYNTH_CENTER + 400_000,
        SYNTH_CENTER - 400_000 <= r.1 <= SYNTH_CENTER + 400_000,
{
    assert(-400_000 * 1000 <= dir.0 * dist <= 400_000 * 1000) by (nonlinear_arith)
        requires
            -1000 <= dir.0 <= 1000,
            0 <= dist <= 400_000,
    ;
    assert(-400_000 * 1000 <= dir.1 * dist <= 400_000 * 1000) by (nonlinear_arith)
        requires
            -1000 <= dir.1 <= 1000,
            0 <= dist <= 400_000,
    ;
    let qx = match (dir.0 * dist).checked_div_euclid(1000) {
        Some(q) => q,
        None => 0,
    };
    let qy = match (dir.1 * dist).checked_div_euclid(1000) {
        Some(q) => q,
        None => 0,
    };
    (SYNTH_CENTER + qx, SYNTH_CENTER + qy)
}

fn radial_chain(
    state: &mut u64,
    Ghost(seed): Ghost<u64>,
    Ghost(c): Ghost<int>,
    dir: u32,
    stations: u32,
    step: i64,
    amp: i64,
) -> (ws: Vec<Waypoint>)
    requires
        c >= 0,
        *old(state) == draw_state(seed, c as nat),
        2 <= stations <= 13,
        0 <= step <= 40_000,
        (stations - 1) * step <= 360_000,
        0 <= amp <= 40_000,
    ensures
        ws@ == radial_points(seed, c, dir as int, stations as int, step as int, amp as int),
        *final(state) == draw_state(seed, (c + 2 * (stations - 1)) as nat),
        forall|k: int| 0 <= k < ws@.len() ==> near_center(#[trigger] ws@[k]),
{
    let d = compass(dir);
    let mut ws: Vec<Waypoint> = Vec::new();
    ws.push(Waypoint { x: SYNTH_CENTER, y: SYNTH_CENTER });
    proof {
        assert(ws@ =~= radial_points(seed, c, dir as int, 1, step as int, amp as int));
    }
    let mut k: u32 = 1;
    while k < stations
        invariant
            c >= 0,
            1 <= k <= stations <= 13,
            0 <= step <= 40_000,
            (stations - 1) * step <= 360_000,
            0 <= amp <= 40_000,
            d.0 as int == compass_of(dir as int).0,
            d.1 as int == compass_of(dir as int).1,
            -1000 <= d.0 <= 1000,
            -1000 <= d.1 <= 1000,
            ws@ == radial_points(seed, c, dir as int, k as int, step as int, amp as int),
            *state == draw_state(seed, (c + 2 * (k - 1)) as nat),
            forall|j: int| 0 <= j < ws@.len() ==> near_center(#[trigger] ws@[j]),
        decreases stations - k,
    {
        assert(0 <= k * step <= 360_000) by (nonlinear_arith)
            requires
                0 <= k < stations,
                0 <= step,
                (stations - 1) * step <= 360_000,
        ;
        let p = along(d, (k as i64) * step);
        let jx = draw(state, Ghost(seed), Ghost(c + 2 * (k - 1)));
        let jy = draw(state, Ghost(seed), Ghost(c + 2 * (k - 1) + 1));
        ws.push(Waypoint { x: jittered(p.0, jx, amp), y: jittered(p.1, jy, amp) });
        k = k + 1;
        proof {
            assert(ws@ =~= radial_points(seed, c, dir as int, k as int, step as int, amp as int));
        }
    }
    ws
}

fn orbital_ring(state: &mut u64, Ghost(seed): Ghost<u64>, Ghost(c): Ghost<int>, start: u32, radius: i64) -> (ws: Vec<Waypoint>)
    requires
        c >= 0,
        *old(state) == draw_state(seed, c as nat),
        0 <= radius <= 320_000,
    ensures
        ws@ == ring_points(seed, c, start as int, radius as int),
        *final(state) == draw_state(seed, (c + 32) as nat),
        forall|k: int| 0 <= k < ws@.len() ==> near_center(#[trigger] ws@[k]),
{
    let mut ws: Vec<Waypoint> = Vec::new();
    let amp = radius / 10;
    let mut k: u32 = 0;
    while k < 16
        invariant
            c >= 0,
            k <= 16,
            0 <= radius <= 320_000,
            amp == radius / 10,
            ws@ == ring_arc(seed, c, start as int, radius as int, k as int),
            *state == draw_state(seed, (c + 2 * k) as nat),
            forall|j: int| 0 <= j < ws@.len() ==> near_center(#[trigger] ws@[j]),
        decreases 16 - k,
    {
        let p = along(compass(start % 16 + k), radius);
        let jx = draw(state, Ghost(seed), Ghost(c + 2 * k));
        let jy = draw(state, Ghost(seed), Ghost(c + 2 * k + 1));
        ws.push(Waypoint { x: jittered(p.0, jx, amp), y: jittered(p.1, jy, amp) });
        k = k + 1;
        proof {
            assert(ws@ =~= ring_arc(seed, c, start as int, radius as int, k as int));
        }
    }
    let first = ws[0];
    ws.push(first);
    ws
}

fn cross_chain(
    state: &mut u64,
    Ghost(seed): Ghost<u64>,
    Ghost(c): Ghost<int>,
    east_west: bool,
    offset: i64,
    stations: u32,
) -> (ws: Vec<Waypoint>)
    requires
        c >= 0,
        *old(state) == draw_state(seed, c as nat),
        2 <= stations <= 17,
        -CROSS_OFFSET <= offset <= CROSS_OFFSET,
    ensures
        ws@ == cross_points(seed, c, east_west, offset as int, 2 * CROSS_HALF / (stations - 1), stations as int),
        *final(state) == draw_state(seed, (c + 2 * stations) as nat),
        forall|k: int| 0 <= k < ws@.len() ==> near_center(#[trigger] ws@[k]),
{
    let mut ws: Vec<Waypoint> = Vec::new();
    let gap: i64 = 2 * CROSS_HALF / (stations as i64 - 1);
    assert(0 <= gap * (stations - 1) <= 2 * CROSS_HALF) by (nonlinear_arith)
        requires
            gap == 2 * CROSS_HALF / (stations - 1),
            stations >= 2,
    ;
    let mut k: u32 = 0;
    while k < stations
        invariant
            c >= 0,
            k <= stations <= 17,
            stations >= 2,
            gap == 2 * CROSS_HALF / (stations - 1),
            0 <= gap * (stations - 1) <= 2 * CROSS_HALF,
            gap >= 0,
            -CROSS_OFFSET <= offset <= CROSS_OFFSET,
            ws@ == cross_points(seed, c, east_west, offset as int, gap as int, k as int),
            *state == draw_state(seed, (c + 2 * k) as nat),
            forall|j: int| 0 <= j < ws@.len() ==> near_center(#[trigger] ws@[j]),
        decreases stations - k,
    {
        assert(0 <= gap * k <= 2 * CROSS_HALF) by (nonlinear_arith)
            requires
                0 <= gap * (stations - 1) <= 2 * CROSS_HALF,
                gap >= 0,
                0 <= k < stations,
        ;
        let run = SYNTH_CENTER - CROSS_HALF + gap * (k as i64);
        let side = SYNTH_CENTER + offset;
        let jr = draw(state, Ghost(seed), Ghost(c + 2 * k));
        let js = draw(state, Ghost(seed), Ghost(c + 2 * k + 1));
        let a = jittered(run, jr, CROSS_JITTER);
        let b = jittered(side, js, CROSS_JITTER);
        let p = if east_west {
            Waypoint { x: a, y: b }
        } else {
            Waypoint { x: b, y: a }
        };
        ws.push(p);
        k = k + 1;
        proof {
            assert(ws@ =~= cross_points(seed, c, east_west, offset as int, gap as int, k as int));
        }
    }
    ws
}

proof fn lemma_near_center_ok(ws: Seq<Waypoint>)
    requires
        forall|k: int| 0 <= k < ws.len() ==> near_center(#[trigger] ws[k]),
    ensures
        forall|k: int| 0 <= k < ws.len() ==> in_world(#[trigger] ws[k]),
{
}

/// Route `r` of the network, taking its draws from `state` at draw count `c`.
fn generate_route(state: &mut u64, Ghost(seed): Ghost<u64>, Ghost(c): Ghost<int>, r: usize) -> (res: (VehicleType, Vec<Waypoint>))
    requires
        c >= 0,
        *old(state) == draw_state(seed, c as nat),
        r < synth_route_count(),
    ensures
        res.0 == synth_route(seed, c, r as int).0,
        res.1@ == synth_route(seed, c, r as int).1,
        *final(state) == draw_state(seed, (c + synth_route(seed, c, r as int).2) as nat),
        res.1@.len() >= 2,
        res.1@.len() <= usize::MAX,
        forall|k: int| 0 <= k < res.1@.len() ==> near_center(#[trigger] res.1@[k]),
{
    if r < SYNTH_TRAIN_ROUTES {
        let jitter = draw(state, Ghost(seed), Ghost(c));
        let stations = 6 + jitter % 4;
        (
            VehicleType::Train,
            radial_chain(state, Ghost(seed), Ghost(c + 1), (r as u32) * 16 / 10, stations, TRAIN_STEP, TRAIN_JITTER),
        )
    } else if r < SYNTH_TRAIN_ROUTES + SYNTH_RADIAL_BUS_ROUTES {
        let dir = draw(state, Ghost(seed), Ghost(c));
        let len = draw(state, Ghost(seed), Ghost(c + 1));
        (
            VehicleType::Bus,
            radial_chain(state, Ghost(seed), Ghost(c + 2), dir, 7 + len % 7, RADIAL_STEP, RADIAL_JITTER),
        )
    } else if r < SYNTH_TRAIN_ROUTES + SYNTH_RADIAL_BUS_ROUTES + SYNTH_ORBITAL_BUS_ROUTES {
        let ring = (r - SYNTH_TRAIN_ROUTES - SYNTH_RADIAL_BUS_ROUTES) as i64;
        let start = draw(state, Ghost(seed), Ghost(c));
        (VehicleType::Bus, orbital_ring(state, Ghost(seed), Ghost(c + 1), start, ORBIT_BASE + ring * ORBIT_STEP))
    } else {
        let axis = draw(state, Ghost(seed), Ghost(c));
        let shift = draw(state, Ghost(seed), Ghost(c + 1));
        let len = draw(state, Ghost(seed), Ghost(c + 2));
        let offset = (shift % (2 * CROSS_OFFSET as u32 + 1)) as i64 - CROSS_OFFSET;
        (VehicleType::Bus, cross_chain(state, Ghost(seed), Ghost(c + 3), axis % 2 == 0, offset, 8 + len % 10))
    }
}

/// Generates the fallback network from `seed`: train routes radiating from
/// the centre, then bus routes that radiate, circle the centre, or cross the
/// network, all with bounded jitter. Never empty.
pub fn build_synthetic_routes(seed: u64) -> (routes: Vec<Route>)
    ensures
        routes_follow_plan(routes@, synth_network(seed)),
        routes@.len() == synth_route_count(),
        forall|i: int| 0 <= i < routes@.len() ==> synth_route_ok(#[trigger] routes@[i], i),
{
    let mut state = seed;
    let mut routes: Vec<Route> = Vec::new();
    let mut r: usize = 0;
    while r < SYNTH_TRAIN_ROUTES + SYNTH_RADIAL_BUS_ROUTES + SYNTH_ORBITAL_BUS_ROUTES + SYNTH_CROSS_BUS_ROUTES
        invariant
            r <= synth_route_count(),
            routes@.len() == r,
            routes_follow_plan(routes@, synth_upto(seed, r as nat).0),
            state == draw_state(seed, synth_upto(seed, r as nat).1 as nat),
            forall|i: int| 0 <= i < routes@.len() ==> synth_route_ok(#[trigger] routes@[i], i),
        decreases synth_route_count() - r,
    {
        let ghost c = synth_upto(seed, r as nat).1;
        proof {
            lemma_synth_upto(seed, r as nat);
        }
        let (kind, waypoints) = generate_route(&mut state, Ghost(seed), Ghost(c), r);
        proof {
            lemma_near_center_ok(waypoints@);
        }
        let rt = Route { id: r, kind, waypoints };
        assert(synth_route_ok(rt, r as int));
        routes.push(rt);
        r = r + 1;
        proof {
            let prev = synth_upto(seed, (r - 1) as nat).0;
            assert(synth_upto(seed, r as nat).0 == prev.push((kind, rt.waypoints@)));
        }
    }
    routes
}

} // verus!
