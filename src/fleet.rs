use vstd::prelude::*;
use vstd::wrapping::u64_specs;
use crate::route::{FRACTION_ONE, Route, VehicleType};
use crate::vehicle::{Vehicle, advanced, leg_ok, lemma_advanced_ok, vehicle_ok};

verus! {

/// Multiplier of the linear congruential generator that places vehicles
/// and shapes the generated network.
pub const DRAW_MUL: u64 = 6364136223846793005;

/// Increment of that generator.
pub const DRAW_INC: u64 = 1442695040888963407;

/// A generator state hands out its high 32 bits.
pub const DRAW_SHIFT: u64 = 4294967296;

/// How many vehicles each kind of route receives and how fast they go.
#[derive(Clone, Copy, Debug)]
pub struct SpawnConfig {
    pub buses_per_route: u32,
    pub trains_per_route: u32,
    /// Slowest speed, in fraction units per tick.
    pub min_speed: u32,
    /// Speeds are drawn from `min_speed ..= min_speed + speed_spread`.
    pub speed_spread: u32,
}

impl SpawnConfig {
    pub open spec fn wf(&self) -> bool {
        self.min_speed + self.speed_spread <= u32::MAX
    }
}

/// One step of the generator that spreads vehicles over their slices.
pub open spec fn draw_step(s: u64) -> u64 {
    u64_specs::wrapping_add(u64_specs::wrapping_mul(s, DRAW_MUL), DRAW_INC)
}

/// The generator state after `k` steps from `seed`.
pub open spec fn draw_state(seed: u64, k: nat) -> u64
    decreases k,
{
    if k == 0 {
        seed
    } else {
        draw_step(draw_state(seed, (k - 1) as nat))
    }
}

/// The number handed out by a generator state (its high half).
pub open spec fn draw_value(s: u64) -> u32 {
    (s / DRAW_SHIFT) as u32
}

pub(crate) fn next_state(s: u64) -> (r: u64)
    ensures
        r == draw_step(s),
{
    s.wrapping_mul(DRAW_MUL).wrapping_add(DRAW_INC)
}

/// Vehicles spawned on a route: none unless it has two waypoints.
pub open spec fn per_route(route: Route, cfg: SpawnConfig) -> nat {
    if route.waypoints@.len() >= 2 {
        match route.kind {
            VehicleType::Bus => cfg.buses_per_route as nat,
            VehicleType::Train => cfg.trains_per_route as nat,
        }
    } else {
        0
    }
}

/// The first `count / 2` vehicles of a route run forward, the rest backward.
pub open spec fn runs_forward(j: int, count: int) -> bool {
    j < count / 2
}

/// The position of vehicle `j` within its direction group, and the group's size.
pub open spec fn slot_of(j: int, count: int) -> (int, int) {
    if runs_forward(j, count) {
        (j, count / 2)
    } else {
        (j - count / 2, count - count / 2)
    }
}

/// Start fraction of the vehicle in slot `i` of `slots`: inside the slice
/// `[i / slots, (i + 1) / slots)` of a segment, placed by `jitter`.
pub open spec fn start_fraction(i: int, slots: int, jitter: u32) -> int {
    (i * FRACTION_ONE + (jitter as int) % (FRACTION_ONE as int)) / slots
}

pub open spec fn start_speed(cfg: SpawnConfig, d: u32) -> int {
    cfg.min_speed as int + (d as int) % (cfg.speed_spread as int + 1)
}

/// Vehicle `j` of route `ri`, before its first update, placed with draws
/// `jitter` and `speed_draw`.
pub open spec fn seed_vehicle(route: Route, ri: int, j: int, cfg: SpawnConfig, jitter: u32, speed_draw: u32) -> Vehicle {
    let count = per_route(route, cfg) as int;
    let n = route.waypoints@.len() as int;
    let fwd = runs_forward(j, count);
    let (i, slots) = slot_of(j, count);
    Vehicle {
        kind: route.kind,
        route_index: ri as usize,
        direction: if fwd { 1i8 } else { -1i8 },
        last_index: if fwd { 0 } else { (n - 1) as usize },
        next_index: if fwd { 1 } else { (n - 2) as usize },
        fraction: start_fraction(i, slots, jitter) as u32,
        speed: start_speed(cfg, speed_draw) as u32,
        x: 0,
        y: 0,
    }
}

/// Vehicle number `g` of the whole fleet is placed with draws `2g+1` and `2g+2`.
pub open spec fn spawned(route: Route, ri: int, j: int, cfg: SpawnConfig, seed: u64, g: int) -> Vehicle {
    let jitter = draw_value(draw_state(seed, (2 * g + 1) as nat));
    let sd = draw_value(draw_state(seed, (2 * g + 2) as nat));
    advanced(seed_vehicle(route, ri, j, cfg, jitter, sd), route.waypoints@)
}

/// The vehicles spawned on the first `r` routes.
pub open spec fn fleet_upto(routes: Seq<Route>, r: nat, cfg: SpawnConfig, seed: u64) -> Seq<Vehicle>
    decreases r,
{
    if r == 0 {
        Seq::empty()
    } else {
        let prev = fleet_upto(routes, (r - 1) as nat, cfg, seed);
        let route = routes[r - 1];
        prev + Seq::new(
            per_route(route, cfg),
            |j: int| spawned(route, r - 1, j, cfg, seed, prev.len() + j),
        )
    }
}

/// The number of vehicles spawned on the first `r` routes.
pub open spec fn fleet_total(routes: Seq<Route>, r: nat, cfg: SpawnConfig) -> nat
    decreases r,
{
    if r == 0 {
        0
    } else {
        fleet_total(routes, (r - 1) as nat, cfg) + per_route(routes[r - 1], cfg)
    }
}

pub proof fn lemma_fleet_len(routes: Seq<Route>, r: nat, cfg: SpawnConfig, seed: u64)
    ensures
        fleet_upto(routes, r, cfg, seed).len() == fleet_total(routes, r, cfg),
    decreases r,
{
    if r > 0 {
        lemma_fleet_len(routes, (r - 1) as nat, cfg, seed);
    }
}

pub proof fn lemma_fleet_total_grows(routes: Seq<Route>, r: nat, s: nat, cfg: SpawnConfig)
    requires
        r <= s,
    ensures
        fleet_total(routes, r, cfg) <= fleet_total(routes, s, cfg),
    decreases s,
{
    if r < s {
        lemma_fleet_total_grows(routes, r, (s - 1) as nat, cfg);
    }
}

pub proof fn lemma_start_fraction_in_slice(i: int, slots: int, jitter: u32)
    requires
        0 <= i < slots,
    ensures
        0 <= start_fraction(i, slots, jitter) < FRACTION_ONE,
        start_fraction(i, slots, jitter) * slots <= i * FRACTION_ONE + (jitter as int) % (FRACTION_ONE as int),
{
    let one = FRACTION_ONE as int;
    let num = i * one + (jitter as int) % one;
    assert(0 <= num < (i + 1) * one) by (nonlinear_arith)
        requires
            num == i * one + (jitter as int) % one,
            0 <= (jitter as int) % one < one,
            i >= 0,
    ;
    assert((i + 1) * one <= slots * one) by (nonlinear_arith)
        requires
            i + 1 <= slots,
            one > 0,
    ;
    assert(num / slots < one) by (nonlinear_arith)
        requires
            0 <= num < slots * one,
            slots > 0,
    ;
    assert((num / slots) * slots <= num) by (nonlinear_arith)
        requires
            num >= 0,
            slots > 0,
    ;
}

/// A freshly seeded vehicle has a valid leg on its route.
pub proof fn lemma_seed_vehicle_ok(route: Route, ri: int, j: int, cfg: SpawnConfig, jitter: u32, sd: u32)
    requires
        2 <= route.waypoints@.len() <= usize::MAX,
        0 <= j < per_route(route, cfg),
        0 <= ri <= usize::MAX,
        cfg.wf(),
    ensures
        leg_ok(seed_vehicle(route, ri, j, cfg, jitter, sd), route.waypoints@.len() as int),
        seed_vehicle(route, ri, j, cfg, jitter, sd).fraction < FRACTION_ONE,
        seed_vehicle(route, ri, j, cfg, jitter, sd).route_index == ri,
        seed_vehicle(route, ri, j, cfg, jitter, sd).kind == route.kind,
{
    let count = per_route(route, cfg) as int;
    let (i, slots) = slot_of(j, count);
    lemma_start_fraction_in_slice(i, slots, jitter);
}

/// Every spawned vehicle belongs to one of the routes, is consistent with
/// it and has its kind.
pub proof fn lemma_fleet_ok(routes: Seq<Route>, r: nat, cfg: SpawnConfig, seed: u64)
    requires
        r <= routes.len(),
        routes.len() <= usize::MAX,
        forall|i: int| 0 <= i < routes.len() ==> (#[trigger] routes[i]).wf(),
        cfg.wf(),
    ensures
        forall|k: int| 0 <= k < fleet_upto(routes, r, cfg, seed).len() ==> {
            let v = #[trigger] fleet_upto(routes, r, cfg, seed)[k];
            &&& v.route_index < r
            &&& vehicle_ok(v, routes[v.route_index as int].waypoints@)
            &&& v.kind == routes[v.route_index as int].kind
        },
    decreases r,
{
    if r > 0 {
        lemma_fleet_ok(routes, (r - 1) as nat, cfg, seed);
        let prev = fleet_upto(routes, (r - 1) as nat, cfg, seed);
        let route = routes[r - 1];
        let all = fleet_upto(routes, r, cfg, seed);
        assert forall|k: int| 0 <= k < all.len() implies {
            let v = #[trigger] all[k];
            &&& v.route_index < r
            &&& vehicle_ok(v, routes[v.route_index as int].waypoints@)
            &&& v.kind == routes[v.route_index as int].kind
        } by {
            if k >= prev.len() {
                let j = k - prev.len();
                let g = prev.len() + j;
                let jitter = draw_value(draw_state(seed, (2 * g + 1) as nat));
                let sd = draw_value(draw_state(seed, (2 * g + 2) as nat));
                lemma_seed_vehicle_ok(route, r - 1, j, cfg, jitter, sd);
                lemma_advanced_ok(seed_vehicle(route, r - 1, j, cfg, jitter, sd), route.waypoints@);
                assert(all[k] == spawned(route, r - 1, j, cfg, seed, g));
            } else {
                assert(all[k] == prev[k]);
            }
        }
    }
}

fn spawn_one(route: &Route, ri: usize, j: u32, count: u32, cfg: &SpawnConfig, jitter: u32, sd: u32) -> (v: Vehicle)
    requires
        route.wf(),
        route.waypoints@.len() >= 2,
        count == per_route(*route, *cfg),
        j < count,
        cfg.wf(),
    ensures
        v == advanced(seed_vehicle(*route, ri as int, j as int, *cfg, jitter, sd), route.waypoints@),
        vehicle_ok(v, route.waypoints@),
{
    let n = route.waypoints.len();
    let fwd_count = count / 2;
    let forward = j < fwd_count;
    let (i, slots) = if forward {
        (j, fwd_count)
    } else {
        (j - fwd_count, count - fwd_count)
    };
    proof {
        lemma_start_fraction_in_slice(i as int, slots as int, jitter);
        lemma_seed_vehicle_ok(*route, ri as int, j as int, *cfg, jitter, sd);
    }
    let num: u64 = (i as u64) * (FRACTION_ONE as u64) + (jitter % FRACTION_ONE) as u64;
    let fraction = (num / (slots as u64)) as u32;
    assert(fraction == start_fraction(i as int, slots as int, jitter));
    let speed = (cfg.min_speed as u64 + (sd as u64) % (cfg.speed_spread as u64 + 1)) as u32;
    assert(speed == start_speed(*cfg, sd));
    let mut v = Vehicle {
        kind: route.kind,
        route_index: ri,
        direction: if forward { 1 } else { -1 },
        last_index: if forward { 0 } else { n - 1 },
        next_index: if forward { 1 } else { n - 2 },
        fraction,
        speed,
        x: 0,
        y: 0,
    };
    assert(v == seed_vehicle(*route, ri as int, j as int, *cfg, jitter, sd));
    v.update_position(route);
    v
}

fn spawn_on_route(
    fleet: &mut Vec<Vehicle>,
    state: &mut u64,
    route: &Route,
    r: usize,
    count: u32,
    cfg: &SpawnConfig,
    seed: u64,
    Ghost(prev): Ghost<Seq<Vehicle>>,
)
    requires
        route.wf(),
        route.waypoints@.len() >= 2 || count == 0,
        cfg.wf(),
        count == per_route(*route, *cfg),
        old(fleet)@ == prev,
        prev.len() + count <= usize::MAX,
        *old(state) == draw_state(seed, (2 * prev.len()) as nat),
    ensures
        final(fleet)@ == prev + Seq::new(
            count as nat,
            |jj: int| spawned(*route, r as int, jj, *cfg, seed, prev.len() + jj),
        ),
        *final(state) == draw_state(seed, (2 * final(fleet)@.len()) as nat),
{
    let mut j: u32 = 0;
    while j < count
        invariant
            route.wf(),
            route.waypoints@.len() >= 2 || count == 0,
            cfg.wf(),
            count == per_route(*route, *cfg),
            j <= count,
            prev.len() + count <= usize::MAX,
            fleet@ == prev + Seq::new(
                j as nat,
                |jj: int| spawned(*route, r as int, jj, *cfg, seed, prev.len() + jj),
            ),
            *state == draw_state(seed, (2 * fleet@.len()) as nat),
        decreases count - j,
    {
        let ghost g = fleet@.len();
        *state = next_state(*state);
        assert(*state == draw_state(seed, (2 * g + 1) as nat));
        let jitter = (*state / DRAW_SHIFT) as u32;
        *state = next_state(*state);
        assert(*state == draw_state(seed, (2 * g + 2) as nat));
        let sd = (*state / DRAW_SHIFT) as u32;
        let v = spawn_one(route, r, j, count, cfg, jitter, sd);
        fleet.push(v);
        j = j + 1;
        proof {
            assert(fleet@ =~= prev + Seq::new(
                j as nat,
                |jj: int| spawned(*route, r as int, jj, *cfg, seed, prev.len() + jj),
            ));
        }
    }
    proof {
        assert(fleet@ =~= prev + Seq::new(
            count as nat,
            |jj: int| spawned(*route, r as int, jj, *cfg, seed, prev.len() + jj),
        ));
    }
}

fn route_count(route: &Route, cfg: &SpawnConfig) -> (r: u32)
    ensures
        r == per_route(*route, *cfg),
{
    if route.waypoints.len() >= 2 {
        match route.kind {
            VehicleType::Bus => cfg.buses_per_route,
            VehicleType::Train => cfg.trains_per_route,
        }
    } else {
        0
    }
}

/// The size of the fleet that `spawn_fleet` builds on `routes`, or `None`
/// when it would not fit in memory.
pub fn fleet_size(routes: &Vec<Route>, cfg: &SpawnConfig) -> (r: Option<usize>)
    ensures
        r == (if fleet_total(routes@, routes@.len(), *cfg) <= usize::MAX {
            Some(fleet_total(routes@, routes@.len(), *cfg) as usize)
        } else {
            None::<usize>
        }),
{
    let mut total: usize = 0;
    let mut r: usize = 0;
    while r < routes.len()
        invariant
            r <= routes@.len(),
            total == fleet_total(routes@, r as nat, *cfg),
        decreases routes@.len() - r,
    {
        let c = route_count(&routes[r], cfg);
        if total > usize::MAX - (c as usize) {
            proof {
                lemma_fleet_total_grows(routes@, (r + 1) as nat, routes@.len(), *cfg);
            }
            return None;
        }
        total = total + c as usize;
        r = r + 1;
    }
    Some(total)
}

/// The fleet that `spawn_fleet` builds on `routes`, or no fleet at all
/// when it would not fit in memory.
pub open spec fn bounded_fleet(routes: Seq<Route>, cfg: SpawnConfig, seed: u64) -> Seq<Vehicle> {
    if fleet_total(routes, routes.len(), cfg) <= usize::MAX {
        fleet_upto(routes, routes.len(), cfg, seed)
    } else {
        Seq::empty()
    }
}

/// Spawns the fleet for a catalog: every route with at least two waypoints
/// gets its configured number of vehicles, half of them starting forward
/// from the first waypoint and the rest backward from the last, each placed
/// in its own slice of the first segment and then moved by one update.
/// `seed` drives the placement inside the slices and the speeds.
pub fn spawn_fleet(routes: &Vec<Route>, cfg: &SpawnConfig, seed: u64) -> (fleet: Vec<Vehicle>)
    requires
        forall|i: int| 0 <= i < routes@.len() ==> (#[trigger] routes@[i]).wf(),
        cfg.wf(),
        fleet_total(routes@, routes@.len(), *cfg) <= usize::MAX,
    ensures
        fleet@ == fleet_upto(routes@, routes@.len(), *cfg, seed),
        forall|k: int| 0 <= k < fleet@.len() ==> {
            let v = #[trigger] fleet@[k];
            &&& v.route_index < routes@.len()
            &&& vehicle_ok(v, routes@[v.route_index as int].waypoints@)
            &&& v.kind == routes@[v.route_index as int].kind
        },
{
    let mut fleet: Vec<Vehicle> = Vec::new();
    let mut state: u64 = seed;
    let mut r: usize = 0;
    proof {
        lemma_fleet_total_grows(routes@, 0, routes@.len(), *cfg);
    }
    while r < routes.len()
        invariant
            r <= routes@.len(),
            forall|i: int| 0 <= i < routes@.len() ==> (#[trigger] routes@[i]).wf(),
            cfg.wf(),
            fleet_total(routes@, routes@.len(), *cfg) <= usize::MAX,
            fleet@ == fleet_upto(routes@, r as nat, *cfg, seed),
            state == draw_state(seed, (2 * fleet@.len()) as nat),
        decreases routes@.len() - r,
    {
        let route = &routes[r];
        let count = route_count(route, cfg);
        let ghost prev = fleet@;
        proof {
            lemma_fleet_len(routes@, r as nat, *cfg, seed);
            lemma_fleet_total_grows(routes@, (r + 1) as nat, routes@.len(), *cfg);
        }
        spawn_on_route(&mut fleet, &mut state, route, r, count, cfg, seed, Ghost(prev));
        r = r + 1;
        proof {
            assert(fleet@ =~= fleet_upto(routes@, r as nat, *cfg, seed));
        }
    }
    proof {
        lemma_fleet_ok(routes@, routes@.len(), *cfg, seed);
    }
    fleet
}

} // verus!
