use vstd::prelude::*;
use crate::route::{
    FRACTION_ONE, Route, VehicleType, Waypoint, in_world, interpolate, lerp, routes_follow_plan, waypoints_in_world,
};
use crate::fleet::{SpawnConfig, bounded_fleet, fleet_size, fleet_total, fleet_upto, spawn_fleet};
use crate::clock::SimulationControl;
use crate::store::{Catalog, SimulationState, counts_of, fleet_fits};
use crate::synthetic::{build_synthetic_routes, synth_network, synth_route_count, synth_route_ok};
use crate::vehicle::{Vehicle, leg_ok, vehicle_ok};

verus! {

/// One arrival prediction of the live feed; any field may be missing.
#[derive(Debug)]
pub struct Prediction {
    pub vehicle_id: Option<String>,
    /// Seconds until the vehicle reaches the station.
    pub time_to_station: Option<u32>,
    /// The line the vehicle runs on.
    pub line_id: Option<String>,
}

/// The predictions fetched for one tracked line.
#[derive(Debug)]
pub struct LineArrivals {
    pub kind: VehicleType,
    pub predictions: Vec<Prediction>,
}

/// Where the placeholder route of each live line runs, how far ahead
/// predictions reach, and how fast live vehicles move.
#[derive(Clone, Copy, Debug)]
pub struct LiveConfig {
    pub start: Waypoint,
    pub end: Waypoint,
    pub horizon_secs: u32,
    pub speed: u32,
}

impl LiveConfig {
    pub open spec fn wf(&self) -> bool {
        &&& in_world(self.start)
        &&& in_world(self.end)
        &&& self.horizon_secs > 0
    }
}

pub open spec fn usable(p: Prediction) -> bool {
    p.vehicle_id is Some && p.time_to_station is Some && p.line_id is Some
}

pub open spec fn same_vehicle(p: Prediction, q: Prediction) -> bool {
    usable(p) && usable(q) && p.vehicle_id->0@ == q.vehicle_id->0@
}

/// Prediction `i` is the one kept for its vehicle: no prediction for the
/// same vehicle is sooner, and none before it is as soon.
pub open spec fn kept(preds: Seq<Prediction>, i: int) -> bool {
    &&& usable(preds[i])
    &&& forall|j: int| 0 <= j < preds.len() && #[trigger] same_vehicle(preds[i], preds[j])
        ==> preds[i].time_to_station->0 <= preds[j].time_to_station->0
    &&& forall|j: int| 0 <= j < i && #[trigger] same_vehicle(preds[i], preds[j])
        ==> preds[i].time_to_station->0 < preds[j].time_to_station->0
}

/// Indices, in increasing order, of the kept predictions among the first `n`.
pub open spec fn kept_upto(preds: Seq<Prediction>, n: nat) -> Seq<int>
    decreases n,
{
    if n == 0 {
        Seq::empty()
    } else {
        let prev = kept_upto(preds, (n - 1) as nat);
        if kept(preds, n - 1) {
            prev.push(n - 1)
        } else {
            prev
        }
    }
}

pub proof fn lemma_kept_upto_bounds(preds: Seq<Prediction>, n: nat)
    ensures
        kept_upto(preds, n).len() <= n,
        forall|k: int| 0 <= k < kept_upto(preds, n).len() ==> 0 <= #[trigger] kept_upto(preds, n)[k] < n,
        forall|k: int| 0 <= k < kept_upto(preds, n).len() ==> kept(preds, #[trigger] kept_upto(preds, n)[k]),
    decreases n,
{
    if n > 0 {
        lemma_kept_upto_bounds(preds, (n - 1) as nat);
    }
}

fn ids_equal(a: &Option<String>, b: &Option<String>) -> (r: bool)
    ensures
        r == (a is Some && b is Some && a->0@ == b->0@),
{
    match (a, b) {
        (Some(x), Some(y)) => *x == *y,
        _ => false,
    }
}

fn is_kept(preds: &Vec<Prediction>, i: usize) -> (r: bool)
    requires
        i < preds@.len(),
    ensures
        r == kept(preds@, i as int),
{
    let p = &preds[i];
    let t = match p.time_to_station {
        Some(t) => t,
        None => return false,
    };
    if p.vehicle_id.is_none() || p.line_id.is_none() {
        return false;
    }
    let mut j: usize = 0;
    while j < preds.len()
        invariant
            i < preds@.len(),
            p == preds@[i as int],
            usable(*p),
            t == p.time_to_station->0,
            j <= preds@.len(),
            forall|jj: int| 0 <= jj < j && #[trigger] same_vehicle(preds@[i as int], preds@[jj])
                ==> t <= preds@[jj].time_to_station->0,
            forall|jj: int| 0 <= jj < j && jj < i && #[trigger] same_vehicle(preds@[i as int], preds@[jj])
                ==> t < preds@[jj].time_to_station->0,
        decreases preds@.len() - j,
    {
        let q = &preds[j];
        if ids_equal(&p.vehicle_id, &q.vehicle_id) && q.line_id.is_some() {
            match q.time_to_station {
                Some(u) => {
                    if u < t || (j < i && u == t) {
                        assert(same_vehicle(preds@[i as int], preds@[j as int]));
                        return false;
                    }
                },
                None => {},
            }
        }
        j = j + 1;
    }
    true
}

/// The predictions worth turning into vehicles: for each vehicle id the
/// soonest prediction, the earliest one among equally soon ones. Predictions
/// without a vehicle id, a time or a line id are skipped. Returns their indices in increasing order.
pub fn select_predictions(preds: &Vec<Prediction>) -> (r: Vec<usize>)
    ensures
        r@.len() == kept_upto(preds@, preds@.len()).len(),
        forall|k: int| 0 <= k < r@.len() ==> r@[k] as int == #[trigger] kept_upto(preds@, preds@.len())[k],
{
    let mut out: Vec<usize> = Vec::new();
    let mut i: usize = 0;
    while i < preds.len()
        invariant
            i <= preds@.len(),
            out@.len() == kept_upto(preds@, i as nat).len(),
            forall|k: int| 0 <= k < out@.len() ==> out@[k] as int == #[trigger] kept_upto(preds@, i as nat)[k],
        decreases preds@.len() - i,
    {
        if is_kept(preds, i) {
            out.push(i);
        }
        i = i + 1;
    }
    out
}

/// Progress towards the station for a vehicle `secs` seconds away:
/// `(horizon - min(secs, horizon)) / horizon` of a segment.
pub open spec fn progress_spec(secs: int, horizon: int) -> int {
    let capped = if secs < horizon { secs } else { horizon };
    (horizon - capped) * (FRACTION_ONE as int) / horizon
}

pub fn progress_from_time(secs: u32, horizon: u32) -> (f: u32)
    requires
        horizon > 0,
    ensures
        f == progress_spec(secs as int, horizon as int),
        f <= FRACTION_ONE,
{
    let capped = if secs < horizon { secs } else { horizon };
    let num: u64 = (horizon - capped) as u64 * FRACTION_ONE as u64;
    assert((num as int) / (horizon as int) <= FRACTION_ONE) by (nonlinear_arith)
        requires
            num == (horizon - capped) * 1_000_000,
            0 <= capped <= horizon,
            horizon > 0,
    ;
    (num / horizon as u64) as u32
}

/// The start fraction of a live vehicle: its progress towards the station,
/// kept just short of the station itself.
pub open spec fn live_fraction(secs: int, horizon: int) -> int {
    let p = progress_spec(secs, horizon);
    if p < FRACTION_ONE {
        p
    } else {
        FRACTION_ONE - 1
    }
}

/// The live vehicle for a prediction on line `li`: heading for the station
/// at the end of its placeholder route, at the progress that its time to
/// the station gives, and positioned there.
pub open spec fn live_vehicle(kind: VehicleType, li: int, p: Prediction, cfg: LiveConfig) -> Vehicle {
    let f = live_fraction(p.time_to_station->0 as int, cfg.horizon_secs as int);
    let pos = interpolate(cfg.start, cfg.end, f);
    Vehicle {
        kind,
        route_index: li as usize,
        direction: 1,
        last_index: 0,
        next_index: 1,
        fraction: f as u32,
        speed: cfg.speed,
        x: pos.x,
        y: pos.y,
    }
}

pub open spec fn live_route_points(cfg: LiveConfig) -> Seq<Waypoint> {
    seq![cfg.start, cfg.end]
}

/// The vehicles of the first `l` lines of the live feed.
pub open spec fn live_fleet(lines: Seq<LineArrivals>, l: nat, cfg: LiveConfig) -> Seq<Vehicle>
    decreases l,
{
    if l == 0 {
        Seq::empty()
    } else {
        let line = lines[l - 1];
        let preds = line.predictions@;
        let ks = kept_upto(preds, preds.len());
        live_fleet(lines, (l - 1) as nat, cfg) + Seq::new(
            ks.len(),
            |k: int| live_vehicle(line.kind, l - 1, preds[ks[k]], cfg),
        )
    }
}

pub proof fn lemma_live_fleet_ok(lines: Seq<LineArrivals>, l: nat, cfg: LiveConfig)
    requires
        l <= lines.len() <= usize::MAX,
        cfg.wf(),
    ensures
        forall|k: int| 0 <= k < live_fleet(lines, l, cfg).len() ==> {
            let v = #[trigger] live_fleet(lines, l, cfg)[k];
            &&& v.route_index < l
            &&& v.kind == lines[v.route_index as int].kind
            &&& vehicle_ok(v, live_route_points(cfg))
        },
    decreases l,
{
    if l > 0 {
        lemma_live_fleet_ok(lines, (l - 1) as nat, cfg);
        let prev = live_fleet(lines, (l - 1) as nat, cfg);
        let all = live_fleet(lines, l, cfg);
        let line = lines[l - 1];
        let preds = line.predictions@;
        let ks = kept_upto(preds, preds.len());
        let ws = live_route_points(cfg);
        assert(waypoints_in_world(ws));
        assert forall|k: int| 0 <= k < all.len() implies {
            let v = #[trigger] all[k];
            &&& v.route_index < l
            &&& v.kind == lines[v.route_index as int].kind
            &&& vehicle_ok(v, live_route_points(cfg))
        } by {
            if k >= prev.len() {
                let v = live_vehicle(line.kind, l - 1, preds[ks[k - prev.len()]], cfg);
                assert(leg_ok(v, 2));
                assert(all[k] == v);
            } else {
                assert(all[k] == prev[k]);
            }
        }
    }
}

/// Builds the catalog of the live tier: one two-waypoint placeholder route
/// per line, and one vehicle per kept prediction, set on its line's route at
/// the progress that its time to the station gives (just short of the
/// station for a vehicle that is due), heading for the station.
/// `None` when no line yields a vehicle.
pub fn build_live_catalog(lines: &Vec<LineArrivals>, cfg: &LiveConfig) -> (r: Option<Catalog>)
    requires
        cfg.wf(),
    ensures
        r is None <==> live_fleet(lines@, lines@.len(), *cfg).len() == 0,
        r matches Some(c) ==> {
            &&& c.wf()
            &&& c.vehicles@ == live_fleet(lines@, lines@.len(), *cfg)
            &&& c.routes@.len() == lines@.len()
            &&& forall|i: int| 0 <= i < c.routes@.len() ==> {
                let rt = #[trigger] c.routes@[i];
                &&& rt.id == i
                &&& rt.kind == lines@[i].kind
                &&& rt.waypoints@ == live_route_points(*cfg)
            }
        },
{
    let mut routes: Vec<Route> = Vec::new();
    let mut vehicles: Vec<Vehicle> = Vec::new();
    let mut l: usize = 0;
    while l < lines.len()
        invariant
            cfg.wf(),
            l <= lines@.len(),
            vehicles@ == live_fleet(lines@, l as nat, *cfg),
            routes@.len() == l,
            forall|i: int| 0 <= i < l ==> {
                let rt = #[trigger] routes@[i];
                &&& rt.id == i
                &&& rt.kind == lines@[i].kind
                &&& rt.waypoints@ == live_route_points(*cfg)
            },
        decreases lines@.len() - l,
    {
        let line = &lines[l];
        let ks = select_predictions(&line.predictions);
        let ghost prev = vehicles@;
        let ghost preds = line.predictions@;
        let ghost kept_ix = kept_upto(preds, preds.len());
        proof {
            lemma_kept_upto_bounds(preds, preds.len());
        }
        let mut waypoints: Vec<Waypoint> = Vec::new();
        waypoints.push(cfg.start);
        waypoints.push(cfg.end);
        proof {
            assert(waypoints@ =~= live_route_points(*cfg));
        }
        let route = Route { id: l, kind: line.kind, waypoints };
        let mut k: usize = 0;
        while k < ks.len()
            invariant
                cfg.wf(),
                l < lines@.len(),
                line == lines@[l as int],
                preds == line.predictions@,
                kept_ix == kept_upto(preds, preds.len()),
                ks@.len() == kept_ix.len(),
                forall|kk: int| 0 <= kk < ks@.len() ==> ks@[kk] as int == #[trigger] kept_ix[kk],
                forall|kk: int| 0 <= kk < kept_ix.len() ==> 0 <= #[trigger] kept_ix[kk] < preds.len(),
                forall|kk: int| 0 <= kk < kept_ix.len() ==> kept(preds, #[trigger] kept_ix[kk]),
                route.wf(),
                route.waypoints@ == live_route_points(*cfg),
                route.kind == line.kind,
                k <= ks@.len(),
                vehicles@ == prev + Seq::new(
                    k as nat,
                    |kk: int| live_vehicle(line.kind, l as int, preds[kept_ix[kk]], *cfg),
                ),
            decreases ks@.len() - k,
        {
            let p = &line.predictions[ks[k]];
            proof {
                assert(ks@[k as int] as int == kept_ix[k as int]);
                assert(kept(preds, kept_ix[k as int]));
            }
            let secs = match p.time_to_station {
                Some(t) => t,
                None => 0,
            };
            let progress = progress_from_time(secs, cfg.horizon_secs);
            let fraction = if progress < FRACTION_ONE { progress } else { FRACTION_ONE - 1 };
            let v = Vehicle {
                kind: line.kind,
                route_index: l,
                direction: 1,
                last_index: 0,
                next_index: 1,
                fraction,
                speed: cfg.speed,
                x: lerp(cfg.start.x, cfg.end.x, fraction),
                y: lerp(cfg.start.y, cfg.end.y, fraction),
            };
            assert(v == live_vehicle(line.kind, l as int, preds[kept_ix[k as int]], *cfg));
            vehicles.push(v);
            k = k + 1;
            proof {
                assert(vehicles@ =~= prev + Seq::new(
                    k as nat,
                    |kk: int| live_vehicle(line.kind, l as int, preds[kept_ix[kk]], *cfg),
                ));
            }
        }
        routes.push(route);
        l = l + 1;
        proof {
            assert(vehicles@ =~= live_fleet(lines@, l as nat, *cfg));
        }
    }
    if vehicles.len() == 0 {
        return None;
    }
    proof {
        lemma_live_fleet_ok(lines@, lines@.len(), *cfg);
        assert(waypoints_in_world(live_route_points(*cfg)));
        assert(fleet_fits(routes@, vehicles@));
    }
    Some(Catalog { routes, vehicles })
}

} // verus!

verus! {

/// What `str::to_lowercase` returns for the characters `s`.
pub uninterp spec fn lower_of(s: Seq<char>) -> Seq<char>;

/// Relies on `str::to_lowercase`: its result depends on the characters of
/// the input alone.
#[verifier::external_body]
fn lowercase(s: &str) -> (r: String)
    ensures
        r@ == lower_of(s@),
{
    s.to_lowercase()
}

/// A line whose lower-cased transport mode is `bus` runs buses; every other
/// mode is of the rail family.
pub open spec fn mode_kind(lowered: Seq<char>) -> VehicleType {
    if lowered == seq!['b', 'u', 's'] {
        VehicleType::Bus
    } else {
        VehicleType::Train
    }
}

/// The vehicle type for an already lower-cased transport mode.
pub fn vehicle_type_for_lowered_mode(lowered: &String) -> (k: VehicleType)
    ensures
        k == mode_kind(lowered@),
{
    let bus = "bus".to_owned();
    proof {
        reveal_strlit("bus");
        assert(bus@ =~= seq!['b', 'u', 's']);
    }
    if *lowered == bus {
        VehicleType::Bus
    } else {
        VehicleType::Train
    }
}

/// The vehicle type of a line from its declared transport mode, in any case.
pub fn vehicle_type_for_mode(mode: &str) -> (k: VehicleType)
    ensures
        k == mode_kind(lower_of(mode@)),
{
    let lowered = lowercase(mode);
    vehicle_type_for_lowered_mode(&lowered)
}

/// One line of the pre-loaded topology: its transport mode and its geometry,
/// as contiguous polylines.
#[derive(Debug)]
pub struct TopologyLine {
    pub mode: String,
    pub segments: Vec<Vec<Waypoint>>,
}

/// A polyline can become a route: two waypoints or more, all in the world.
pub open spec fn segment_usable(seg: Seq<Waypoint>) -> bool {
    seg.len() >= 2 && waypoints_in_world(seg)
}

/// Kind and waypoints of the routes that the first `s` polylines give.
pub open spec fn segment_plan(kind: VehicleType, segs: Seq<Vec<Waypoint>>, s: nat) -> Seq<(VehicleType, Seq<Waypoint>)>
    decreases s,
{
    if s == 0 {
        Seq::empty()
    } else {
        let prev = segment_plan(kind, segs, (s - 1) as nat);
        if segment_usable(segs[s - 1]@) {
            prev.push((kind, segs[s - 1]@))
        } else {
            prev
        }
    }
}

/// Kind and waypoints of the routes that the first `l` topology lines give.
pub open spec fn static_plan(lines: Seq<TopologyLine>, l: nat) -> Seq<(VehicleType, Seq<Waypoint>)>
    decreases l,
{
    if l == 0 {
        Seq::empty()
    } else {
        let line = lines[l - 1];
        static_plan(lines, (l - 1) as nat) + segment_plan(
            mode_kind(lower_of(line.mode@)),
            line.segments@,
            line.segments@.len(),
        )
    }
}

fn usable_segment(seg: &Vec<Waypoint>) -> (r: bool)
    ensures
        r == segment_usable(seg@),
{
    if seg.len() < 2 {
        return false;
    }
    let mut i: usize = 0;
    while i < seg.len()
        invariant
            i <= seg@.len(),
            forall|j: int| 0 <= j < i ==> #[trigger] in_world(seg@[j]),
        decreases seg@.len() - i,
    {
        let p = seg[i];
        if p.x < -crate::route::WORLD_LIMIT || p.x > crate::route::WORLD_LIMIT || p.y < -crate::route::WORLD_LIMIT
            || p.y > crate::route::WORLD_LIMIT {
            assert(!in_world(seg@[i as int]));
            return false;
        }
        i = i + 1;
    }
    true
}

fn copy_points(seg: &Vec<Waypoint>) -> (r: Vec<Waypoint>)
    ensures
        r@ == seg@,
        r@.len() <= usize::MAX,
{
    let mut out: Vec<Waypoint> = Vec::new();
    let mut i: usize = 0;
    while i < seg.len()
        invariant
            i <= seg@.len(),
            out@ == seg@.subrange(0, i as int),
        decreases seg@.len() - i,
    {
        out.push(seg[i]);
        i = i + 1;
        proof {
            assert(out@ =~= seg@.subrange(0, i as int));
        }
    }
    proof {
        assert(out@ =~= seg@);
    }
    out
}

/// Routes of the static tier: one per usable polyline of the topology, of
/// the vehicle type that its line's transport mode gives.
pub fn build_static_routes(lines: &Vec<TopologyLine>) -> (routes: Vec<Route>)
    ensures
        routes_follow_plan(routes@, static_plan(lines@, lines@.len())),
        forall|i: int| 0 <= i < routes@.len() ==> (#[trigger] routes@[i]).wf() && routes@[i].can_host(),
{
    let mut routes: Vec<Route> = Vec::new();
    let mut l: usize = 0;
    while l < lines.len()
        invariant
            l <= lines@.len(),
            routes_follow_plan(routes@, static_plan(lines@, l as nat)),
            forall|i: int| 0 <= i < routes@.len() ==> (#[trigger] routes@[i]).wf() && routes@[i].can_host(),
        decreases lines@.len() - l,
    {
        let line = &lines[l];
        let kind = vehicle_type_for_mode(line.mode.as_str());
        let ghost before = routes@;
        let ghost base = static_plan(lines@, l as nat);
        let mut s: usize = 0;
        while s < line.segments.len()
            invariant
                l < lines@.len(),
                line == lines@[l as int],
                kind == mode_kind(lower_of(line.mode@)),
                s <= line.segments@.len(),
                base == static_plan(lines@, l as nat),
                routes_follow_plan(routes@, base + segment_plan(kind, line.segments@, s as nat)),
                forall|i: int| 0 <= i < routes@.len() ==> (#[trigger] routes@[i]).wf() && routes@[i].can_host(),
            decreases line.segments@.len() - s,
        {
            let seg = &line.segments[s];
            let ghost plan = base + segment_plan(kind, line.segments@, s as nat);
            if usable_segment(seg) {
                let waypoints = copy_points(seg);
                let id = routes.len();
                routes.push(Route { id, kind, waypoints });
                proof {
                    assert(base + segment_plan(kind, line.segments@, (s + 1) as nat) =~= plan.push(
                        (kind, seg@),
                    ));
                }
            } else {
                assert(base + segment_plan(kind, line.segments@, (s + 1) as nat) =~= plan);
            }
            s = s + 1;
        }
        l = l + 1;
    }
    routes
}

} // verus!

verus! {

/// The number of vehicles spawned on the first `n` planned routes.
pub open spec fn plan_fleet_total(plan: Seq<(VehicleType, Seq<Waypoint>)>, n: nat, cfg: SpawnConfig) -> nat
    decreases n,
{
    if n == 0 {
        0
    } else {
        plan_fleet_total(plan, (n - 1) as nat, cfg) + if plan[n - 1].1.len() >= 2 {
            match plan[n - 1].0 {
                VehicleType::Bus => cfg.buses_per_route as nat,
                VehicleType::Train => cfg.trains_per_route as nat,
            }
        } else {
            0
        }
    }
}

pub proof fn lemma_plan_fleet_total(routes: Seq<Route>, plan: Seq<(VehicleType, Seq<Waypoint>)>, n: nat, cfg: SpawnConfig)
    requires
        routes_follow_plan(routes, plan),
        n <= routes.len(),
    ensures
        fleet_total(routes, n, cfg) == plan_fleet_total(plan, n, cfg),
    decreases n,
{
    if n > 0 {
        lemma_plan_fleet_total(routes, plan, (n - 1) as nat, cfg);
        assert(routes[n - 1].kind == plan[n - 1].0);
    }
}

/// The static tier applies: it yields a route, and the fleet on its routes fits in memory.
pub open spec fn static_tier_applies(topology: Seq<TopologyLine>, cfg: SpawnConfig) -> bool {
    let plan = static_plan(topology, topology.len());
    plan.len() > 0 && plan_fleet_total(plan, plan.len(), cfg) <= usize::MAX
}

/// The tier of the data-source cascade that produced a catalog.
#[derive(Clone, Copy, Debug, PartialEq, Eq, Structural)]
pub enum DataTier {
    Live,
    Static,
    Synthetic,
}

/// Produces the catalog to simulate, trying the tiers in order:
/// the live feed if it yields any vehicle; else the static topology if it
/// yields any usable route (with a fleet spawned on it); else the generated
/// network, which never fails. The catalog is never empty.
pub fn resolve(
    arrivals: &Vec<LineArrivals>,
    live_cfg: &LiveConfig,
    topology: &Vec<TopologyLine>,
    spawn_cfg: &SpawnConfig,
    seed: u64,
) -> (r: (Catalog, DataTier))
    requires
        live_cfg.wf(),
        spawn_cfg.wf(),
    ensures
        r.0.wf(),
        r.0.routes@.len() > 0,
        (r.1 == DataTier::Live) <==> live_fleet(arrivals@, arrivals@.len(), *live_cfg).len() > 0,
        r.1 == DataTier::Live ==> {
            &&& r.0.vehicles@ == live_fleet(arrivals@, arrivals@.len(), *live_cfg)
            &&& r.0.routes@.len() == arrivals@.len()
            &&& forall|i: int| 0 <= i < r.0.routes@.len() ==> {
                let rt = #[trigger] r.0.routes@[i];
                &&& rt.id == i
                &&& rt.kind == arrivals@[i].kind
                &&& rt.waypoints@ == live_route_points(*live_cfg)
            }
        },
        (r.1 == DataTier::Static) <==> live_fleet(arrivals@, arrivals@.len(), *live_cfg).len() == 0
            && static_tier_applies(topology@, *spawn_cfg),
        r.1 == DataTier::Static ==> {
            &&& routes_follow_plan(r.0.routes@, static_plan(topology@, topology@.len()))
            &&& r.0.vehicles@ == fleet_upto(r.0.routes@, r.0.routes@.len(), *spawn_cfg, seed)
        },
        r.1 == DataTier::Synthetic ==> {
            &&& routes_follow_plan(r.0.routes@, synth_network(seed))
            &&& r.0.routes@.len() == synth_route_count()
            &&& forall|i: int| 0 <= i < r.0.routes@.len() ==> synth_route_ok(#[trigger] r.0.routes@[i], i)
            &&& r.0.vehicles@ == bounded_fleet(r.0.routes@, *spawn_cfg, seed)
        },
{
    match build_live_catalog(arrivals, live_cfg) {
        Some(c) => {
            return (c, DataTier::Live);
        },
        None => {},
    }
    let routes = build_static_routes(topology);
    proof {
        lemma_plan_fleet_total(routes@, static_plan(topology@, topology@.len()), routes@.len(), *spawn_cfg);
    }
    if routes.len() > 0 {
        match fleet_size(&routes, spawn_cfg) {
            Some(_) => {
                let vehicles = spawn_fleet(&routes, spawn_cfg, seed);
                return (Catalog { routes, vehicles }, DataTier::Static);
            },
            None => {},
        }
    }
    (synthetic_catalog(spawn_cfg, seed), DataTier::Synthetic)
}

/// The generated network with its fleet; the fleet stays empty should it
/// not fit in memory.
pub fn synthetic_catalog(spawn_cfg: &SpawnConfig, seed: u64) -> (c: Catalog)
    requires
        spawn_cfg.wf(),
    ensures
        c.wf(),
        routes_follow_plan(c.routes@, synth_network(seed)),
        c.routes@.len() == synth_route_count(),
        forall|i: int| 0 <= i < c.routes@.len() ==> synth_route_ok(#[trigger] c.routes@[i], i),
        c.vehicles@ == bounded_fleet(c.routes@, *spawn_cfg, seed),
{
    let routes = build_synthetic_routes(seed);
    let vehicles = match fleet_size(&routes, spawn_cfg) {
        Some(_) => spawn_fleet(&routes, spawn_cfg, seed),
        None => Vec::new(),
    };
    proof {
        if fleet_total(routes@, routes@.len(), *spawn_cfg) > usize::MAX {
            assert(vehicles@ =~= bounded_fleet(routes@, *spawn_cfg, seed));
        }
    }
    Catalog { routes, vehicles }
}

} // verus!

verus! {

/// The line identifiers of the rail family; every other line runs buses.
pub open spec fn rail_line_ids() -> Seq<Seq<char>> {
    seq![
        "dlr"@, "elizabeth"@, "london-cable-car"@, "waterloo-city"@, "victoria"@, "piccadilly"@,
        "northern"@, "metropolitan"@, "jubilee"@, "hammersmith-city"@, "district"@, "circle"@,
        "central"@, "bakerloo"@, "thameslink"@, "tram"@, "liberty"@, "lioness"@, "mildmay"@,
        "suffragette"@, "weaver"@, "windrush"@,
    ]
}

/// The vehicle type of a tracked line, by its identifier.
pub fn get_vehicle_type_for_line(line_id: &str) -> (k: VehicleType)
    ensures
        k == (if rail_line_ids().contains(line_id@) { VehicleType::Train } else { VehicleType::Bus }),
{
    let ids: Vec<&'static str> = vec![
        "dlr", "elizabeth", "london-cable-car", "waterloo-city", "victoria", "piccadilly",
        "northern", "metropolitan", "jubilee", "hammersmith-city", "district", "circle",
        "central", "bakerloo", "thameslink", "tram", "liberty", "lioness", "mildmay",
        "suffragette", "weaver", "windrush",
    ];
    let ghost table = rail_line_ids();
    assert(ids@.map_values(|s: &'static str| s@) =~= table);
    let target = line_id.to_owned();
    let mut k: usize = 0;
    while k < ids.len()
        invariant
            ids@.map_values(|s: &'static str| s@) == table,
            table == rail_line_ids(),
            target@ == line_id@,
            k <= ids@.len(),
            forall|j: int| 0 <= j < k ==> table[j] != line_id@,
        decreases ids@.len() - k,
    {
        assert(ids@[k as int]@ == table[k as int]);
        if ids[k].to_owned() == target {
            return VehicleType::Train;
        }
        k = k + 1;
    }
    VehicleType::Bus
}

/// Where the catalog comes from: the generated network, or the live and
/// static tiers, which arrive asynchronously.
#[derive(Clone, Copy, Debug, PartialEq, Eq, Structural)]
pub enum DataSourceMode {
    Generated,
    Loaded,
}

/// Switches the data source. Any load still in flight becomes stale.
/// `Generated`: the generated network and its fleet replace routes and
/// vehicles at once; the pause gate is kept. `Loaded`: routes and vehicles
/// are cleared together and the simulation pauses until the load is
/// finished; the ticket it must present is returned. Either way the fleet
/// counts of `control` are refreshed.
pub fn set_data_source(
    state: &mut SimulationState,
    control: &mut SimulationControl,
    mode: DataSourceMode,
    spawn_cfg: &SpawnConfig,
    seed: u64,
) -> (ticket: Option<u64>)
    requires
        old(state).wf(),
        spawn_cfg.wf(),
    ensures
        final(state).wf(),
        *final(control) == (SimulationControl { vehicle_counts: counts_of(final(state).vehicles@), ..*old(control) }),
        final(state).source_generation == vstd::wrapping::u64_specs::wrapping_add(old(state).source_generation, 1),
        final(state).animation_frame_id == old(state).animation_frame_id,
        mode == DataSourceMode::Generated ==> {
            &&& ticket is None
            &&& final(state).is_paused == old(state).is_paused
            &&& routes_follow_plan(final(state).routes@, synth_network(seed))
            &&& final(state).routes@.len() == synth_route_count()
            &&& forall|i: int| 0 <= i < final(state).routes@.len() ==> synth_route_ok(#[trigger] final(state).routes@[i], i)
            &&& final(state).vehicles@ == bounded_fleet(final(state).routes@, *spawn_cfg, seed)
        },
        mode == DataSourceMode::Loaded ==> {
            &&& ticket == Some(final(state).source_generation)
            &&& final(state).is_paused
            &&& final(state).routes@.len() == 0
            &&& final(state).vehicles@.len() == 0
        },
{
    let ticket = state.begin_source_switch();
    let r = match mode {
        DataSourceMode::Generated => {
            state.rebuild(synthetic_catalog(spawn_cfg, seed));
            None
        },
        DataSourceMode::Loaded => {
            state.rebuild(Catalog { routes: Vec::new(), vehicles: Vec::new() });
            state.set_paused(true);
            Some(ticket)
        },
    };
    control.update_vehicle_counts(state);
    r
}

/// A load started by `set_data_source` has ended, with a catalog or with
/// nothing. A stale result is discarded and changes nothing. Otherwise the
/// catalog is installed; when the load failed altogether, the generated
/// network and its fleet (driven by `seed`) take its place. The simulation
/// resumes and the fleet counts of `control` are refreshed.
/// Returns whether the result was current.
pub fn finish_source_load(
    state: &mut SimulationState,
    control: &mut SimulationControl,
    ticket: u64,
    result: Option<Catalog>,
    spawn_cfg: &SpawnConfig,
    seed: u64,
) -> (current: bool)
    requires
        old(state).wf(),
        result matches Some(c) ==> c.wf(),
        spawn_cfg.wf(),
    ensures
        final(state).wf(),
        !current ==> *final(control) == *old(control),
        current ==> *final(control) == (SimulationControl {
            vehicle_counts: counts_of(final(state).vehicles@),
            ..*old(control)
        }),
        current == (ticket == old(state).source_generation),
        !current ==> {
            &&& final(state).routes == old(state).routes
            &&& final(state).vehicles == old(state).vehicles
            &&& final(state).is_paused == old(state).is_paused
        },
        current ==> !final(state).is_paused,
        current ==> match result {
            Some(c) => final(state).routes == c.routes && final(state).vehicles == c.vehicles,
            None => {
                &&& routes_follow_plan(final(state).routes@, synth_network(seed))
                &&& final(state).routes@.len() == synth_route_count()
                &&& final(state).vehicles@ == bounded_fleet(final(state).routes@, *spawn_cfg, seed)
            },
        },
        final(state).source_generation == old(state).source_generation,
        final(state).animation_frame_id == old(state).animation_frame_id,
{
    if ticket != state.source_generation {
        return false;
    }
    match result {
        Some(c) => {
            state.commit_source(ticket, c);
        },
        None => {
            state.commit_source(ticket, synthetic_catalog(spawn_cfg, seed));
        },
    }
    state.set_paused(false);
    control.update_vehicle_counts(state);
    true
}

} // verus!
