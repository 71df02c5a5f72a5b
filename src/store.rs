use vstd::prelude::*;
use crate::route::{Route, VehicleType};
use crate::vehicle::{Vehicle, advanced, lemma_advanced_ok, vehicle_ok};

verus! {

/// Vehicles of the fleet by kind.
#[derive(Clone, Copy, Debug, PartialEq, Eq, Structural)]
pub struct VehicleCounts {
    pub buses: usize,
    pub trains: usize,
    pub total: usize,
}

/// The number of vehicles of kind `kind` in `vs`.
pub open spec fn count_kind(vs: Seq<Vehicle>, kind: VehicleType) -> nat
    decreases vs.len(),
{
    if vs.len() == 0 {
        0
    } else {
        count_kind(vs.drop_last(), kind) + if vs.last().kind == kind { 1nat } else { 0nat }
    }
}

pub open spec fn counts_of(vs: Seq<Vehicle>) -> VehicleCounts {
    VehicleCounts {
        buses: count_kind(vs, VehicleType::Bus) as usize,
        trains: count_kind(vs, VehicleType::Train) as usize,
        total: vs.len() as usize,
    }
}

pub proof fn lemma_counts_add_up(vs: Seq<Vehicle>)
    ensures
        count_kind(vs, VehicleType::Bus) + count_kind(vs, VehicleType::Train) == vs.len(),
    decreases vs.len(),
{
    if vs.len() > 0 {
        lemma_counts_add_up(vs.drop_last());
    }
}

/// Every route is well formed and every vehicle sits on a route of `routes`
/// that can host it, in a state consistent with that route.
pub open spec fn fleet_fits(routes: Seq<Route>, vehicles: Seq<Vehicle>) -> bool {
    &&& forall|i: int| 0 <= i < routes.len() ==> (#[trigger] routes[i]).wf()
    &&& forall|k: int| 0 <= k < vehicles.len() ==> {
        let v = #[trigger] vehicles[k];
        &&& v.route_index < routes.len()
        &&& vehicle_ok(v, routes[v.route_index as int].waypoints@)
    }
}

/// A set of routes together with the vehicles that run on them.
#[derive(Debug)]
pub struct Catalog {
    pub routes: Vec<Route>,
    pub vehicles: Vec<Vehicle>,
}

impl Catalog {
    pub open spec fn wf(&self) -> bool {
        fleet_fits(self.routes@, self.vehicles@)
    }
}

/// The vehicle `v` after one tick on `routes`.
pub open spec fn ticked(routes: Seq<Route>, v: Vehicle) -> Vehicle {
    advanced(v, routes[v.route_index as int].waypoints@)
}

/// Routes, vehicles and the pause gate: the one place where the simulation changes.
#[derive(Debug)]
pub struct SimulationState {
    pub routes: Vec<Route>,
    pub vehicles: Vec<Vehicle>,
    pub is_paused: bool,
    pub animation_frame_id: Option<i32>,
    /// Bumped on every change of data source, to recognise late results.
    pub source_generation: u64,
}

impl SimulationState {
    pub open spec fn wf(&self) -> bool {
        fleet_fits(self.routes@, self.vehicles@)
    }

    /// An empty, running simulation.
    pub fn new() -> (s: Self)
        ensures
            s.wf(),
            s.routes@.len() == 0,
            s.vehicles@.len() == 0,
            !s.is_paused,
            s.animation_frame_id is None,
            s.source_generation == 0,
    {
        SimulationState {
            routes: Vec::new(),
            vehicles: Vec::new(),
            is_paused: false,
            animation_frame_id: None,
            source_generation: 0,
        }
    }

    /// Counts the vehicles of the fleet by kind.
    pub fn vehicle_counts(&self) -> (c: VehicleCounts)
        ensures
            c == counts_of(self.vehicles@),
            c.buses + c.trains == c.total,
    {
        let mut buses: usize = 0;
        let mut trains: usize = 0;
        let mut k: usize = 0;
        let ghost vs = self.vehicles@;
        while k < self.vehicles.len()
            invariant
                vs == self.vehicles@,
                k <= vs.len(),
                buses == count_kind(vs.subrange(0, k as int), VehicleType::Bus),
                trains == count_kind(vs.subrange(0, k as int), VehicleType::Train),
            decreases vs.len() - k,
        {
            proof {
                assert(vs.subrange(0, k + 1).drop_last() =~= vs.subrange(0, k as int));
                lemma_counts_add_up(vs.subrange(0, k as int));
            }
            match self.vehicles[k].kind {
                VehicleType::Bus => buses = buses + 1,
                VehicleType::Train => trains = trains + 1,
            }
            k = k + 1;
        }
        proof {
            assert(vs.subrange(0, vs.len() as int) =~= vs);
            lemma_counts_add_up(vs);
        }
        VehicleCounts { buses, trains, total: self.vehicles.len() }
    }

    /// One frame: unless paused, every vehicle advances once along its own
    /// route. Returns the counts of the fleet afterwards.
    pub fn tick(&mut self) -> (c: VehicleCounts)
        requires
            old(self).wf(),
        ensures
            final(self).wf(),
            final(self).routes == old(self).routes,
            final(self).is_paused == old(self).is_paused,
            final(self).animation_frame_id == old(self).animation_frame_id,
            final(self).source_generation == old(self).source_generation,
            old(self).is_paused ==> final(self).vehicles == old(self).vehicles,
            !old(self).is_paused ==> final(self).vehicles@ == Seq::new(
                old(self).vehicles@.len(),
                |k: int| ticked(old(self).routes@, old(self).vehicles@[k]),
            ),
            c == counts_of(final(self).vehicles@),
    {
        if !self.is_paused {
            self.advance_all();
        }
        self.vehicle_counts()
    }

    fn advance_all(&mut self)
        requires
            old(self).wf(),
        ensures
            final(self).wf(),
            final(self).routes == old(self).routes,
            final(self).is_paused == old(self).is_paused,
            final(self).animation_frame_id == old(self).animation_frame_id,
            final(self).source_generation == old(self).source_generation,
            final(self).vehicles@ == Seq::new(
                old(self).vehicles@.len(),
                |k: int| ticked(old(self).routes@, old(self).vehicles@[k]),
            ),
    {
        let ghost start = self.vehicles@;
        let mut k: usize = 0;
        while k < self.vehicles.len()
            invariant
                fleet_fits(self.routes@, start),
                self.routes == old(self).routes,
                self.is_paused == old(self).is_paused,
                self.animation_frame_id == old(self).animation_frame_id,
                self.source_generation == old(self).source_generation,
                start == old(self).vehicles@,
                self.vehicles@.len() == start.len(),
                k <= start.len(),
                forall|i: int| 0 <= i < k ==> #[trigger] self.vehicles@[i] == ticked(self.routes@, start[i]),
                forall|i: int| k <= i < start.len() ==> #[trigger] self.vehicles@[i] == start[i],
            decreases start.len() - k,
        {
            let mut v = self.vehicles[k];
            let ri = v.route_index;
            proof {
                assert(v == start[k as int]);
                assert(self.routes@[ri as int].wf());
            }
            v.update_position(&self.routes[ri]);
            self.vehicles[k] = v;
            k = k + 1;
        }
        proof {
            assert forall|i: int| 0 <= i < self.vehicles@.len() implies {
                let v = #[trigger] self.vehicles@[i];
                &&& v.route_index < self.routes@.len()
                &&& vehicle_ok(v, self.routes@[v.route_index as int].waypoints@)
            } by {
                let w = start[i];
                assert(self.routes@[w.route_index as int].wf());
                lemma_advanced_ok(w, self.routes@[w.route_index as int].waypoints@);
            }
            assert(self.vehicles@ =~= Seq::new(start.len(), |k: int| ticked(self.routes@, start[k])));
        }
    }

    /// Sets the pause gate; routes and vehicles are not touched. Returns
    /// whether the simulation was paused before.
    pub fn set_paused(&mut self, paused: bool) -> (was: bool)
        ensures
            was == old(self).is_paused,
            final(self).is_paused == paused,
            final(self).routes == old(self).routes,
            final(self).vehicles == old(self).vehicles,
            final(self).animation_frame_id == old(self).animation_frame_id,
            final(self).source_generation == old(self).source_generation,
    {
        let was = self.is_paused;
        self.is_paused = paused;
        was
    }

    /// Flips the pause gate and returns the new value.
    pub fn toggle_paused(&mut self) -> (paused: bool)
        ensures
            paused == !old(self).is_paused,
            final(self).is_paused == paused,
            final(self).routes == old(self).routes,
            final(self).vehicles == old(self).vehicles,
            final(self).animation_frame_id == old(self).animation_frame_id,
            final(self).source_generation == old(self).source_generation,
    {
        self.is_paused = !self.is_paused;
        self.is_paused
    }

    /// Replaces routes and vehicles together, so that no vehicle ever refers
    /// to a route of an earlier catalog.
    pub fn rebuild(&mut self, catalog: Catalog)
        requires
            catalog.wf(),
        ensures
            final(self).wf(),
            final(self).routes == catalog.routes,
            final(self).vehicles == catalog.vehicles,
            final(self).is_paused == old(self).is_paused,
            final(self).animation_frame_id == old(self).animation_frame_id,
            final(self).source_generation == old(self).source_generation,
    {
        self.routes = catalog.routes;
        self.vehicles = catalog.vehicles;
    }

    /// Starts a change of data source: results of requests made before this
    /// call are from now on recognised as stale. Returns the ticket that the
    /// new request must present.
    pub fn begin_source_switch(&mut self) -> (ticket: u64)
        ensures
            ticket == final(self).source_generation,
            ticket == vstd::wrapping::u64_specs::wrapping_add(old(self).source_generation, 1),
            final(self).routes == old(self).routes,
            final(self).vehicles == old(self).vehicles,
            final(self).is_paused == old(self).is_paused,
            final(self).animation_frame_id == old(self).animation_frame_id,
    {
        self.source_generation = self.source_generation.wrapping_add(1);
        self.source_generation
    }

    /// Applies a catalog that arrived for `ticket`, unless another change of
    /// data source has begun since; returns whether it was applied.
    pub fn commit_source(&mut self, ticket: u64, catalog: Catalog) -> (applied: bool)
        requires
            old(self).wf(),
            catalog.wf(),
        ensures
            applied == (ticket == old(self).source_generation),
            final(self).wf(),
            applied ==> final(self).routes == catalog.routes && final(self).vehicles == catalog.vehicles,
            !applied ==> final(self).routes == old(self).routes && final(self).vehicles == old(self).vehicles,
            final(self).is_paused == old(self).is_paused,
            final(self).animation_frame_id == old(self).animation_frame_id,
            final(self).source_generation == old(self).source_generation,
    {
        if ticket == self.source_generation {
            self.rebuild(catalog);
            true
        } else {
            false
        }
    }
}

/// Installs a fresh catalog and restarts the simulation: running, with no
/// frame scheduled.
pub fn initialize_state(state: &mut SimulationState, catalog: Catalog)
    requires
        catalog.wf(),
    ensures
        final(state).wf(),
        final(state).routes == catalog.routes,
        final(state).vehicles == catalog.vehicles,
        !final(state).is_paused,
        final(state).animation_frame_id is None,
        final(state).source_generation == old(state).source_generation,
{
    state.rebuild(catalog);
    state.is_paused = false;
    state.animation_frame_id = None;
}

/// Records the id of the scheduled frame task.
pub fn set_animation_frame_id(state: &mut SimulationState, id: i32)
    ensures
        final(state).animation_frame_id == Some(id),
        final(state).routes == old(state).routes,
        final(state).vehicles == old(state).vehicles,
        final(state).is_paused == old(state).is_paused,
        final(state).source_generation == old(state).source_generation,
{
    state.animation_frame_id = Some(id);
}

/// The id of the scheduled frame task, if any.
pub fn get_animation_frame_id(state: &SimulationState) -> (id: Option<i32>)
    ensures
        id == state.animation_frame_id,
{
    state.animation_frame_id
}

/// Flips the pause gate and returns whether the simulation is now paused.
pub fn toggle_pause(state: &mut SimulationState) -> (paused: bool)
    ensures
        paused == !old(state).is_paused,
        final(state).is_paused == paused,
        final(state).routes == old(state).routes,
        final(state).vehicles == old(state).vehicles,
        final(state).animation_frame_id == old(state).animation_frame_id,
        final(state).source_generation == old(state).source_generation,
{
    state.toggle_paused()
}

pub fn is_paused(state: &SimulationState) -> (paused: bool)
    ensures
        paused == state.is_paused,
{
    state.is_paused
}

/// The number of vehicles in the fleet.
pub fn get_vehicle_count(state: &SimulationState) -> (n: usize)
    ensures
        n == state.vehicles@.len(),
{
    state.vehicles.len()
}

} // verus!
