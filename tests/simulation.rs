use transit_sim::clock::{
    fps_for_interval, get_vehicle_counts, interval_for_fps, toggle_simulation, ClockCommand,
    SimulationControl, FAST_INTERVAL_MS, SLOW_INTERVAL_MS,
};
use transit_sim::camera::Camera;
use transit_sim::fleet::{fleet_size, spawn_fleet, SpawnConfig};
use transit_sim::log::LogConfig;
use transit_sim::route::{Route, VehicleType, Waypoint, FRACTION_ONE};
use transit_sim::store::{
    get_animation_frame_id, get_vehicle_count, initialize_state, is_paused, set_animation_frame_id,
    toggle_pause, Catalog, SimulationState, VehicleCounts,
};

fn line(id: usize, kind: VehicleType, points: &[(i64, i64)]) -> Route {
    Route { id, kind, waypoints: points.iter().map(|&(x, y)| Waypoint { x, y }).collect() }
}

fn config(buses: u32, trains: u32) -> SpawnConfig {
    SpawnConfig { buses_per_route: buses, trains_per_route: trains, min_speed: 5_000, speed_spread: 10_000 }
}

fn sample_routes() -> Vec<Route> {
    vec![
        line(0, VehicleType::Train, &[(0, 0), (100, 0), (200, 0)]),
        line(1, VehicleType::Bus, &[(5, 5)]),
        line(2, VehicleType::Bus, &[(0, 0), (0, 50), (0, 100), (0, 150)]),
    ]
}

#[test]
fn spawn_skips_short_routes_and_splits_directions() {
    let routes = sample_routes();
    let cfg = config(5, 4);
    assert_eq!(fleet_size(&routes, &cfg), Some(9));
    let fleet = spawn_fleet(&routes, &cfg, 42);
    assert_eq!(fleet.len(), 9);
    assert!(fleet.iter().all(|v| v.route_index != 1));
    let trains: Vec<_> = fleet.iter().filter(|v| v.route_index == 0).collect();
    assert_eq!(trains.len(), 4);
    assert!(trains.iter().all(|v| v.kind == VehicleType::Train));
    // first half forward, the rest backward (before the first update moved them)
    let buses: Vec<_> = fleet.iter().filter(|v| v.route_index == 2).collect();
    assert_eq!(buses.len(), 5);
    assert!(buses.iter().all(|v| v.kind == VehicleType::Bus));
    for v in &fleet {
        assert!(v.fraction < FRACTION_ONE);
        assert!(v.speed >= 5_000 && v.speed <= 15_000);
        assert_eq!(v.next_index as i64, v.last_index as i64 + v.direction as i64);
    }
}

#[test]
fn spawn_places_vehicles_in_distinct_slices() {
    let routes = vec![line(0, VehicleType::Bus, &[(0, 0), (1_000_000, 0)])];
    let cfg = SpawnConfig { buses_per_route: 8, trains_per_route: 0, min_speed: 0, speed_spread: 0 };
    let fleet = spawn_fleet(&routes, &cfg, 7);
    assert_eq!(fleet.len(), 8);
    // speed zero: the first update leaves the start fraction in place
    for (j, v) in fleet.iter().enumerate() {
        let slot = (j % 4) as u32;
        assert!(v.fraction >= slot * FRACTION_ONE / 4);
        assert!(v.fraction < (slot + 1) * FRACTION_ONE / 4);
        if j < 4 {
            assert_eq!((v.direction, v.last_index, v.next_index), (1, 0, 1));
            assert_eq!(v.x, v.fraction as i64);
        } else {
            assert_eq!((v.direction, v.last_index, v.next_index), (-1, 1, 0));
            assert_eq!(v.x, 1_000_000 - v.fraction as i64);
        }
    }
}

#[test]
fn spawn_is_repeatable_for_a_seed() {
    let routes = sample_routes();
    let cfg = config(6, 6);
    assert_eq!(spawn_fleet(&routes, &cfg, 9), spawn_fleet(&routes, &cfg, 9));
}

fn running_state() -> SimulationState {
    let routes = sample_routes();
    let cfg = config(3, 2);
    let vehicles = spawn_fleet(&routes, &cfg, 1);
    let mut state = SimulationState::new();
    initialize_state(&mut state, Catalog { routes, vehicles });
    state
}

#[test]
fn tick_moves_every_vehicle_unless_paused() {
    let mut state = running_state();
    let before = state.vehicles.clone();
    let counts = state.tick();
    assert_eq!(counts, VehicleCounts { buses: 3, trains: 2, total: 5 });
    for (a, b) in before.iter().zip(state.vehicles.iter()) {
        let mut expected = *a;
        expected.update_position(&state.routes[a.route_index]);
        assert_eq!(expected, *b);
    }
    assert!(toggle_pause(&mut state));
    assert!(is_paused(&state));
    let frozen = state.vehicles.clone();
    state.tick();
    assert_eq!(frozen, state.vehicles);
    assert_eq!(state.set_paused(false), true);
    assert!(!is_paused(&state));
}

#[test]
fn frame_id_and_count_accessors() {
    let mut state = running_state();
    assert_eq!(get_animation_frame_id(&state), None);
    set_animation_frame_id(&mut state, 17);
    assert_eq!(get_animation_frame_id(&state), Some(17));
    assert_eq!(get_vehicle_count(&state), 5);
    assert_eq!(state.vehicle_counts(), VehicleCounts { buses: 3, trains: 2, total: 5 });
}

#[test]
fn stale_source_results_are_discarded() {
    let mut state = running_state();
    let first = state.begin_source_switch();
    let second = state.begin_source_switch();
    assert_ne!(first, second);
    let empty = Catalog { routes: Vec::new(), vehicles: Vec::new() };
    assert!(!state.commit_source(first, empty));
    assert_eq!(state.vehicles.len(), 5);
    let empty = Catalog { routes: Vec::new(), vehicles: Vec::new() };
    assert!(state.commit_source(second, empty));
    assert_eq!(state.routes.len(), 0);
    assert_eq!(state.vehicles.len(), 0);
}

#[test]
fn clock_replaces_its_task_on_interval_change() {
    let mut clock = SimulationControl::new();
    let mut state = running_state();
    assert!(!clock.on_timer(0, &mut state));
    let cmd = clock.start();
    assert_eq!(cmd, ClockCommand::Install { ticker: 1, interval_ms: FAST_INTERVAL_MS });
    let cmd = clock.set_tick_interval(40);
    assert_eq!(cmd, Some(ClockCommand::Replace { cancel: 1, ticker: 2, interval_ms: 40 }));
    assert_eq!(clock.set_tick_interval(0), None);
    assert_eq!(clock.update_interval_ms, 40);
    let before = state.vehicles.clone();
    assert!(!clock.on_timer(1, &mut state));
    assert_eq!(before, state.vehicles);
    assert!(clock.on_timer(2, &mut state));
    assert_ne!(before, state.vehicles);
    assert_eq!(get_vehicle_counts(&clock), VehicleCounts { buses: 3, trains: 2, total: 5 });
    state.set_paused(true);
    let frozen = state.vehicles.clone();
    let counts = clock.vehicle_counts;
    assert!(clock.on_timer(2, &mut state));
    assert_eq!(frozen, state.vehicles);
    assert_eq!(clock.vehicle_counts, counts);
    assert_eq!(clock.stop(), Some(ClockCommand::Cancel { cancel: 2 }));
    assert!(!clock.on_timer(2, &mut state));
    assert_eq!(clock.stop(), None);
}

#[test]
fn calibration_picks_slow_interval_once_for_costly_frames() {
    let mut clock = SimulationControl::new();
    clock.start();
    for _ in 0..9 {
        assert_eq!(clock.auto_adjust_interval(9_000), None);
    }
    assert_eq!(
        clock.auto_adjust_interval(9_000),
        Some(ClockCommand::Replace { cancel: 1, ticker: 2, interval_ms: SLOW_INTERVAL_MS })
    );
    assert!(!clock.auto_adjust);
    assert_eq!(clock.frame_count, 10);
    assert_eq!(clock.total_frame_time_us, 90_000);
    assert_eq!(clock.auto_adjust_interval(1), None);
    assert_eq!(clock.update_interval_ms, SLOW_INTERVAL_MS);
}

#[test]
fn calibration_keeps_fast_interval_for_cheap_frames() {
    let mut clock = SimulationControl::new();
    for _ in 0..10 {
        assert_eq!(clock.auto_adjust_interval(8_000), None);
    }
    assert!(!clock.auto_adjust);
    assert_eq!(clock.update_interval_ms, FAST_INTERVAL_MS);
}

#[test]
fn calibration_total_saturates() {
    let mut clock = SimulationControl::new();
    clock.auto_adjust_interval(u64::MAX);
    clock.auto_adjust_interval(u64::MAX);
    assert_eq!(clock.total_frame_time_us, u64::MAX);
    assert_eq!(clock.frame_count, 2);
}

#[test]
fn frame_follows_selected_vehicle_even_when_paused() {
    let mut clock = SimulationControl::new();
    let mut state = running_state();
    let mut camera = Camera::new();
    let (vx, vy) = (state.vehicles[0].x, state.vehicles[0].y);
    let (sx, sy) = camera.world_to_screen(vx, vy);
    assert_eq!(camera.pick_vehicle(&state.vehicles, sx, sy, 1), Some(0));
    camera.set_follow(true);
    clock.start();
    state.set_paused(true);
    assert!(clock.on_frame(1, &mut state, &mut camera, 800, 600));
    assert_eq!((camera.pan_x, camera.pan_y), (vx - 400, vy - 300));
    assert!(!clock.on_frame(7, &mut state, &mut camera, 800, 600));
}

#[test]
fn fps_and_interval_conversions() {
    assert_eq!(interval_for_fps(60), 16);
    assert_eq!(interval_for_fps(0), 33);
    assert_eq!(fps_for_interval(16), 62);
    assert_eq!(fps_for_interval(0), 30);
}

#[test]
fn toggling_reports_the_new_state() {
    let mut state = running_state();
    let log = LogConfig::new();
    assert_eq!(
        toggle_simulation(&mut state, &log),
        Some("[INFO] [SIM] [toggle_simulation] Pausing simulation".to_string())
    );
    assert!(state.is_paused);
    assert_eq!(
        toggle_simulation(&mut state, &log),
        Some("[INFO] [SIM] [toggle_simulation] Resuming simulation".to_string())
    );
    assert!(!state.is_paused);
}
