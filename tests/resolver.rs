use transit_sim::clock::SimulationControl;
use transit_sim::fleet::SpawnConfig;
use transit_sim::store::VehicleCounts;
use transit_sim::resolver::{
    build_live_catalog, build_static_routes, finish_source_load, get_vehicle_type_for_line,
    progress_from_time, resolve, select_predictions, set_data_source, vehicle_type_for_lowered_mode,
    vehicle_type_for_mode, DataSourceMode, DataTier, LineArrivals, LiveConfig, Prediction, TopologyLine,
};
use transit_sim::route::{VehicleType, Waypoint, FRACTION_ONE};
use transit_sim::store::SimulationState;
use transit_sim::synthetic::{build_synthetic_routes, SYNTH_CENTER, SYNTH_REACH, SYNTH_TRAIN_ROUTES};

fn pred(id: Option<&str>, secs: Option<u32>) -> Prediction {
    Prediction { vehicle_id: id.map(|s| s.to_string()), time_to_station: secs, line_id: Some("victoria".to_string()) }
}

fn pred_without_line(id: &str, secs: u32) -> Prediction {
    Prediction { vehicle_id: Some(id.to_string()), time_to_station: Some(secs), line_id: None }
}

fn live_cfg() -> LiveConfig {
    LiveConfig { start: Waypoint { x: 0, y: 0 }, end: Waypoint { x: 1000, y: 0 }, horizon_secs: 600, speed: 10_000 }
}

fn spawn_cfg() -> SpawnConfig {
    SpawnConfig { buses_per_route: 2, trains_per_route: 2, min_speed: 5_000, speed_spread: 50_000 }
}

fn segment(points: &[(i64, i64)]) -> Vec<Waypoint> {
    points.iter().map(|&(x, y)| Waypoint { x, y }).collect()
}

#[test]
fn duplicates_keep_the_soonest_prediction() {
    let preds = vec![
        pred(Some("a"), Some(120)),
        pred(Some("b"), Some(30)),
        pred(Some("a"), Some(60)),
        pred(None, Some(5)),
        pred(Some("c"), None),
        pred(Some("a"), Some(60)),
        pred(Some("b"), Some(31)),
        pred_without_line("d", 10),
        pred_without_line("a", 1),
    ];
    assert_eq!(select_predictions(&preds), vec![1, 2]);
}

#[test]
fn progress_grows_as_the_station_nears() {
    assert_eq!(progress_from_time(600, 600), 0);
    assert_eq!(progress_from_time(900, 600), 0);
    assert_eq!(progress_from_time(300, 600), FRACTION_ONE / 2);
    assert_eq!(progress_from_time(0, 600), FRACTION_ONE);
    assert_eq!(progress_from_time(1, 3), 666_666);
}

#[test]
fn live_tier_builds_one_route_per_line() {
    let lines = vec![
        LineArrivals { kind: VehicleType::Train, predictions: vec![pred(Some("t1"), Some(300)), pred(Some("t1"), Some(500))] },
        LineArrivals { kind: VehicleType::Bus, predictions: vec![] },
        LineArrivals { kind: VehicleType::Bus, predictions: vec![pred(Some("b1"), Some(600)), pred(Some("b2"), Some(0))] },
    ];
    let cat = build_live_catalog(&lines, &live_cfg()).expect("live vehicles");
    assert_eq!(cat.routes.len(), 3);
    assert_eq!(cat.routes[1].kind, VehicleType::Bus);
    assert_eq!(cat.vehicles.len(), 3);
    let v = cat.vehicles[0];
    assert_eq!((v.route_index, v.kind), (0, VehicleType::Train));
    assert_eq!((v.last_index, v.next_index, v.direction), (0, 1, 1));
    assert_eq!(v.fraction, FRACTION_ONE / 2);
    assert_eq!((v.x, v.y), (500, 0));
    let far = cat.vehicles[1];
    assert_eq!(far.route_index, 2);
    assert_eq!((far.fraction, far.x), (0, 0));
    // due now: placed just short of the station, still heading for it
    let due = cat.vehicles[2];
    assert_eq!(due.route_index, 2);
    assert_eq!((due.last_index, due.next_index, due.direction), (0, 1, 1));
    assert_eq!(due.fraction, FRACTION_ONE - 1);
    assert_eq!((due.x, due.y), (999, 0));
}

#[test]
fn live_tier_without_vehicles_yields_nothing() {
    let lines = vec![LineArrivals {
        kind: VehicleType::Train,
        predictions: vec![pred(None, Some(3)), pred_without_line("z", 5)],
    }];
    assert!(build_live_catalog(&lines, &live_cfg()).is_none());
}

#[test]
fn mode_classification_ignores_case() {
    assert_eq!(vehicle_type_for_mode("Bus"), VehicleType::Bus);
    assert_eq!(vehicle_type_for_mode("BUS"), VehicleType::Bus);
    assert_eq!(vehicle_type_for_mode("tube"), VehicleType::Train);
    assert_eq!(vehicle_type_for_lowered_mode(&"bus".to_string()), VehicleType::Bus);
    assert_eq!(vehicle_type_for_lowered_mode(&"Bus".to_string()), VehicleType::Train);
}

#[test]
fn line_ids_classify_rail_and_bus() {
    assert_eq!(get_vehicle_type_for_line("victoria"), VehicleType::Train);
    assert_eq!(get_vehicle_type_for_line("windrush"), VehicleType::Train);
    assert_eq!(get_vehicle_type_for_line("88"), VehicleType::Bus);
}

fn topology() -> Vec<TopologyLine> {
    vec![
        TopologyLine {
            mode: "Tube".to_string(),
            segments: vec![segment(&[(0, 0), (10, 10)]), segment(&[(1, 1)]), segment(&[(3, 3), (4, 4), (5, 5)])],
        },
        TopologyLine { mode: "bus".to_string(), segments: vec![segment(&[(0, 0), (i64::MAX, 0)]), segment(&[(9, 9), (8, 8)])] },
    ]
}

#[test]
fn static_tier_keeps_usable_segments() {
    let routes = build_static_routes(&topology());
    assert_eq!(routes.len(), 3);
    assert_eq!((routes[0].id, routes[0].kind), (0, VehicleType::Train));
    assert_eq!(routes[1].waypoints.len(), 3);
    assert_eq!((routes[2].id, routes[2].kind), (2, VehicleType::Bus));
    assert_eq!(routes[2].waypoints, segment(&[(9, 9), (8, 8)]));
}

#[test]
fn synthetic_tier_is_never_empty() {
    let routes = build_synthetic_routes(12345);
    assert_eq!(routes.len(), 110);
    for (i, r) in routes.iter().enumerate() {
        assert_eq!(r.id, i);
        assert_eq!(r.kind, if i < SYNTH_TRAIN_ROUTES { VehicleType::Train } else { VehicleType::Bus });
        assert!(r.waypoints.len() >= 2);
        for p in &r.waypoints {
            assert!((p.x - SYNTH_CENTER).abs() <= SYNTH_REACH && (p.y - SYNTH_CENTER).abs() <= SYNTH_REACH);
        }
    }
    // orbital routes close their loop
    let ring = &routes[45];
    assert_eq!(ring.waypoints.len(), 17);
    assert_eq!(ring.waypoints.first(), ring.waypoints.last());
    let centre = Waypoint { x: SYNTH_CENTER, y: SYNTH_CENTER };
    for r in &routes[..10] {
        assert!(r.waypoints.len() >= 6 && r.waypoints.len() <= 9);
        assert_eq!(r.waypoints[0], centre);
    }
    for r in &routes[10..40] {
        assert!(r.waypoints.len() >= 7 && r.waypoints.len() <= 13);
        assert_eq!(r.waypoints[0], centre);
    }
    for r in &routes[60..] {
        assert!(r.waypoints.len() >= 8 && r.waypoints.len() <= 17);
    }
    assert_eq!(build_synthetic_routes(12345)[77].waypoints, routes[77].waypoints);
    assert_ne!(build_synthetic_routes(54321)[77].waypoints, routes[77].waypoints);
}

#[test]
fn cascade_prefers_live_then_static_then_generated() {
    let live = vec![LineArrivals { kind: VehicleType::Train, predictions: vec![pred(Some("x"), Some(10))] }];
    let none: Vec<LineArrivals> = vec![LineArrivals { kind: VehicleType::Bus, predictions: vec![] }];
    let (cat, tier) = resolve(&live, &live_cfg(), &topology(), &spawn_cfg(), 3);
    assert_eq!(tier, DataTier::Live);
    assert_eq!(cat.vehicles.len(), 1);
    let (cat, tier) = resolve(&none, &live_cfg(), &topology(), &spawn_cfg(), 3);
    assert_eq!(tier, DataTier::Static);
    assert_eq!(cat.routes.len(), 3);
    assert_eq!(cat.vehicles.len(), 6);
    let (cat, tier) = resolve(&none, &live_cfg(), &Vec::new(), &spawn_cfg(), 3);
    assert_eq!(tier, DataTier::Synthetic);
    assert_eq!(cat.routes.len(), 110);
    assert_eq!(cat.vehicles.len(), 220);
}

#[test]
fn switching_source_rebuilds_atomically() {
    let mut state = SimulationState::new();
    let mut clock = SimulationControl::new();
    assert_eq!(set_data_source(&mut state, &mut clock, DataSourceMode::Generated, &spawn_cfg(), 5), None);
    assert_eq!(state.routes.len(), 110);
    assert_eq!(state.vehicles.len(), 220);
    assert_eq!(clock.vehicle_counts, VehicleCounts { buses: 200, trains: 20, total: 220 });
    assert!(state.vehicles.iter().all(|v| v.route_index < state.routes.len()));
    let ticket = set_data_source(&mut state, &mut clock, DataSourceMode::Loaded, &spawn_cfg(), 5).expect("ticket");
    assert!(state.is_paused);
    assert!(state.routes.is_empty() && state.vehicles.is_empty());
    assert_eq!(clock.vehicle_counts, VehicleCounts { buses: 0, trains: 0, total: 0 });
    let late = set_data_source(&mut state, &mut clock, DataSourceMode::Loaded, &spawn_cfg(), 5).expect("ticket");
    let (cat, _) = resolve(&Vec::new(), &live_cfg(), &topology(), &spawn_cfg(), 1);
    assert!(!finish_source_load(&mut state, &mut clock, ticket, Some(cat), &spawn_cfg(), 1));
    assert!(state.is_paused && state.routes.is_empty());
    let (cat, _) = resolve(&Vec::new(), &live_cfg(), &topology(), &spawn_cfg(), 1);
    assert!(finish_source_load(&mut state, &mut clock, late, Some(cat), &spawn_cfg(), 1));
    assert!(!state.is_paused);
    assert_eq!(state.routes.len(), 3);
    assert_eq!(clock.vehicle_counts.total, 6);
    // a load that fails altogether falls back to the generated network
    let failed = set_data_source(&mut state, &mut clock, DataSourceMode::Loaded, &spawn_cfg(), 5).expect("ticket");
    assert!(finish_source_load(&mut state, &mut clock, failed, None, &spawn_cfg(), 8));
    assert!(!state.is_paused);
    assert_eq!(state.routes.len(), 110);
    assert_eq!(clock.vehicle_counts.total, 220);
}
