use transit_sim::route::{Route, VehicleType, Waypoint, FRACTION_ONE};
use transit_sim::vehicle::Vehicle;

fn route(points: &[(i64, i64)]) -> Route {
    Route {
        id: 0,
        kind: VehicleType::Bus,
        waypoints: points.iter().map(|&(x, y)| Waypoint { x, y }).collect(),
    }
}

fn vehicle(last: usize, next: usize, direction: i8, fraction: u32, speed: u32) -> Vehicle {
    Vehicle {
        kind: VehicleType::Bus,
        route_index: 0,
        direction,
        last_index: last,
        next_index: next,
        fraction,
        speed,
        x: 0,
        y: 0,
    }
}

#[test]
fn scenario_bounce_at_route_end() {
    let r = route(&[(0, 0), (10, 0)]);
    let mut v = vehicle(0, 1, 1, 900_000, 300_000);
    v.update_position(&r);
    assert_eq!(v.fraction, 200_000);
    assert_eq!(v.last_index, 1);
    assert_eq!(v.next_index, 0);
    assert_eq!(v.direction, -1);
    assert_eq!((v.x, v.y), (8, 0));
}

#[test]
fn bounce_on_two_waypoints_after_full_traversal() {
    let r = route(&[(0, 0), (100, 50)]);
    let mut v = vehicle(0, 1, 1, 0, FRACTION_ONE);
    v.update_position(&r);
    assert_eq!(v.direction, -1);
    assert_eq!(v.next_index, 0);
    assert_eq!(v.last_index, 1);
    assert_eq!(v.fraction, 0);
    assert_eq!((v.x, v.y), (100, 50));
}

#[test]
fn zero_speed_vehicle_stays_put() {
    let r = route(&[(0, 0), (1000, 0), (1000, 1000)]);
    let mut v = vehicle(1, 2, 1, 250_000, 0);
    v.update_position(&r);
    let before = v;
    for _ in 0..50 {
        v.update_position(&r);
    }
    assert_eq!(v, before);
    assert_eq!((v.x, v.y), (1000, 250));
}

#[test]
fn fast_vehicle_crosses_several_waypoints_in_one_tick() {
    let r = route(&[(0, 0), (10, 0), (20, 0), (30, 0)]);
    let mut v = vehicle(0, 1, 1, 0, 4 * FRACTION_ONE + 500_000);
    v.update_position(&r);
    // 0 -> 1 -> 2 -> 3, bounce, -> 2 and half way on to 1
    assert_eq!(v.last_index, 2);
    assert_eq!(v.next_index, 1);
    assert_eq!(v.direction, -1);
    assert_eq!(v.fraction, 500_000);
    assert_eq!((v.x, v.y), (15, 0));
}

#[test]
fn fraction_and_indices_stay_valid_over_many_ticks() {
    let r = route(&[(0, 0), (7, 3), (-5, 9), (2, 2), (40, -40)]);
    let mut v = vehicle(4, 3, -1, 10, 777_777);
    for _ in 0..1000 {
        v.update_position(&r);
        assert!(v.fraction < FRACTION_ONE);
        assert!(v.last_index < 5 && v.next_index < 5);
        assert_eq!(v.next_index as i64, v.last_index as i64 + v.direction as i64);
    }
}

#[test]
fn lerp_rounds_towards_negative_infinity() {
    assert_eq!(transit_sim::route::lerp(0, -10, 150_000), -2);
    assert_eq!(transit_sim::route::lerp(0, 10, 150_000), 1);
    assert_eq!(transit_sim::route::lerp(10, 0, 200_000), 8);
}
