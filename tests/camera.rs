use transit_sim::camera::{Camera, SCALE_MAX, SCALE_MIN, SCALE_ONE};
use transit_sim::route::VehicleType;
use transit_sim::vehicle::Vehicle;

fn parked(x: i64, y: i64) -> Vehicle {
    Vehicle {
        kind: VehicleType::Train,
        route_index: 0,
        direction: 1,
        last_index: 0,
        next_index: 1,
        fraction: 0,
        speed: 0,
        x,
        y,
    }
}

fn camera_at_scale(scale: u32) -> Camera {
    Camera::from_settings(0, 0, scale)
}

#[test]
fn pick_selects_vehicle_just_inside_radius() {
    // world units of 1/100, scale 2.0, threshold 10 px (1000 screen units):
    // the radius in the world is 5.00
    let mut cam = camera_at_scale(2000);
    let fleet = vec![parked(499, 0)];
    assert_eq!(cam.pick_vehicle(&fleet, 0, 0, 1000), Some(0));
    assert_eq!(cam.selected_vehicle, Some(0));
}

#[test]
fn pick_rejects_vehicle_at_five_point_zero_one() {
    let mut cam = camera_at_scale(2000);
    let fleet = vec![parked(501, 0)];
    assert_eq!(cam.pick_vehicle(&fleet, 0, 0, 1000), None);
    assert_eq!(cam.selected_vehicle, None);
    let exactly = vec![parked(300, 400)];
    assert_eq!(cam.pick_vehicle(&exactly, 0, 0, 1000), None);
}

#[test]
fn pick_prefers_nearest_then_lowest_index() {
    let mut cam = camera_at_scale(SCALE_ONE);
    let fleet = vec![parked(8, 0), parked(3, 4), parked(0, 5), parked(1, 1)];
    assert_eq!(cam.pick_vehicle(&fleet, 0, 0, 10), Some(3));
    let tied = vec![parked(9, 9), parked(3, 4), parked(0, 5)];
    assert_eq!(cam.pick_vehicle(&tied, 0, 0, 10), Some(1));
}

#[test]
fn picking_nothing_clears_selection_and_follow() {
    let mut cam = camera_at_scale(SCALE_ONE);
    let fleet = vec![parked(0, 0)];
    assert_eq!(cam.pick_vehicle(&fleet, 0, 0, 10), Some(0));
    cam.set_follow(true);
    assert!(cam.follow);
    assert_eq!(cam.pick_vehicle(&fleet, 500, 500, 10), None);
    assert!(!cam.follow);
    cam.set_follow(true);
    assert!(!cam.follow);
}

#[test]
fn projections_follow_pan_and_scale() {
    let cam = Camera::from_settings(100, -50, 2000);
    assert_eq!(cam.world_to_screen(110, -40), (20, 20));
    assert_eq!(cam.screen_to_world(20, 20), (110, -40));
    assert_eq!(cam.world_to_screen(99, -50), (-2, 0));
}

#[test]
fn screen_round_trip_stays_within_rounding() {
    for &scale in &[SCALE_MIN, 333, SCALE_ONE, 2500, 17_777, SCALE_MAX] {
        let cam = Camera::from_settings(-12_345, 678, scale);
        for p in [-1_000_001i64, -7, 0, 1, 999, 123_456_789] {
            let (wx, wy) = cam.screen_to_world(p, -p);
            let (sx, sy) = cam.world_to_screen(wx, wy);
            for (orig, back) in [(p, sx), (-p, sy)] {
                assert!(back <= orig);
                assert!((orig - back) * (SCALE_ONE as i64) < scale as i64 + SCALE_ONE as i64);
            }
        }
    }
}

#[test]
fn drag_moves_pan_against_the_pointer() {
    let mut cam = Camera::from_settings(0, 0, 2000);
    cam.pan_by(10, -4);
    assert_eq!((cam.pan_x, cam.pan_y), (-5, 2));
    cam.pan_by(-3, 0);
    assert_eq!((cam.pan_x, cam.pan_y), (-3, 2));
}

#[test]
fn zoom_is_clamped_both_ways() {
    let mut cam = Camera::new();
    cam.zoom_in();
    assert_eq!(cam.scale, 1100);
    cam.zoom_out();
    assert_eq!(cam.scale, 990);
    for _ in 0..200 {
        cam.zoom_in();
        assert!(cam.scale <= SCALE_MAX);
    }
    assert_eq!(cam.scale, SCALE_MAX);
    for _ in 0..200 {
        cam.zoom_out();
        assert!(cam.scale >= SCALE_MIN);
    }
    assert_eq!(cam.scale, SCALE_MIN);
    cam.zoom_by_ratio(300, 100);
    assert_eq!(cam.scale, 300);
    cam.zoom_by_ratio(1, 1000);
    assert_eq!(cam.scale, SCALE_MIN);
}

#[test]
fn settings_are_brought_within_limits() {
    let cam = Camera::from_settings(5, 6, 1);
    assert_eq!(cam.scale, SCALE_MIN);
    let cam = Camera::from_settings(5, 6, u32::MAX);
    assert_eq!(cam.scale, SCALE_MAX);
}

#[test]
fn follow_centres_selected_vehicle() {
    let mut cam = Camera::from_settings(0, 0, 2000);
    let fleet = vec![parked(1000, 2000)];
    assert_eq!(cam.pick_vehicle(&fleet, 2000, 4000, 10), Some(0));
    cam.set_follow(true);
    cam.follow_step(&fleet, 800, 600);
    assert_eq!((cam.pan_x, cam.pan_y), (800, 1850));
    assert_eq!(cam.world_to_screen(1000, 2000), (400, 300));
}
