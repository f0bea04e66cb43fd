use tile_viewport::camera::Camera;

#[test]
fn new_camera_is_at_origin() {
    let camera = Camera::new();
    assert_eq!(camera.position(), (0, 0));
}

#[test]
fn move_inside_map_adds_delta() {
    let mut camera = Camera { x: 3, y: 4 };
    assert!(camera.move_by(1, 0, 10, 10));
    assert_eq!(camera.position(), (4, 4));
    assert!(camera.move_by(0, -1, 10, 10));
    assert_eq!(camera.position(), (4, 3));
}

#[test]
fn zero_step_is_a_no_op() {
    let mut camera = Camera { x: 3, y: 4 };
    assert!(!camera.move_by(0, 0, 10, 10));
    assert_eq!(camera, Camera { x: 3, y: 4 });
}

#[test]
fn zero_step_does_not_clamp() {
    let mut camera = Camera { x: 30, y: 40 };
    assert!(!camera.move_by(0, 0, 10, 10));
    assert_eq!(camera.position(), (30, 40));
}

#[test]
fn thousand_steps_left_from_five_land_at_zero() {
    let mut camera = Camera { x: 5, y: 2 };
    assert!(camera.move_by(-1000, 0, 10, 10));
    assert_eq!(camera.position(), (0, 2));
}

#[test]
fn thousand_single_steps_left_land_at_zero() {
    let mut camera = Camera { x: 5, y: 2 };
    for _ in 0..1000 {
        camera.move_by(-1, 0, 10, 10);
        assert!(camera.x < 10 && camera.y < 10);
    }
    assert_eq!(camera.position(), (0, 2));
}

#[test]
fn overshoot_clamps_to_last_cell() {
    let mut camera = Camera { x: 5, y: 2 };
    assert!(camera.move_by(1000, 1000, 10, 7));
    assert_eq!(camera.position(), (9, 6));
}

#[test]
fn extreme_deltas_stay_on_map() {
    let mut camera = Camera { x: u32::MAX, y: 0 };
    assert!(camera.move_by(i32::MAX, i32::MIN, 4, 4));
    assert_eq!(camera.position(), (3, 0));
    assert!(camera.move_by(i32::MIN, i32::MAX, u32::MAX, u32::MAX));
    assert_eq!(camera.position(), (0, i32::MAX as u32));
}

#[test]
fn unclamped_round_trip_returns_to_start() {
    let mut camera = Camera { x: 3, y: 4 };
    camera.move_by(2, -3, 10, 10);
    assert_eq!(camera.position(), (5, 1));
    camera.move_by(-2, 3, 10, 10);
    assert_eq!(camera.position(), (3, 4));
}

#[test]
fn clamped_round_trip_does_not_return_to_start() {
    let mut camera = Camera { x: 5, y: 0 };
    camera.move_by(-1000, 0, 10, 10);
    assert_eq!(camera.position(), (0, 0));
    camera.move_by(1000, 0, 10, 10);
    assert_eq!(camera.position(), (9, 0));
}

#[test]
fn step_against_the_edge_stays_on_the_edge() {
    let mut camera = Camera { x: 0, y: 0 };
    assert!(camera.move_by(-1, 0, 10, 10));
    assert_eq!(camera.position(), (0, 0));
    assert!(camera.move_by(0, -1, 10, 10));
    assert_eq!(camera.position(), (0, 0));
}

#[test]
fn one_cell_map_pins_the_camera() {
    let mut camera = Camera::new();
    camera.move_by(1, 1, 1, 1);
    assert_eq!(camera.position(), (0, 0));
}
