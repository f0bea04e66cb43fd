use tile_viewport::camera::Camera;
use tile_viewport::tilemap::TileMapData;
use tile_viewport::viewport::{bind, Slot, ViewportError, ViewportWindow, TILE_SIZE};

fn patchwork_map() -> TileMapData {
    TileMapData::new(3, 3, vec![vec![1, 0, 2, 0, 3, 0, 2, 0, 1]]).unwrap()
}

fn two_layer_map() -> TileMapData {
    TileMapData::new(
        4,
        2,
        vec![vec![1, 2, 3, 4, 5, 6, 7, 8], vec![0, 0, 10, 0, 0, 20, 0, 0]],
    )
    .unwrap()
}

fn blank(col: u32, row: u32, layer: usize) -> Slot {
    Slot { screen_col: col, screen_row: row, layer, visible: false, image_index: 0 }
}

#[test]
fn three_by_three_scenario() {
    let map = patchwork_map();
    let mut camera = Camera::new();
    let mut window = ViewportWindow::new(&map, camera, 3, 3).unwrap();

    let centre = window.slot(1, 1, 0).unwrap();
    assert!(centre.visible);
    assert_eq!(centre.image_index, 2);
    assert!(!window.slot(0, 1, 0).unwrap().visible);
    assert!(!window.slot(1, 0, 0).unwrap().visible);

    assert!(camera.move_by(1, 0, map.width(), map.height()));
    window.refresh(&map, camera);
    assert!(!window.slot(0, 0, 0).unwrap().visible);
}

#[test]
fn three_by_three_images_after_decrement() {
    let map = patchwork_map();
    let window = ViewportWindow::new(&map, Camera::new(), 3, 3).unwrap();
    let expected: [[Option<u32>; 3]; 3] =
        [[Some(0), None, Some(1)], [None, Some(2), None], [Some(1), None, Some(0)]];
    for row in 0..3u32 {
        for col in 0..3u32 {
            let slot = window.slot(col, row, 0).unwrap();
            match expected[row as usize][col as usize] {
                Some(image) => {
                    assert!(slot.visible);
                    assert_eq!(slot.image_index, image);
                }
                None => assert!(!slot.visible),
            }
        }
    }
}

#[test]
fn window_has_one_slot_per_cell_and_layer() {
    let map = two_layer_map();
    let window = ViewportWindow::new(&map, Camera::new(), 3, 2).unwrap();
    assert_eq!(window.width(), 3);
    assert_eq!(window.height(), 2);
    assert_eq!(window.layer_count(), 2);
    assert_eq!(window.slot_count(), 12);
    assert_eq!(window.slots().len(), 12);
}

#[test]
fn slots_stand_layer_by_layer_column_by_column() {
    let map = two_layer_map();
    let window = ViewportWindow::new(&map, Camera::new(), 3, 2).unwrap();
    let mut index = 0;
    for layer in 0..2usize {
        for col in 0..3u32 {
            for row in 0..2u32 {
                let slot = window.slots()[index];
                assert_eq!((slot.screen_col, slot.screen_row, slot.layer), (col, row, layer));
                assert_eq!(window.slot(col, row, layer), Some(slot));
                index += 1;
            }
        }
    }
}

#[test]
fn slot_lookup_outside_window_is_none() {
    let map = two_layer_map();
    let window = ViewportWindow::new(&map, Camera::new(), 3, 2).unwrap();
    assert_eq!(window.slot(3, 0, 0), None);
    assert_eq!(window.slot(0, 2, 0), None);
    assert_eq!(window.slot(0, 0, 2), None);
}

#[test]
fn new_window_hides_empty_cells_with_image_zero() {
    let map = two_layer_map();
    let window = ViewportWindow::new(&map, Camera::new(), 4, 2).unwrap();
    assert_eq!(window.slot(0, 0, 1), Some(blank(0, 0, 1)));
    assert_eq!(
        window.slot(2, 0, 1),
        Some(Slot { screen_col: 2, screen_row: 0, layer: 1, visible: true, image_index: 9 })
    );
    assert_eq!(
        window.slot(1, 1, 1),
        Some(Slot { screen_col: 1, screen_row: 1, layer: 1, visible: true, image_index: 19 })
    );
}

#[test]
fn refresh_follows_the_camera() {
    let map = two_layer_map();
    let mut window = ViewportWindow::new(&map, Camera::new(), 2, 2).unwrap();
    assert_eq!(window.slot(0, 0, 0).unwrap().image_index, 0);
    assert_eq!(window.slot(1, 1, 0).unwrap().image_index, 5);

    window.refresh(&map, Camera { x: 2, y: 0 });
    assert_eq!(window.slot(0, 0, 0).unwrap().image_index, 2);
    assert_eq!(window.slot(1, 0, 0).unwrap().image_index, 3);
    assert_eq!(window.slot(0, 1, 0).unwrap().image_index, 6);
    assert_eq!(window.slot(1, 1, 0).unwrap().image_index, 7);
    assert!(window.slot(0, 0, 1).unwrap().visible);
    assert_eq!(window.slot(0, 0, 1).unwrap().image_index, 9);
    assert!(!window.slot(1, 0, 1).unwrap().visible);
}

#[test]
fn refresh_hides_slots_past_the_map_edge() {
    let map = two_layer_map();
    let mut window = ViewportWindow::new(&map, Camera::new(), 2, 2).unwrap();
    window.refresh(&map, Camera { x: 3, y: 1 });
    assert!(window.slot(0, 0, 0).unwrap().visible);
    assert_eq!(window.slot(0, 0, 0).unwrap().image_index, 7);
    assert!(!window.slot(1, 0, 0).unwrap().visible);
    assert!(!window.slot(0, 1, 0).unwrap().visible);
    assert!(!window.slot(1, 1, 0).unwrap().visible);
}

#[test]
fn hidden_slot_keeps_its_image_on_refresh() {
    let map = two_layer_map();
    let mut window = ViewportWindow::new(&map, Camera::new(), 2, 2).unwrap();
    assert_eq!(window.slot(1, 1, 0).unwrap().image_index, 5);
    window.refresh(&map, Camera { x: 3, y: 1 });
    let hidden = window.slot(1, 1, 0).unwrap();
    assert!(!hidden.visible);
    assert_eq!(hidden.image_index, 5);
}

#[test]
fn refresh_never_changes_slot_identity() {
    let map = two_layer_map();
    let mut window = ViewportWindow::new(&map, Camera::new(), 3, 2).unwrap();
    let before: Vec<(u32, u32, usize)> =
        window.slots().iter().map(|s| (s.screen_col, s.screen_row, s.layer)).collect();
    window.refresh(&map, Camera { x: 1, y: 1 });
    let after: Vec<(u32, u32, usize)> =
        window.slots().iter().map(|s| (s.screen_col, s.screen_row, s.layer)).collect();
    assert_eq!(before, after);
}

#[test]
fn visibility_is_false_iff_empty_or_outside() {
    let map = two_layer_map();
    let mut window = ViewportWindow::new(&map, Camera::new(), 3, 3).unwrap();
    for cam_y in 0..2u32 {
        for cam_x in 0..4u32 {
            window.refresh(&map, Camera { x: cam_x, y: cam_y });
            for slot in window.slots().iter() {
                let x = cam_x + slot.screen_col;
                let y = cam_y + slot.screen_row;
                let outside = x >= map.width() || y >= map.height();
                let empty = !outside && map.tile_at(slot.layer, x, y) == Ok(0);
                assert_eq!(!slot.visible, outside || empty);
                if slot.visible {
                    assert_eq!(Ok(slot.image_index + 1), map.tile_at(slot.layer, x, y));
                }
            }
        }
    }
}

#[test]
fn window_wider_than_the_map_hides_the_overhang() {
    let map = patchwork_map();
    let window = ViewportWindow::new(&map, Camera::new(), 5, 4).unwrap();
    assert_eq!(window.slot_count(), 20);
    assert!(window.slot(2, 2, 0).unwrap().visible);
    assert!(!window.slot(3, 0, 0).unwrap().visible);
    assert!(!window.slot(0, 3, 0).unwrap().visible);
    assert!(!window.slot(4, 3, 0).unwrap().visible);
}

#[test]
fn window_over_a_map_without_layers_has_no_slots() {
    let map = TileMapData::new(3, 3, vec![]).unwrap();
    let window = ViewportWindow::new(&map, Camera::new(), 20, 12).unwrap();
    assert_eq!(window.slot_count(), 0);
    assert_eq!(window.slot(0, 0, 0), None);
}

#[test]
fn window_without_rows_has_no_slots() {
    let map = patchwork_map();
    let window = ViewportWindow::new(&map, Camera::new(), u32::MAX, 0).unwrap();
    assert_eq!(window.slot_count(), 0);
    assert_eq!(window.layer_count(), 1);
}

#[test]
fn window_with_too_many_slots_is_refused() {
    let map = TileMapData::new(1, 1, vec![vec![1], vec![1], vec![1], vec![1], vec![1]]).unwrap();
    let r = ViewportWindow::new(&map, Camera::new(), u32::MAX, u32::MAX);
    assert_eq!(r.err(), Some(ViewportError::TooManySlots));
}

#[test]
fn window_for_fewer_layers_hides_slots_above_the_map() {
    let tall = two_layer_map();
    let flat = TileMapData::new(4, 2, vec![vec![1, 2, 3, 4, 5, 6, 7, 8]]).unwrap();
    let mut window = ViewportWindow::new(&tall, Camera::new(), 4, 2).unwrap();
    assert!(window.slot(2, 0, 1).unwrap().visible);
    window.refresh(&flat, Camera::new());
    assert!(!window.slot(2, 0, 1).unwrap().visible);
    assert!(window.slot(2, 0, 0).unwrap().visible);
}

#[test]
fn bind_sets_image_to_tile_minus_one() {
    let map = patchwork_map();
    let bound = bind(blank(1, 1, 0), &map, Camera::new());
    assert_eq!(
        bound,
        Slot { screen_col: 1, screen_row: 1, layer: 0, visible: true, image_index: 2 }
    );
}

#[test]
fn bind_with_far_camera_does_not_wrap_around() {
    let map = patchwork_map();
    let far = Camera { x: u32::MAX, y: u32::MAX };
    let bound = bind(blank(1, 1, 0), &map, far);
    assert!(!bound.visible);
}

#[test]
fn base_layer_is_opaque_and_upper_layers_transparent() {
    assert!(!blank(0, 0, 0).is_transparent());
    assert!(blank(0, 0, 1).is_transparent());
    assert!(blank(3, 2, 7).is_transparent());
}

#[test]
fn screen_offset_inverts_rows() {
    assert_eq!(TILE_SIZE, 16);
    assert_eq!(blank(0, 0, 0).screen_offset(), (0, 0, 0));
    assert_eq!(blank(3, 2, 1).screen_offset(), (48, -32, 1));
    assert_eq!(
        blank(u32::MAX, u32::MAX, 2).screen_offset(),
        (16 * u32::MAX as i64, -16 * (u32::MAX as i64), 2)
    );
}
