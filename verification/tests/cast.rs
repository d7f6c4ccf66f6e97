use raycaster::fixed::SCALE;
use raycaster::ray::Ray;

fn empty_grid() -> Vec<u8> {
    vec![0u8; 64]
}

fn grid_with(cells: &[(usize, usize, u8)]) -> Vec<u8> {
    let mut g = vec![0u8; 64];
    for &(x, y, m) in cells {
        g[y * 8 + x] = m;
    }
    g
}

#[test]
fn straight_east_hit_at_known_distance() {
    // An 8 by 8 grid with one wall of material 1 at cell (3, 3); the
    // camera stands at the same fractional offset inside cell (1, 3)
    // and looks straight east, so the vertical grid line at x = 192 is
    // struck first, 92 world units ahead.
    let grid = grid_with(&[(3, 3, 1)]);
    let ray = Ray::new(100 * SCALE, 228 * SCALE, SCALE, 0);
    let hit = ray.cast_ray(&grid).expect("wall ahead must be hit");
    assert!(hit.x_move, "a vertical grid line is struck first");
    assert_eq!(hit.world_distance, 92 * SCALE);
    assert_eq!(hit.wall_type, 1);
    assert_eq!(hit.pos_x, 192 * SCALE);
    assert_eq!(hit.pos_y, 228 * SCALE);
    // 228 = 3 * 64 + 36: the hit sits 36/64 of the way down the cell.
    assert_eq!(hit.wall_coord, 36 * SCALE / 64);
}

#[test]
fn straight_east_from_camera_row_hits_wall_column_three() {
    // The same trace with the wall in the camera's own row: from world
    // (100, 100), facing angle zero, the vertical line at x = 192
    // bounding cell column 3 is struck first, 92 world units ahead.
    let grid = grid_with(&[(3, 1, 1)]);
    let ray = Ray::new(100 * SCALE, 100 * SCALE, SCALE, 0);
    let hit = ray.cast_ray(&grid).expect("wall ahead must be hit");
    assert!(hit.x_move);
    assert_eq!(hit.world_distance, 92 * SCALE);
    assert_eq!(hit.pos_x, 192 * SCALE);
    assert_eq!(
        raycaster::project::corrected_distance(
            hit.world_distance,
            raycaster::project::cos_between(SCALE, 0, ray.dir_x, ray.dir_y),
        ),
        92 * SCALE,
    );
}

#[test]
fn straight_east_corrected_distance_matches() {
    let grid = grid_with(&[(3, 3, 1)]);
    let ray = Ray::new(100 * SCALE, 228 * SCALE, SCALE, 0);
    let hit = ray.cast_ray(&grid).unwrap();
    let c = raycaster::project::cos_between(SCALE, 0, ray.dir_x, ray.dir_y);
    assert_eq!(c, SCALE);
    let z = raycaster::project::corrected_distance(hit.world_distance, c);
    assert_eq!(z, 92 * SCALE);
}

#[test]
fn axis_aligned_east_manual_trace() {
    // Wall at (4, 1); camera in cell (1, 1) at world (100, 100); the
    // ray crosses x = 128 and x = 192 through empty cells and enters
    // (4, 1) at x = 256, which is 156 world units ahead.
    let grid = grid_with(&[(4, 1, 2)]);
    let ray = Ray::new(100 * SCALE, 100 * SCALE, SCALE, 0);
    let hit = ray.cast_ray(&grid).unwrap();
    assert!(hit.x_move);
    assert_eq!(hit.world_distance, 156 * SCALE);
    assert_eq!(hit.wall_type, 2);
    assert_eq!(hit.pos_x, 256 * SCALE);
    assert_eq!(hit.pos_y, 100 * SCALE);
}

#[test]
fn axis_aligned_south_manual_trace() {
    // Wall at (1, 3); camera at world (100, 100) looking straight
    // south (positive y); the horizontal line at y = 192 is entered
    // after 92 world units.
    let grid = grid_with(&[(1, 3, 3)]);
    let ray = Ray::new(100 * SCALE, 100 * SCALE, 0, SCALE);
    let hit = ray.cast_ray(&grid).unwrap();
    assert!(!hit.x_move, "a horizontal grid line is struck");
    assert_eq!(hit.world_distance, 92 * SCALE);
    assert_eq!(hit.wall_type, 3);
    assert_eq!(hit.pos_x, 100 * SCALE);
    assert_eq!(hit.pos_y, 192 * SCALE);
}

#[test]
fn axis_aligned_miss_returns_none() {
    let grid = empty_grid();
    assert!(Ray::new(100 * SCALE, 100 * SCALE, SCALE, 0).cast_ray(&grid).is_none());
    assert!(Ray::new(100 * SCALE, 100 * SCALE, 0, -SCALE).cast_ray(&grid).is_none());
}

#[test]
fn diagonal_ray_terminates_on_empty_grid() {
    let grid = empty_grid();
    for &(dx, dy) in &[
        (SCALE, SCALE),
        (-SCALE, SCALE),
        (SCALE, -SCALE),
        (-SCALE, -SCALE),
        (3 * SCALE, SCALE),
        (1, SCALE),
    ] {
        let ray = Ray::new(100 * SCALE, 100 * SCALE, dx, dy);
        assert!(ray.cast_ray(&grid).is_none());
    }
}

#[test]
fn cast_is_deterministic_per_column() {
    let grid = grid_with(&[(3, 3, 1), (5, 1, 2), (0, 0, 3)]);
    let mut player = raycaster::player::Player::new(100 * SCALE, 228 * SCALE);
    player.set_direction(SCALE, 0);
    let a = player.cast_rays(&grid, 512);
    let b = player.cast_rays(&grid, 512);
    assert_eq!(a.len(), 512);
    for i in 0..512 {
        assert_eq!(a[i].0, b[i].0);
        assert_eq!(a[i].1.is_some(), b[i].1.is_some());
        if let (Some(x), Some(y)) = (&a[i].1, &b[i].1) {
            assert_eq!(x, y);
        }
    }
}

#[test]
fn center_column_looks_along_facing() {
    // Column 256 of 512 has angular offset zero, so its ray direction
    // is the facing itself.
    let grid = grid_with(&[(3, 3, 1)]);
    let mut player = raycaster::player::Player::new(100 * SCALE, 228 * SCALE);
    player.set_direction(SCALE, 0);
    let rays = player.cast_rays(&grid, 512);
    let (ray, hit) = &rays[256];
    assert_eq!((ray.dir_x, ray.dir_y), (SCALE, 0));
    assert_eq!(hit.as_ref().unwrap().world_distance, 92 * SCALE);
}
