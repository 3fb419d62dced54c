use rusty_roguelike::camera::Camera;
use rusty_roguelike::geometry::{distance_squared_exec, Point, Rect};
use rusty_roguelike::map::{get_map_idx, DungeonMap, TileType};
use rusty_roguelike::{DISPLAY_HEIGHT, DISPLAY_WIDTH, NUM_TILES};

#[test]
fn camera_new_centres_window_on_position() {
    let c = Camera::new(Point::new(40, 25));
    assert_eq!(c.left_x, 20);
    assert_eq!(c.right_x, 60);
    assert_eq!(c.top_y, 13);
    assert_eq!(c.bottom_y, 38);
}

#[test]
fn camera_set_position_keeps_window_size() {
    let mut c = Camera::new(Point::new(0, 0));
    assert_eq!((c.left_x, c.right_x, c.top_y, c.bottom_y), (-20, 20, -12, 13));
    c.set_position(Point::new(79, 49));
    assert_eq!(c.right_x - c.left_x, DISPLAY_WIDTH);
    assert_eq!(c.bottom_y - c.top_y, DISPLAY_HEIGHT);
    assert!(c.left_x <= 79 && 79 < c.right_x);
    assert!(c.top_y <= 49 && 49 < c.bottom_y);
}

#[test]
fn map_index_is_row_major() {
    assert_eq!(get_map_idx(0, 0), 0);
    assert_eq!(get_map_idx(3, 2), 163);
    assert_eq!(get_map_idx(79, 49), NUM_TILES - 1);
}

#[test]
fn map_index_and_point_round_trip() {
    let m = DungeonMap::new();
    for idx in [0usize, 1, 79, 80, 163, 3999] {
        let p = m.index_to_point2d(idx);
        assert_eq!(m.point2d_to_index(p), idx);
    }
    assert_eq!(m.index_to_point2d(163), Point::new(3, 2));
}

#[test]
fn map_new_is_all_unrevealed_floor() {
    let m = DungeonMap::new();
    assert_eq!(m.tiles.len(), NUM_TILES);
    assert!(m.tiles.iter().all(|t| *t == TileType::Floor));
    assert!(m.revealed_tiles.iter().all(|r| !*r));
    assert_eq!(m.floor_count(), NUM_TILES);
}

#[test]
fn map_bounds_and_borders() {
    let m = DungeonMap::new();
    assert!(m.in_bounds(Point::new(0, 0)));
    assert!(m.in_bounds(Point::new(79, 49)));
    assert!(!m.in_bounds(Point::new(80, 0)));
    assert!(!m.in_bounds(Point::new(0, -1)));
    assert!(!m.within_borders(Point::new(0, 5)));
    assert!(m.within_borders(Point::new(1, 1)));
    assert!(!m.within_borders(Point::new(79, 5)));
    assert_eq!(m.try_get_map_idx(Point::new(5, 1)), Some(85));
    assert_eq!(m.try_get_map_idx(Point::new(-1, 1)), None);
}

#[test]
fn map_can_enter_floor_and_exit_only() {
    let mut m = DungeonMap::new();
    m.tiles[get_map_idx(1, 1)] = TileType::Wall;
    m.tiles[get_map_idx(2, 1)] = TileType::Exit;
    assert!(!m.can_enter_tile(Point::new(1, 1)));
    assert!(m.can_enter_tile(Point::new(2, 1)));
    assert!(m.can_enter_tile(Point::new(3, 1)));
    assert!(!m.can_enter_tile(Point::new(100, 1)));
    assert_eq!(m.floor_count(), NUM_TILES - 2);
}

#[test]
fn rect_with_size_center_and_intersect() {
    let a = Rect::with_size(1, 2, 4, 6);
    assert_eq!((a.x1, a.y1, a.x2, a.y2), (1, 2, 5, 8));
    assert_eq!(a.center(), Point::new(3, 5));
    let b = Rect::with_size(5, 8, 2, 2);
    assert!(a.intersect(&b));
    assert!(b.intersect(&a));
    let c = Rect::with_size(6, 2, 2, 2);
    assert!(!a.intersect(&c));
    assert!(!c.intersect(&a));
}

#[test]
fn point_offset_and_distance() {
    let p = Point::new(3, 4).offset_by(Point::new(-1, 2));
    assert_eq!(p, Point::new(2, 6));
    assert_eq!(distance_squared_exec(Point::new(0, 0), Point::new(3, 4)), 25);
    assert_eq!(distance_squared_exec(Point::new(40, 25), Point::new(40, 15)), 100);
}
