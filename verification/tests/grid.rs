use roguelike::fov::FovMap;
use roguelike::grid::Tile;
use roguelike::grid::TileGrid;

#[test]
fn empty_tile_blocks_nothing() {
    let t = Tile::empty();
    assert!(!t.blocked);
    assert!(!t.block_sight);
    assert!(!t.explored);
}

#[test]
fn wall_tile_blocks_movement_and_sight() {
    let t = Tile::wall();
    assert!(t.blocked);
    assert!(t.block_sight);
    assert!(!t.explored);
}

#[test]
fn new_grid_is_all_wall() {
    let grid = TileGrid::new(7, 4);
    assert_eq!(grid.width(), 7);
    assert_eq!(grid.height(), 4);
    for x in 0..7 {
        for y in 0..4 {
            assert_eq!(grid.tile(x, y), Tile::wall());
        }
    }
}

#[test]
fn grid_of_no_cells() {
    let grid = TileGrid::new(0, 0);
    assert_eq!(grid.width(), 0);
    assert_eq!(grid.height(), 0);
    assert!(!grid.in_bounds(0, 0));
}

#[test]
fn in_bounds_at_the_edges() {
    let grid = TileGrid::new(80, 45);
    assert!(grid.in_bounds(0, 0));
    assert!(grid.in_bounds(79, 44));
    assert!(!grid.in_bounds(80, 44));
    assert!(!grid.in_bounds(79, 45));
    assert!(!grid.in_bounds(-1, 0));
    assert!(!grid.in_bounds(0, -1));
}

#[test]
fn set_tile_changes_one_cell() {
    let mut grid = TileGrid::new(5, 5);
    grid.set_tile(2, 3, Tile::empty());
    for x in 0..5 {
        for y in 0..5 {
            let expected = if (x, y) == (2, 3) { Tile::empty() } else { Tile::wall() };
            assert_eq!(grid.tile(x, y), expected);
        }
    }
    assert_eq!(grid.width(), 5);
    assert_eq!(grid.height(), 5);
}

#[test]
fn set_tile_keeps_what_is_written() {
    let mut grid = TileGrid::new(3, 3);
    let seen_floor = Tile { blocked: false, block_sight: false, explored: true };
    grid.set_tile(0, 2, seen_floor);
    assert_eq!(grid.tile(0, 2), seen_floor);
    grid.set_tile(0, 2, Tile::wall());
    assert_eq!(grid.tile(0, 2), Tile::wall());
}

#[test]
fn new_fov_map_sees_nothing() {
    let fov = FovMap::new(6, 3);
    assert_eq!(fov.width(), 6);
    assert_eq!(fov.height(), 3);
    for x in 0..6 {
        for y in 0..3 {
            assert!(!fov.is_in_fov(x, y));
        }
    }
}

#[test]
fn fov_map_set_changes_one_cell() {
    let mut fov = FovMap::new(4, 4);
    fov.set(1, 2, true);
    for x in 0..4 {
        for y in 0..4 {
            assert_eq!(fov.is_in_fov(x, y), (x, y) == (1, 2));
        }
    }
    fov.set(1, 2, false);
    assert!(!fov.is_in_fov(1, 2));
}
