use wisp_defense::buildings::common_components::BuildingType;
use wisp_defense::grids::common::{GridCoords, GridImprint};
use wisp_defense::grids::obstacles::{BelowField, Field, ObstacleGrid};
use wisp_defense::pathfinding::path_find_closest_building;

fn c(x: i32, y: i32) -> GridCoords {
    GridCoords { x, y }
}

fn building(e: u64) -> Field {
    Field::Building(e, BuildingType::MainBase, BelowField::Empty)
}

fn one() -> GridImprint {
    GridImprint::Rectangle { width: 1, height: 1 }
}

#[test]
fn finds_adjacent_building() {
    let mut grid = ObstacleGrid::new_with_size(3, 3);
    grid.imprint(c(1, 2), building(1), one());
    assert_eq!(path_find_closest_building(&grid, c(1, 1)), Some(vec![c(1, 2)]));
}

#[test]
fn no_building_gives_none() {
    let mut grid = ObstacleGrid::new_with_size(4, 4);
    grid.imprint(c(2, 2), Field::Wall(1), one());
    assert_eq!(path_find_closest_building(&grid, c(0, 0)), None);
}

#[test]
fn walled_in_start_gives_none() {
    let mut grid = ObstacleGrid::new_with_size(5, 5);
    grid.imprint(c(4, 4), building(1), one());
    for (x, y) in [(0, 1), (1, 1), (1, 0)] {
        grid.imprint(c(x, y), Field::Wall(2), one());
    }
    assert_eq!(path_find_closest_building(&grid, c(0, 0)), None);
}

#[test]
fn path_is_shortest_with_diagonals() {
    let grid = {
        let mut g = ObstacleGrid::new_with_size(6, 6);
        g.imprint(c(4, 4), building(9), one());
        g
    };
    let path = path_find_closest_building(&grid, c(0, 0)).unwrap();
    assert_eq!(path.len(), 4);
    assert_eq!(*path.last().unwrap(), c(4, 4));
}

#[test]
fn diagonal_does_not_cut_wall_corners() {
    let mut grid = ObstacleGrid::new_with_size(3, 3);
    grid.imprint(c(1, 1), building(5), one());
    grid.imprint(c(1, 0), Field::Wall(6), one());
    grid.imprint(c(0, 1), Field::Wall(6), one());
    // The diagonal step from (0,0) to (1,1) cuts two wall corners: no path.
    assert_eq!(path_find_closest_building(&grid, c(0, 0)), None);
}

#[test]
fn walks_around_a_wall() {
    let mut grid = ObstacleGrid::new_with_size(5, 3);
    grid.imprint(c(4, 1), building(5), one());
    grid.imprint(c(2, 0), Field::Wall(6), GridImprint::Rectangle { width: 1, height: 2 });
    let path = path_find_closest_building(&grid, c(0, 0)).unwrap();
    assert_eq!(*path.last().unwrap(), c(4, 1));
    // A diagonal step may not cut the wall's corner, so the walk goes over the top.
    assert_eq!(path.len(), 5);
    assert!(path.iter().all(|p| !grid.get(*p).is_wall()));
}

#[test]
fn start_on_a_building_looks_for_another() {
    let mut grid = ObstacleGrid::new_with_size(4, 1);
    grid.imprint(c(0, 0), building(1), one());
    grid.imprint(c(3, 0), building(2), one());
    assert_eq!(path_find_closest_building(&grid, c(0, 0)), Some(vec![c(1, 0), c(2, 0), c(3, 0)]));
}
