use wisp_defense::buildings::common_components::BuildingType;
use wisp_defense::grids::common::{GridCoords, GridImprint};
use wisp_defense::grids::energy_supply::{EnergySupplyField, EnergySupplyGrid};
use wisp_defense::grids::obstacles::{BelowField, Field, ObstacleGrid};
use wisp_defense::grids::visited::{Tracking, TrackingGrid, VisitedGrid};
use wisp_defense::grids::wisps::WispsGrid;

fn c(x: i32, y: i32) -> GridCoords {
    GridCoords { x, y }
}

#[test]
fn new_grid_is_empty_and_sized() {
    let grid = ObstacleGrid::new_with_size(4, 3);
    assert_eq!(grid.bounds(), (4, 3));
    assert_eq!(grid.grid.len(), 12);
    assert!(grid.grid.iter().all(|f| f.is_empty()));
    assert_eq!(grid.version, 0);
}

#[test]
fn index_is_row_major() {
    let grid = ObstacleGrid::new_with_size(5, 4);
    assert_eq!(grid.index(c(0, 0)), 0);
    assert_eq!(grid.index(c(4, 0)), 4);
    assert_eq!(grid.index(c(0, 1)), 5);
    assert_eq!(grid.index(c(3, 2)), 13);
}

#[test]
fn resize_and_reset_clears_and_keeps_version() {
    let mut grid = ObstacleGrid::new_with_size(2, 2);
    grid.imprint(c(0, 0), Field::Wall(9), GridImprint::Rectangle { width: 1, height: 1 });
    let version = grid.version;
    grid.resize_and_reset(3, 1);
    assert_eq!(grid.bounds(), (3, 1));
    assert_eq!(grid.grid.len(), 3);
    assert!(grid.grid.iter().all(|f| f.is_empty()));
    assert_eq!(grid.version, version);
}

#[test]
fn imprint_covers_rectangle_and_bumps_version() {
    let mut grid = ObstacleGrid::new_with_size(5, 5);
    let field = Field::Building(7, BuildingType::EnergyRelay, BelowField::Empty);
    grid.imprint(c(1, 2), field, GridImprint::Rectangle { width: 2, height: 3 });
    assert_eq!(grid.version, 1);
    for y in 0..5 {
        for x in 0..5 {
            let covered = (1..3).contains(&x) && (2..5).contains(&y);
            assert_eq!(*grid.get(c(x, y)) == field, covered, "cell {x},{y}");
        }
    }
}

#[test]
fn imprint_then_deprint_restores_other_cells() {
    let mut grid = ObstacleGrid::new_with_size(4, 4);
    grid.imprint(c(3, 3), Field::Wall(1), GridImprint::Rectangle { width: 1, height: 1 });
    grid.imprint(c(0, 0), Field::DarkOre(2), GridImprint::Rectangle { width: 2, height: 2 });
    grid.deprint(c(0, 0), GridImprint::Rectangle { width: 2, height: 2 });
    assert_eq!(*grid.get(c(0, 0)), Field::Empty);
    assert_eq!(*grid.get(c(1, 1)), Field::Empty);
    assert_eq!(*grid.get(c(3, 3)), Field::Wall(1));
    assert_eq!(grid.version, 3);
}

#[test]
fn reprint_moves_an_object() {
    let mut grid = ObstacleGrid::new_with_size(4, 4);
    let imprint = GridImprint::Rectangle { width: 2, height: 1 };
    grid.imprint(c(0, 0), Field::QuantumField(5), imprint);
    grid.reprint(c(0, 0), c(1, 0), Field::QuantumField(5), imprint);
    assert_eq!(*grid.get(c(0, 0)), Field::Empty);
    assert_eq!(*grid.get(c(1, 0)), Field::QuantumField(5));
    assert_eq!(*grid.get(c(2, 0)), Field::QuantumField(5));
    assert_eq!(grid.version, 3);
}

#[test]
fn field_predicates() {
    let mining = Field::Building(1, BuildingType::MiningComplex, BelowField::DarkOre(2));
    assert!(mining.is_building() && mining.is_high_obstacle() && mining.is_natural_obstacle());
    let relay = Field::Building(1, BuildingType::EnergyRelay, BelowField::Empty);
    assert!(!relay.is_natural_obstacle());
    assert!(Field::Wall(3).is_wall() && Field::Wall(3).is_high_obstacle());
    assert!(Field::DarkOre(3).is_dark_ore() && !Field::DarkOre(3).is_high_obstacle());
    assert!(Field::QuantumField(4).is_natural_obstacle());
    assert!(Field::Empty.is_empty());
    assert!(BelowField::default().is_empty());
    assert!(!BelowField::DarkOre(1).is_empty());
}

#[test]
fn query_building_placement_rules() {
    let mut grid = ObstacleGrid::new_with_size(6, 6);
    let imprint = GridImprint::Rectangle { width: 2, height: 2 };
    assert!(grid.query_building_placement(c(0, 0), BuildingType::EnergyRelay, imprint));
    // A mining complex needs dark ore under it.
    assert!(!grid.query_building_placement(c(0, 0), BuildingType::MiningComplex, imprint));
    grid.imprint(c(1, 1), Field::DarkOre(8), GridImprint::Rectangle { width: 1, height: 1 });
    assert!(grid.query_building_placement(c(0, 0), BuildingType::MiningComplex, imprint));
    assert!(!grid.query_building_placement(c(0, 0), BuildingType::EnergyRelay, imprint));
    grid.imprint(c(0, 0), Field::Wall(9), GridImprint::Rectangle { width: 1, height: 1 });
    assert!(!grid.query_building_placement(c(0, 0), BuildingType::MiningComplex, imprint));
    // A mining complex must lie wholly inside the grid.
    assert!(!grid.query_building_placement(c(5, 5), BuildingType::MiningComplex, imprint));
}

#[test]
fn imprint_mining_complex_keeps_ore_below() {
    let mut grid = ObstacleGrid::new_with_size(3, 3);
    grid.imprint(c(1, 1), Field::DarkOre(8), GridImprint::Rectangle { width: 1, height: 1 });
    grid.imprint_mining_complex(c(0, 0), 20, GridImprint::Rectangle { width: 2, height: 2 });
    assert_eq!(
        *grid.get(c(1, 1)),
        Field::Building(20, BuildingType::MiningComplex, BelowField::DarkOre(8))
    );
    assert_eq!(
        *grid.get(c(0, 0)),
        Field::Building(20, BuildingType::MiningComplex, BelowField::Empty)
    );
    assert_eq!(*grid.get(c(2, 2)), Field::Empty);
}

#[test]
fn imprint_queries_skip_cells_outside() {
    let mut grid = ObstacleGrid::new_with_size(3, 3);
    grid.imprint(c(2, 2), Field::Wall(1), GridImprint::Rectangle { width: 1, height: 1 });
    let imprint = GridImprint::Rectangle { width: 2, height: 2 };
    assert!(grid.imprint_query_all(c(0, 0), imprint, |f: &Field| f.is_empty()));
    assert!(!grid.imprint_query_all(c(1, 1), imprint, |f: &Field| f.is_empty()));
    assert!(grid.imprint_query_any(c(2, 2), imprint, |f: &Field| f.is_wall()));
    assert!(!grid.imprint_query_any(c(0, 0), imprint, |f: &Field| f.is_wall()));
}

#[test]
fn covered_coords_row_by_row() {
    let imprint = GridImprint::Rectangle { width: 3, height: 2 };
    assert_eq!(
        imprint.covered_coords(c(1, 1)),
        vec![c(1, 1), c(2, 1), c(3, 1), c(1, 2), c(2, 2), c(3, 2)]
    );
    assert!(GridImprint::Rectangle { width: 0, height: 4 }.covered_coords(c(0, 0)).is_empty());
    assert_eq!(GridImprint::default(), GridImprint::Rectangle { width: 1, height: 1 });
}

#[test]
fn covers_and_bounds_checks() {
    let imprint = GridImprint::Rectangle { width: 2, height: 3 };
    assert!(imprint.covers_coords(c(1, 1), c(2, 3)));
    assert!(!imprint.covers_coords(c(1, 1), c(3, 3)));
    assert!(c(1, 1).is_imprint_in_bounds(&imprint, (3, 4)));
    assert!(!c(2, 1).is_imprint_in_bounds(&imprint, (3, 4)));
    assert!(c(-5, -5).is_imprint_in_bounds(&GridImprint::Rectangle { width: 0, height: 1 }, (1, 1)));
    assert!(c(0, 0).is_in_bounds((1, 1)));
    assert!(!c(1, 0).is_in_bounds((1, 1)));
}

#[test]
fn coords_arithmetic_and_conversions() {
    assert_eq!(c(2, 3).shifted((-1, 4)), c(1, 7));
    assert_eq!(c(-2, 3).manhattan_distance(&c(1, -1)), 7);
    assert_eq!(c(i32::MIN, 0).manhattan_distance(&c(i32::MAX, 0)), u32::MAX as i64);
    let coords: GridCoords = (4, -6).into();
    assert_eq!(coords, c(4, -6));
    let pair: (i32, i32) = coords.into();
    assert_eq!(pair, (4, -6));
    assert_eq!(GridCoords::default(), c(0, 0));
}

#[test]
fn wisps_add_then_remove_restores() {
    let mut grid = WispsGrid::new_with_size(2, 2);
    grid.wisp_add(c(1, 1), 10);
    grid.wisp_add(c(1, 1), 11);
    grid.wisp_add(c(1, 1), 12);
    grid.wisp_remove(c(1, 1), 10);
    // The last wisp takes the place of the removed one.
    assert_eq!(grid.get(c(1, 1)), &vec![12, 11]);
    grid.wisp_add(c(1, 1), 13);
    grid.wisp_remove(c(1, 1), 13);
    assert_eq!(grid.get(c(1, 1)), &vec![12, 11]);
    assert_eq!(grid.version, 6);
}

#[test]
fn wisp_move_between_cells() {
    let mut grid = WispsGrid::new_with_size(3, 1);
    grid.wisp_add(c(0, 0), 1);
    grid.wisp_move(c(0, 0), c(2, 0), 1);
    assert!(grid.get(c(0, 0)).is_empty());
    assert_eq!(grid.get(c(2, 0)), &vec![1]);
}

#[test]
fn energy_supply_add_then_remove_restores() {
    let mut grid = EnergySupplyGrid::new_with_size(3, 3);
    assert!(!grid.is_imprint_suppliable(c(0, 0), GridImprint::Rectangle { width: 3, height: 3 }));
    grid.add_supplier(c(2, 2), 40);
    assert!(grid.get(c(2, 2)).has_supply());
    assert!(grid.get(c(2, 2)).has_supplier(40));
    assert!(!grid.get(c(2, 2)).has_supplier(41));
    assert!(grid.is_imprint_suppliable(c(1, 1), GridImprint::Rectangle { width: 2, height: 2 }));
    assert!(grid.is_imprint_suppliable(c(2, 2), GridImprint::Rectangle { width: 5, height: 5 }));
    assert!(!grid.is_imprint_suppliable(c(0, 0), GridImprint::Rectangle { width: 2, height: 2 }));
    grid.remove_supplier(c(2, 2), 40);
    assert!(!grid.get(c(2, 2)).has_supply());
    assert_eq!(grid.version, 2);
}

#[test]
fn energy_supply_field_counts_suppliers_once() {
    let mut field = EnergySupplyField::default();
    field.add_supplier(3);
    field.add_supplier(3);
    field.remove_supplier(3);
    assert!(!field.has_supply());
}

#[test]
fn visited_and_tracking_grids() {
    let mut visited = VisitedGrid::new_with_size(2, 2);
    assert!(!visited.is_visited(c(1, 0)));
    visited.set_visited(c(1, 0));
    assert!(visited.is_visited(c(1, 0)));
    assert!(!visited.is_visited(c(0, 1)));

    let mut tracking = TrackingGrid::new_with_size(3, 1);
    tracking.set_tracked(c(1, 0), c(0, 0));
    tracking.set_tracked(c(2, 0), c(1, 0));
    assert!(tracking.is_tracked(c(2, 0)));
    assert!(!tracking.is_tracked(c(0, 0)));
    assert_eq!(*tracking.get(c(1, 0)), Tracking::Visited { from: c(0, 0) });
    assert_eq!(tracking.compile_path(c(2, 0), c(0, 0)), vec![c(1, 0), c(2, 0)]);
}

#[test]
fn imprint_past_the_end_of_a_row_lands_on_the_next_row() {
    let mut grid = ObstacleGrid::new_with_size(3, 3);
    grid.imprint(c(2, 0), Field::Wall(4), GridImprint::Rectangle { width: 2, height: 1 });
    assert_eq!(*grid.get(c(2, 0)), Field::Wall(4));
    assert_eq!(*grid.get(c(0, 1)), Field::Wall(4));
    assert_eq!(grid.grid.iter().filter(|f| !f.is_empty()).count(), 2);
}

#[test]
fn imprint_fits_storage_follows_storage_positions() {
    let grid = ObstacleGrid::new_with_size(3, 3);
    let two_wide = GridImprint::Rectangle { width: 2, height: 1 };
    let one = GridImprint::Rectangle { width: 1, height: 1 };
    assert!(grid.imprint_fits_storage(c(2, 0), two_wide));
    assert!(!grid.imprint_fits_storage(c(2, 2), two_wide));
    assert!(grid.imprint_fits_storage(c(1, 2), two_wide));
    assert!(!grid.imprint_fits_storage(c(-1, 0), one));
    assert!(grid.imprint_fits_storage(c(-1, 1), one));
    assert!(!grid.imprint_fits_storage(c(0, 3), one));
    assert!(grid.imprint_fits_storage(c(7, 7), GridImprint::Rectangle { width: 0, height: 4 }));
}

#[test]
fn mining_complex_past_the_end_of_a_row_keeps_the_ore_below() {
    let mut grid = ObstacleGrid::new_with_size(3, 2);
    grid.imprint(c(0, 1), Field::DarkOre(6), GridImprint::Rectangle { width: 1, height: 1 });
    grid.imprint_mining_complex(c(2, 0), 30, GridImprint::Rectangle { width: 2, height: 1 });
    assert_eq!(*grid.get(c(2, 0)), Field::Building(30, BuildingType::MiningComplex, BelowField::Empty));
    assert_eq!(*grid.get(c(0, 1)), Field::Building(30, BuildingType::MiningComplex, BelowField::DarkOre(6)));
}

#[test]
fn query_any_is_not_query_all_of_the_opposite() {
    let mut grid = ObstacleGrid::new_with_size(4, 4);
    grid.imprint(c(1, 1), Field::Wall(3), GridImprint::Rectangle { width: 1, height: 1 });
    let imprint = GridImprint::Rectangle { width: 2, height: 2 };
    for (x, y) in [(0, 0), (1, 1), (2, 2), (3, 3), (-5, -5)] {
        let any = grid.imprint_query_any(c(x, y), imprint, |f| f.is_wall());
        let all = grid.imprint_query_all(c(x, y), imprint, |f| !f.is_wall());
        assert_eq!(any, !all, "at {x},{y}");
    }
    assert!(grid.imprint_query_any(c(0, 0), imprint, |f| f.is_wall()));
    assert!(!grid.imprint_query_any(c(-5, -5), imprint, |f| f.is_wall()));
    assert!(grid.imprint_query_all(c(-5, -5), imprint, |f| !f.is_wall()));
}
