use wisp_defense::buildings::common_components::{BuildingType, TowerType};
use wisp_defense::grids::common::{GridCoords, GridImprint};
use wisp_defense::inventory::almanach::{Almanach, AlmanachBuildingInfo};
use wisp_defense::grids::energy_supply::EnergySupplyGrid;
use wisp_defense::overlays::emissions::{EmissionsOverlayMode, manage_emissions_overlay_mode_system};
use wisp_defense::overlays::energy_supply::{
    EnergySupplyCell, EnergySupplyOverlayConfig, EnergySupplyOverlaySecondaryMode,
    EnergySupplyOverlayState, HighlightLevel, OverlayBufferCreator, cells_in_bounds,
};

fn c(x: i32, y: i32) -> GridCoords {
    GridCoords { x, y }
}

const NONE: EnergySupplyCell = EnergySupplyCell { has_supply: 0, has_power: 0, highlight_level: 0 };
const LIT: EnergySupplyCell = EnergySupplyCell { has_supply: 1, has_power: 0, highlight_level: 2 };
const LIT_POWERED: EnergySupplyCell = EnergySupplyCell { has_supply: 1, has_power: 1, highlight_level: 2 };

#[test]
fn emissions_overlay_toggles() {
    let mut mode = EmissionsOverlayMode::Energy;
    manage_emissions_overlay_mode_system(&mut mode);
    assert_eq!(mode, EmissionsOverlayMode::Hidden);
    manage_emissions_overlay_mode_system(&mut mode);
    assert_eq!(mode, EmissionsOverlayMode::Energy);
}

#[test]
fn cells_and_levels() {
    assert_eq!(EnergySupplyCell::none(), NONE);
    assert_eq!(EnergySupplyCell::with_supply(true, HighlightLevel::Dimmed), EnergySupplyCell {
        has_supply: 1,
        has_power: 1,
        highlight_level: 1,
    });
    assert_eq!(HighlightLevel::Unlit.value(), 0);
    assert_eq!(HighlightLevel::Highlighted.value(), 2);
}

#[test]
fn buffer_highlights_one_supplier() {
    let mut grid = EnergySupplyGrid::new_with_size(2, 1);
    grid.add_supplier(c(0, 0), 1);
    grid.add_supplier(c(1, 0), 2);
    let power = vec![true, false];
    let creator = OverlayBufferCreator::new(&grid, &power);
    assert_eq!(creator.generate_buffer_data(None), vec![LIT_POWERED, LIT]);
    assert_eq!(creator.generate_buffer_data(Some(2)), vec![
        EnergySupplyCell { has_supply: 1, has_power: 1, highlight_level: 1 },
        LIT,
    ]);
    let empty = EnergySupplyGrid::new_with_size(1, 1);
    let power = vec![false];
    assert_eq!(OverlayBufferCreator::new(&empty, &power).generate_buffer_data(None), vec![NONE]);
}

#[test]
fn flood_without_power_marks_range() {
    // A 5x1 strip; a supplier placed on the first cell with range 2.
    let grid = EnergySupplyGrid::new_with_size(5, 1);
    let power = vec![false; 5];
    let creator = OverlayBufferCreator::new(&grid, &power);
    let buffer = creator.flood_potential_energy_supply_to_overlay_heatmap(&vec![c(0, 0)], 2);
    assert_eq!(buffer, vec![LIT, LIT, LIT, NONE, NONE]);
}

#[test]
fn flood_reaching_power_lights_connected_supply() {
    // Cells 3 and 4 are supplied by an existing supplier; cell 3 lies just beyond the range
    // and is connected to the power network.
    let mut grid = EnergySupplyGrid::new_with_size(6, 1);
    grid.add_supplier(c(3, 0), 9);
    grid.add_supplier(c(4, 0), 9);
    let power = vec![false, false, false, true, true, false];
    let creator = OverlayBufferCreator::new(&grid, &power);
    let buffer = creator.flood_potential_energy_supply_to_overlay_heatmap(&vec![c(0, 0)], 2);
    assert_eq!(buffer, vec![LIT_POWERED, LIT_POWERED, LIT_POWERED, LIT_POWERED, LIT_POWERED, NONE]);
}

#[test]
fn flood_zero_range_only_marks_start() {
    let grid = EnergySupplyGrid::new_with_size(3, 3);
    let power = vec![false; 9];
    let creator = OverlayBufferCreator::new(&grid, &power);
    let buffer = creator.flood_potential_energy_supply_to_overlay_heatmap(&vec![c(1, 1)], 0);
    let lit: Vec<usize> = (0..9).filter(|i| buffer[*i] == LIT).collect();
    assert_eq!(lit, vec![4]);
}

#[test]
fn flood_range_is_counted_in_cardinal_steps() {
    let grid = EnergySupplyGrid::new_with_size(5, 5);
    let power = vec![false; 25];
    let creator = OverlayBufferCreator::new(&grid, &power);
    let buffer = creator.flood_potential_energy_supply_to_overlay_heatmap(&vec![c(2, 2)], 1);
    let lit: Vec<usize> = (0..25).filter(|i| buffer[*i] == LIT).collect();
    assert_eq!(lit, vec![7, 11, 12, 13, 17]);
}

#[test]
fn secondary_modes() {
    let mut grid = EnergySupplyGrid::new_with_size(4, 1);
    grid.add_supplier(c(3, 0), 1);
    let power = vec![false; 4];
    let creator = OverlayBufferCreator::new(&grid, &power);
    assert_eq!(
        creator.buffer_for_secondary_mode(&EnergySupplyOverlaySecondaryMode::Inactive),
        vec![NONE, NONE, NONE, LIT]
    );
    assert_eq!(
        creator.buffer_for_secondary_mode(&EnergySupplyOverlaySecondaryMode::Highlight { building: 5 }),
        vec![NONE, NONE, NONE, EnergySupplyCell { has_supply: 1, has_power: 0, highlight_level: 1 }]
    );
    // A 2x2 placement at the top row: only its cells inside the grid start the flood.
    let placing = EnergySupplyOverlaySecondaryMode::Placing {
        grid_coords: c(0, 0),
        grid_imprint: GridImprint::Rectangle { width: 2, height: 2 },
        range: 0,
    };
    assert_eq!(creator.buffer_for_secondary_mode(&placing), vec![LIT, LIT, NONE, LIT]);
    let outside = EnergySupplyOverlaySecondaryMode::Placing {
        grid_coords: c(-1, 0),
        grid_imprint: GridImprint::Rectangle { width: 2, height: 2 },
        range: 3,
    };
    assert_eq!(creator.buffer_for_secondary_mode(&outside), vec![NONE, NONE, NONE, LIT]);
}

#[test]
fn overlay_config_decisions() {
    let mut config = EnergySupplyOverlayConfig::default();
    assert_eq!(config.overlay_state(), EnergySupplyOverlayState::Hide);
    assert_eq!(EnergySupplyOverlayState::default(), EnergySupplyOverlayState::Hide);
    config.on_building_ui_focused(7, true);
    assert_eq!(config.secondary_mode, EnergySupplyOverlaySecondaryMode::Highlight { building: 7 });
    assert_eq!(config.overlay_state(), EnergySupplyOverlayState::Show);
    config.on_building_ui_focused(8, false);
    assert!(config.secondary_mode.is_none());
    config.toggle_globally_enabled();
    assert_eq!(config.overlay_state(), EnergySupplyOverlayState::Show);
    config.toggle_globally_enabled();
    config.on_building_ui_unfocused();
    assert_eq!(config.overlay_state(), EnergySupplyOverlayState::Hide);
}

#[test]
fn cells_in_bounds_keeps_order() {
    let cells = vec![c(-1, 0), c(0, 0), c(3, 1), c(1, 1), c(1, 2)];
    assert_eq!(cells_in_bounds(&cells, (2, 2)), vec![c(0, 0), c(1, 1)]);
}

#[test]
fn placing_a_supplier_shows_its_potential_supply() {
    let mut almanach = Almanach::new();
    almanach.add_building_info(AlmanachBuildingInfo {
        building_type: BuildingType::EnergyRelay,
        name: "Energy Relay".to_string(),
        cost: vec![],
        grid_imprint: GridImprint::Rectangle { width: 1, height: 1 },
        upgrades: vec![],
    });
    let mut config = EnergySupplyOverlayConfig::default();
    config.on_grid_placer_changed(Some(BuildingType::EnergyRelay), c(4, 5), &almanach);
    assert_eq!(
        config.secondary_mode,
        EnergySupplyOverlaySecondaryMode::Placing {
            grid_coords: c(4, 5),
            grid_imprint: GridImprint::Rectangle { width: 1, height: 1 },
            range: 15,
        }
    );
    assert_eq!(config.overlay_state(), EnergySupplyOverlayState::Show);
    config.on_grid_placer_changed(Some(BuildingType::Tower(TowerType::Cannon)), c(4, 5), &almanach);
    assert_eq!(config.secondary_mode, EnergySupplyOverlaySecondaryMode::Inactive);
    config.on_grid_placer_changed(Some(BuildingType::EnergyRelay), c(1, 1), &almanach);
    config.on_grid_placer_changed(None, c(1, 1), &almanach);
    assert_eq!(config.secondary_mode, EnergySupplyOverlaySecondaryMode::Inactive);
    assert_eq!(config.overlay_state(), EnergySupplyOverlayState::Hide);
}

#[test]
fn overlay_is_rebuilt_on_grid_or_mode_change() {
    let mut config = EnergySupplyOverlayConfig::default();
    let mut last = EnergySupplyOverlaySecondaryMode::Inactive;
    assert!(!config.refresh_needed(0, &mut last));
    assert!(config.refresh_needed(3, &mut last));
    assert_eq!(config.grid_version, 3);
    assert!(!config.refresh_needed(3, &mut last));
    config.on_building_ui_focused(8, true);
    assert!(config.refresh_needed(3, &mut last));
    assert_eq!(last, EnergySupplyOverlaySecondaryMode::Highlight { building: 8 });
    assert!(!config.refresh_needed(3, &mut last));
}
