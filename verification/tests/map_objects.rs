use wisp_defense::buildings::common_components::BuildingType;
use wisp_defense::buildings::mining_complex::{choose_ore_to_mine, mine_ore, ore_at};
use wisp_defense::grids::common::{GridCoords, GridImprint};
use wisp_defense::grids::obstacles::{BelowField, Field, ObstacleGrid};
use wisp_defense::inventory::resources::{Cost, ResourceType, Stock};
use wisp_defense::map_objects::common::ExpeditionZone;
use wisp_defense::map_objects::dark_ore::{
    BuilderDarkOre, DarkOre, DarkOreAreaScanner, DarkOreInRange, DarkOreSaveData,
    dark_ore_grid_imprint,
};
use wisp_defense::map_objects::quantum_field::{
    ArrowButton, BuilderQuantumField, GridPlacerUiForQuantumField, QuantumField,
    QuantumFieldActionButton, QuantumFieldImprintSelector, QuantumFieldLayer,
    decimal_string, default_quantum_field_layers, pay_current_layer, process_expeditions,
};
use wisp_defense::map_objects::walls::{BuilderWall, wall_grid_imprint};

fn c(x: i32, y: i32) -> GridCoords {
    GridCoords { x, y }
}

fn small_field() -> QuantumField {
    QuantumField {
        layers: vec![
            QuantumFieldLayer { value: 3000, costs: vec![Cost { resource_type: ResourceType::DarkOre, amount: 100 }] },
            QuantumFieldLayer { value: 1000, costs: vec![] },
        ],
        current_layer: 0,
        current_layer_progress: 0,
    }
}

#[test]
fn imprint_selector_limits() {
    let mut selector = QuantumFieldImprintSelector::default();
    assert_eq!(selector.get_size(), 3);
    assert_eq!(selector.get(), GridImprint::Rectangle { width: 3, height: 3 });
    assert_eq!(
        selector.decrease(),
        Err("Quantum field imprint size must be between 3 and 6".to_string())
    );
    assert_eq!(selector.get_size(), 3);
    assert_eq!(selector.set(6), Ok(()));
    assert!(selector.increase().is_err());
    assert_eq!(selector.get_size(), 6);
    assert!(selector.set(7).is_err());
    assert!(selector.set(2).is_err());
    assert_eq!(selector.decrease(), Ok(()));
    assert_eq!(selector.get_size(), 5);
}

#[test]
fn increase_then_decrease_restores_size() {
    let mut selector = QuantumFieldImprintSelector::default();
    selector.increase().unwrap();
    selector.decrease().unwrap();
    assert_eq!(selector.get_size(), 3);
}

#[test]
fn arrow_buttons() {
    let mut ui = GridPlacerUiForQuantumField::default();
    assert_eq!(ArrowButton::Decrease.text(), "<");
    assert_eq!(ArrowButton::Increase.text(), ">");
    ArrowButton::Increase.on_click(&mut ui.imprint_selector);
    assert_eq!(ui.imprint_selector.get_size(), 4);
    ArrowButton::Decrease.on_click(&mut ui.imprint_selector);
    ArrowButton::Decrease.on_click(&mut ui.imprint_selector);
    assert_eq!(ui.imprint_selector.get_size(), 3);
}

#[test]
fn quantum_field_layers() {
    let mut field = small_field();
    assert!(!field.is_solved());
    assert_eq!(field.get_progress_details(), (0, 3000));
    field.progress_layer(2500);
    assert!(!field.is_current_layer_solved());
    field.progress_layer(2500);
    assert_eq!(field.get_progress_details(), (3000, 3000));
    assert!(field.is_current_layer_solved());
    assert_eq!(field.get_current_layer_costs().len(), 1);
    field.move_to_next_layer();
    assert_eq!(field.get_progress_details(), (0, 1000));
    field.move_to_next_layer();
    assert!(field.is_solved());
    assert_eq!(field.get_progress_details(), (0, 0));
    assert!(field.get_current_layer_costs().is_empty());
    // A solved field does not change any more.
    field.progress_layer(10);
    field.move_to_next_layer();
    assert_eq!(field.current_layer, 2);
    assert_eq!(field.current_layer_progress, 0);
}

#[test]
fn expeditions_bring_research() {
    let mut field = small_field();
    let mut zone = ExpeditionZone { expeditions_arrived: 3 };
    assert!(!process_expeditions(&mut field, &mut zone));
    assert_eq!(zone.expeditions_arrived, 0);
    assert_eq!(field.current_layer_progress, 3000);
    let mut zone = ExpeditionZone { expeditions_arrived: 1 };
    assert!(!process_expeditions(&mut field, &mut zone));
    assert_eq!(field.current_layer_progress, 3000);
    field.current_layer = 2;
    let mut zone = ExpeditionZone { expeditions_arrived: 1 };
    assert!(process_expeditions(&mut field, &mut zone));
    let mut zone = ExpeditionZone::default();
    assert!(!process_expeditions(&mut field, &mut zone));
}

#[test]
fn action_button_choice() {
    let mut field = small_field();
    assert_eq!(QuantumFieldActionButton::for_quantum_field(&field, false), QuantumFieldActionButton::SendExpeditions);
    assert_eq!(QuantumFieldActionButton::for_quantum_field(&field, true), QuantumFieldActionButton::StopExpeditions);
    field.progress_layer(3000);
    assert_eq!(QuantumFieldActionButton::for_quantum_field(&field, true), QuantumFieldActionButton::PayCost);
    field.current_layer = 2;
    assert_eq!(QuantumFieldActionButton::for_quantum_field(&field, true), QuantumFieldActionButton::Hidden);
    assert_eq!(QuantumFieldActionButton::default(), QuantumFieldActionButton::Hidden);
}

#[test]
fn paying_a_layer() {
    let mut field = small_field();
    let mut stock = Stock::default();
    assert!(stock.try_remove(ResourceType::DarkOre, 5500));
    assert!(!pay_current_layer(&mut field, &mut stock));
    assert_eq!(field.current_layer, 0);
    stock.add(ResourceType::DarkOre, 100);
    assert!(pay_current_layer(&mut field, &mut stock));
    assert_eq!(field.current_layer, 1);
    assert_eq!(stock.get(ResourceType::DarkOre), 55);
}

#[test]
fn new_quantum_field_layers() {
    let layers = default_quantum_field_layers();
    assert_eq!(layers.iter().map(|l| l.value).collect::<Vec<_>>(), vec![15000, 30000, 45000]);
    assert_eq!(layers[0].costs.len(), 3);
    let builder = BuilderQuantumField::new(c(1, 2), GridImprint::Rectangle { width: 4, height: 4 });
    let field = builder.build();
    assert_eq!(field.current_layer, 0);
    assert_eq!(field.get_progress_details(), (0, 15000));
}

#[test]
fn dark_ore_records() {
    let builder = BuilderDarkOre::new(c(3, 4), 1000);
    assert_eq!(builder.dark_ore(), DarkOre { amount: 1000 });
    let saved = BuilderDarkOre::for_saving(8, c(3, 4), &DarkOre { amount: 250 });
    assert_eq!(saved.amount, 250);
    assert_eq!(saved.save_data, Some(DarkOreSaveData { entity: 8 }));
    assert!(DarkOre { amount: 0 }.is_depleted());
    assert!(!DarkOre { amount: 1 }.is_depleted());
    assert_eq!(dark_ore_grid_imprint(), GridImprint::Rectangle { width: 1, height: 1 });
    assert_eq!(wall_grid_imprint(), GridImprint::Rectangle { width: 1, height: 1 });
    assert_eq!(BuilderWall::new(c(1, 1)).entity, None);
    assert_eq!(BuilderWall::new_for_saving(c(1, 1), 4).entity, Some(4));
}

#[test]
fn scanner_finds_ore_in_range() {
    let mut grid = ObstacleGrid::new_with_size(5, 5);
    let one = GridImprint::Rectangle { width: 1, height: 1 };
    grid.imprint(c(1, 1), Field::DarkOre(10), one);
    grid.imprint(c(3, 3), Field::DarkOre(11), one);
    grid.imprint(c(4, 0), Field::DarkOre(12), one);
    grid.imprint(c(2, 1), Field::Building(13, BuildingType::MiningComplex, BelowField::DarkOre(14)), one);
    let scanner = DarkOreAreaScanner { range_imprint: GridImprint::Rectangle { width: 4, height: 4 } };
    let found = scanner.scan(&grid, c(0, 0));
    assert_eq!(found.0, vec![10, 14, 11]);
    assert!(found.has_ore());
    let nothing = scanner.scan(&grid, c(10, 10));
    assert!(!nothing.has_ore());
}

#[test]
fn scanner_follows_added_and_removed_ore() {
    let scanner = DarkOreAreaScanner { range_imprint: GridImprint::Rectangle { width: 3, height: 3 } };
    let mut in_range = DarkOreInRange::default();
    assert!(in_range.on_dark_ore_added(1, c(1, 1), &scanner, c(0, 0)));
    assert!(!in_range.on_dark_ore_added(1, c(1, 1), &scanner, c(0, 0)));
    assert!(!in_range.on_dark_ore_added(2, c(3, 3), &scanner, c(0, 0)));
    assert!(!in_range.on_dark_ore_added(3, c(2, 2), &scanner, c(0, 0)));
    assert_eq!(in_range.0, vec![1, 3]);
    assert!(!in_range.on_dark_ore_removed(4, c(2, 2), &scanner, c(0, 0)));
    assert!(!in_range.on_dark_ore_removed(1, c(1, 1), &scanner, c(0, 0)));
    assert_eq!(in_range.0, vec![3]);
    assert!(in_range.on_dark_ore_removed(3, c(2, 2), &scanner, c(0, 0)));
}

#[test]
fn mining_moves_ore_into_stock() {
    let mut stock = Stock::default();
    let mut ore = DarkOre { amount: 130 };
    mine_ore(&mut stock, &mut ore);
    assert_eq!(ore.amount, 30);
    assert_eq!(stock.get(ResourceType::DarkOre), 5655);
    mine_ore(&mut stock, &mut ore);
    assert_eq!(ore.amount, 0);
    assert_eq!(stock.get(ResourceType::DarkOre), 5685);
}

#[test]
fn mining_chooses_an_ore_in_range() {
    assert_eq!(choose_ore_to_mine(&DarkOreInRange::default()), None);
    // With a single deposit the random draw must pick it.
    assert_eq!(choose_ore_to_mine(&DarkOreInRange(vec![77])), Some(77));
    let ores = DarkOreInRange(vec![5, 6, 7]);
    for _ in 0..50 {
        let picked = choose_ore_to_mine(&ores).unwrap();
        assert!(ores.0.contains(&picked));
    }
}

#[test]
fn action_button_labels() {
    assert_eq!(QuantumFieldActionButton::Hidden.label(), None);
    assert_eq!(QuantumFieldActionButton::SendExpeditions.label(), Some("Send Expeditions"));
    assert_eq!(QuantumFieldActionButton::StopExpeditions.label(), Some("Stop Expeditions"));
    assert_eq!(QuantumFieldActionButton::PayCost.label(), Some("Pay Cost"));
}

#[test]
fn grid_placer_ui_names_the_selected_size() {
    let mut ui = GridPlacerUiForQuantumField::default();
    assert_eq!(ui.imprint_str(), "Quantum Field 3x3");
    ArrowButton::Increase.on_click(&mut ui.imprint_selector);
    ArrowButton::Increase.on_click(&mut ui.imprint_selector);
    assert_eq!(ui.imprint_str(), "Quantum Field 5x5");
    ui.imprint_selector.set(6).unwrap();
    assert_eq!(ui.imprint_str(), "Quantum Field 6x6");
}

#[test]
fn ore_at_picks_by_position() {
    let ores = DarkOreInRange(vec![5, 6, 7]);
    assert_eq!(ore_at(&ores, 0), Some(5));
    assert_eq!(ore_at(&ores, 2), Some(7));
    assert_eq!(ore_at(&ores, 3), None);
}

#[test]
fn action_button_clicks() {
    let mut field = Some(small_field());
    let mut stock = Stock::default();
    let mut marked = false;
    let mut button = QuantumFieldActionButton::SendExpeditions;
    assert!(!button.on_click(&mut marked, &mut field, &mut stock));
    assert!(marked);
    assert_eq!(button, QuantumFieldActionButton::Hidden);
    assert!(!button.on_click(&mut marked, &mut field, &mut stock));
    assert!(marked);
    let mut button = QuantumFieldActionButton::StopExpeditions;
    assert!(!button.on_click(&mut marked, &mut field, &mut stock));
    assert!(!marked);
    assert_eq!(button, QuantumFieldActionButton::Hidden);
    assert!(stock.try_remove(ResourceType::DarkOre, 5500));
    let mut button = QuantumFieldActionButton::PayCost;
    assert!(!button.on_click(&mut marked, &mut field, &mut stock));
    assert_eq!(field.as_ref().unwrap().current_layer, 0);
    assert_eq!(button, QuantumFieldActionButton::Hidden);
    stock.add(ResourceType::DarkOre, 100);
    let mut button = QuantumFieldActionButton::PayCost;
    assert!(button.on_click(&mut marked, &mut field, &mut stock));
    assert_eq!(field.as_ref().unwrap().current_layer, 1);
    assert_eq!(stock.get(ResourceType::DarkOre), 55);
    let mut nothing: Option<QuantumField> = None;
    let mut button = QuantumFieldActionButton::PayCost;
    assert!(!button.on_click(&mut marked, &mut nothing, &mut stock));
    assert_eq!(button, QuantumFieldActionButton::PayCost);
}

#[test]
fn layer_text_names_the_layer() {
    let mut field = small_field();
    assert_eq!(field.layer_text(), "Quantum Layer 1/2");
    field.current_layer = 1;
    assert_eq!(field.layer_text(), "Quantum Layer 2/2");
    field.current_layer = 2;
    assert_eq!(field.layer_text(), "All Quantum Layers Solved");
}

#[test]
fn decimal_notation() {
    assert_eq!(decimal_string(0), "0");
    assert_eq!(decimal_string(7), "7");
    assert_eq!(decimal_string(10), "10");
    assert_eq!(decimal_string(4096), "4096");
    assert_eq!(decimal_string(usize::MAX), usize::MAX.to_string());
}
