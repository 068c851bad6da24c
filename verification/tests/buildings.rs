use wisp_defense::buildings::common::BuildingDestroyedEvent;
use wisp_defense::buildings::energy_relay::{EnergyRelayRoles, technical_state_update};
use wisp_defense::buildings::common_components::{BuildingType, TechnicalState, TowerType, TowerWispTarget};
use wisp_defense::buildings::common_systems::{keeps_target, target_after_search, try_place_building};
use wisp_defense::buildings::info_panel::{BuildingInfoPanelDisableButton, BuildingInfoPanelEnabledTrigger};
use wisp_defense::buildings::tower_emitter::shooting_system;
use wisp_defense::editor::{EditorState, EditorTab};
use wisp_defense::effects::common::{AnimationController, animate_sprite_system};
use wisp_defense::grids::common::{GridCoords, GridImprint};
use wisp_defense::grids::obstacles::{Field, ObstacleGrid};
use wisp_defense::inventory::almanach::{Almanach, AlmanachBuildingInfo};
use wisp_defense::inventory::resources::{Cost, ResourceType, Stock};

fn c(x: i32, y: i32) -> GridCoords {
    GridCoords { x, y }
}

#[test]
fn emitter_fires_only_at_existing_target_when_ready() {
    let mut target = TowerWispTarget::Wisp(4);
    assert!(!shooting_system(&mut target, false, true));
    assert!(shooting_system(&mut target, true, true));
    assert_eq!(target, TowerWispTarget::Wisp(4));
    assert!(!shooting_system(&mut target, true, false));
    assert_eq!(target, TowerWispTarget::SearchForNewTarget);
    let mut none = TowerWispTarget::NoValidTargets(3);
    assert!(!shooting_system(&mut none, true, true));
    assert_eq!(none, TowerWispTarget::NoValidTargets(3));
}

#[test]
fn targeting_keeps_or_searches() {
    let tower = c(0, 0);
    assert!(keeps_target(&TowerWispTarget::Wisp(1), tower, Some(c(2, 1)), 3, 0));
    assert!(!keeps_target(&TowerWispTarget::Wisp(1), tower, Some(c(2, 2)), 3, 0));
    assert!(!keeps_target(&TowerWispTarget::Wisp(1), tower, None, 3, 0));
    assert!(keeps_target(&TowerWispTarget::NoValidTargets(5), tower, None, 3, 5));
    assert!(!keeps_target(&TowerWispTarget::NoValidTargets(5), tower, None, 3, 6));
    assert!(!keeps_target(&TowerWispTarget::SearchForNewTarget, tower, None, 3, 6));
    assert_eq!(target_after_search(Some(9), 2), TowerWispTarget::Wisp(9));
    assert_eq!(target_after_search(None, 2), TowerWispTarget::NoValidTargets(2));
    assert_eq!(TowerWispTarget::default(), TowerWispTarget::SearchForNewTarget);
}

#[test]
fn placing_a_building_checks_and_pays() {
    let mut almanach = Almanach::new();
    almanach.add_building_info(AlmanachBuildingInfo {
        building_type: BuildingType::Tower(TowerType::Cannon),
        name: "Cannon".to_string(),
        cost: vec![Cost { resource_type: ResourceType::DarkOre, amount: 5000 }],
        grid_imprint: GridImprint::Rectangle { width: 2, height: 2 },
        upgrades: vec![],
    });
    let mut grid = ObstacleGrid::new_with_size(4, 4);
    grid.imprint(c(3, 3), Field::Wall(1), GridImprint::Rectangle { width: 1, height: 1 });
    let imprint = GridImprint::Rectangle { width: 2, height: 2 };
    let cannon = BuildingType::Tower(TowerType::Cannon);
    let mut stock = Stock::default();
    assert!(!try_place_building(&grid, &almanach, &mut stock, c(3, 0), cannon, imprint, false));
    assert!(!try_place_building(&grid, &almanach, &mut stock, c(2, 2), cannon, imprint, false));
    assert!(!try_place_building(&grid, &almanach, &mut stock, c(0, 0), cannon, imprint, true));
    assert_eq!(stock.get(ResourceType::DarkOre), 5555);
    assert!(try_place_building(&grid, &almanach, &mut stock, c(0, 0), cannon, imprint, false));
    assert_eq!(stock.get(ResourceType::DarkOre), 555);
    assert!(!try_place_building(&grid, &almanach, &mut stock, c(0, 0), cannon, imprint, false));
    assert_eq!(stock.get(ResourceType::DarkOre), 555);
}

#[test]
fn animation_steps_through_frames() {
    let mut controller = AnimationController::new(2, 4, false);
    let mut frame = 2;
    animate_sprite_system(&mut controller, &mut frame, false);
    assert_eq!(frame, 2);
    animate_sprite_system(&mut controller, &mut frame, true);
    animate_sprite_system(&mut controller, &mut frame, true);
    assert_eq!(frame, 4);
    assert!(!controller.has_finished);
    animate_sprite_system(&mut controller, &mut frame, true);
    assert_eq!(frame, 4);
    assert!(controller.has_finished);
    let mut looping = AnimationController::new(0, 1, true);
    let mut frame = 1;
    animate_sprite_system(&mut looping, &mut frame, true);
    assert_eq!(frame, 0);
    assert!(!looping.has_finished);
}

#[test]
fn technical_state_and_small_records() {
    assert!(!TechnicalState::default().is_operational());
    assert!(TechnicalState { has_energy_supply: true, has_ore_fields: None }.is_operational());
    assert!(!TechnicalState { has_energy_supply: true, has_ore_fields: Some(false) }.is_operational());
    assert_eq!(BuildingInfoPanelEnabledTrigger::new(6).entity(), 6);
    assert_eq!(BuildingDestroyedEvent(3).0, 3);
    assert_eq!(EditorState::default().active_tab, EditorTab::General);
    assert_eq!(EditorState::default().selected_summoning, None);
    assert_eq!(EditorTab::all().map(|t| t.as_ref()), ["General", "Summonings"]);
}

#[test]
fn energy_relay_roles() {
    let none = EnergyRelayRoles { supplies_energy: false, emits_energy: false, pulsates: false };
    assert_eq!(technical_state_update(true, false), none);
    assert_eq!(technical_state_update(true, true), none);
    assert_eq!(
        technical_state_update(false, true),
        EnergyRelayRoles { supplies_energy: true, emits_energy: false, pulsates: false }
    );
    assert_eq!(
        technical_state_update(false, false),
        EnergyRelayRoles { supplies_energy: true, emits_energy: true, pulsates: true }
    );
}

#[test]
fn disable_button_toggles() {
    let mut disabled = false;
    assert!(BuildingInfoPanelDisableButton.on_click(&mut disabled));
    assert!(disabled);
    assert!(!BuildingInfoPanelDisableButton.on_click(&mut disabled));
    assert!(!disabled);
}
