use wisp_defense::buildings::common_components::{BuildingType, TowerType};
use wisp_defense::common::{GameState, UpgradeType};
use wisp_defense::common_components::{EssencesContainer, Health};
use wisp_defense::grids::common::GridImprint;
use wisp_defense::inventory::almanach::{
    Almanach, AlmanachBuildingInfo, AlmanachUpgradeInfo, AlmanachUpgradeLevelInfo,
};
use wisp_defense::inventory::resources::{Cost, EssenceContainer, EssenceType, ResourceType, Stock};

fn dark_ore(amount: i32) -> Cost {
    Cost { resource_type: ResourceType::DarkOre, amount }
}

#[test]
fn default_stock() {
    let stock = Stock::default();
    assert_eq!(stock.get(ResourceType::DarkOre), 5555);
    for essence in EssenceType::variants() {
        assert_eq!(stock.get(ResourceType::Essence(essence)), 0);
    }
}

#[test]
fn add_is_capped_at_maximum() {
    let mut stock = Stock::default();
    stock.add(ResourceType::DarkOre, 5000);
    assert_eq!(stock.get(ResourceType::DarkOre), 9999);
    stock.add(ResourceType::Essence(EssenceType::Fire), 1500);
    assert_eq!(stock.get(ResourceType::Essence(EssenceType::Fire)), 999);
    stock.add(ResourceType::Essence(EssenceType::Water), 12);
    assert_eq!(stock.get(ResourceType::Essence(EssenceType::Water)), 12);
}

#[test]
fn try_remove_needs_enough() {
    let mut stock = Stock::default();
    assert!(!stock.try_remove(ResourceType::Essence(EssenceType::Light), 1));
    assert!(stock.try_remove(ResourceType::DarkOre, 555));
    assert_eq!(stock.get(ResourceType::DarkOre), 5000);
    assert!(stock.has(ResourceType::DarkOre, 5000));
    assert!(!stock.has(ResourceType::DarkOre, 5001));
}

#[test]
fn remove_then_add_restores() {
    let mut stock = Stock::default();
    assert!(stock.try_remove(ResourceType::DarkOre, 300));
    stock.add(ResourceType::DarkOre, 300);
    assert_eq!(stock.get(ResourceType::DarkOre), 5555);
}

#[test]
fn try_pay_costs_is_all_or_nothing() {
    let mut stock = Stock::default();
    let costs = [dark_ore(100), Cost { resource_type: ResourceType::Essence(EssenceType::Electric), amount: 1 }];
    assert!(!stock.can_cover_all(&costs));
    assert!(!stock.try_pay_costs(&costs));
    assert_eq!(stock.get(ResourceType::DarkOre), 5555);
    assert!(stock.try_pay_costs(&[dark_ore(100), dark_ore(55)]));
    assert_eq!(stock.get(ResourceType::DarkOre), 5400);
    assert!(stock.try_pay_costs(&[]));
}

#[test]
fn try_pay_costs_checks_each_cost_alone() {
    let mut stock = Stock::default();
    assert!(stock.try_remove(ResourceType::DarkOre, 5455));
    // Each cost is covered on its own; the second is skipped once the first is paid.
    assert!(stock.try_pay_costs(&[dark_ore(60), dark_ore(60)]));
    assert_eq!(stock.get(ResourceType::DarkOre), 40);
}

#[test]
fn try_pay_cost_single() {
    let mut stock = Stock::default();
    assert!(stock.can_cover(&dark_ore(5555)));
    assert!(stock.try_pay_cost(dark_ore(5555)));
    assert_eq!(stock.get(ResourceType::DarkOre), 0);
    assert!(!stock.try_pay_cost(dark_ore(1)));
}

#[test]
fn essence_types_and_containers() {
    assert_eq!(
        EssenceType::variants(),
        [EssenceType::Fire, EssenceType::Water, EssenceType::Light, EssenceType::Electric]
    );
    let r: ResourceType = EssenceType::Light.into();
    assert_eq!(r, ResourceType::Essence(EssenceType::Light));
    let container = EssenceContainer::new(EssenceType::Water, 3);
    assert_eq!(container.amount, 3);
    let all = EssencesContainer::from(container);
    assert_eq!(all.0, vec![container]);
}

#[test]
fn health_decrease_never_negative() {
    let mut health = Health::new(10);
    assert_eq!(health.get_current(), 10);
    assert_eq!(health.get_max(), 10);
    health.decrease(4);
    assert_eq!(health.get_current(), 6);
    assert!(!health.is_dead());
    health.decrease(100);
    assert_eq!(health.get_current(), 0);
    assert!(health.is_dead());
    assert_eq!(health.get_max(), 10);
    let empty = Health::default();
    assert!(empty.is_dead());
}

#[test]
fn almanach_add_get_replace() {
    let mut almanach = Almanach::new();
    almanach.add_building_info(AlmanachBuildingInfo {
        building_type: BuildingType::EnergyRelay,
        name: "Energy Relay".to_string(),
        cost: vec![dark_ore(50)],
        grid_imprint: GridImprint::Rectangle { width: 1, height: 1 },
        upgrades: vec![],
    });
    almanach.add_building_info(AlmanachBuildingInfo {
        building_type: BuildingType::Tower(TowerType::Cannon),
        name: "Cannon".to_string(),
        cost: vec![],
        grid_imprint: GridImprint::Rectangle { width: 2, height: 2 },
        upgrades: vec![],
    });
    almanach.add_building_info(AlmanachBuildingInfo {
        building_type: BuildingType::EnergyRelay,
        name: "Relay".to_string(),
        cost: vec![dark_ore(70)],
        grid_imprint: GridImprint::Rectangle { width: 1, height: 2 },
        upgrades: vec![],
    });
    let relay = almanach.get_building_info(BuildingType::EnergyRelay);
    assert_eq!(relay.name, "Relay");
    assert_eq!(relay.cost, vec![dark_ore(70)]);
    let cannon = almanach.get_building_info(BuildingType::Tower(TowerType::Cannon));
    assert_eq!(cannon.grid_imprint, GridImprint::Rectangle { width: 2, height: 2 });
}

#[test]
fn common_enums() {
    assert_eq!(GameState::default(), GameState::Running);
    assert_ne!(UpgradeType::Range, UpgradeType::Damage);
    assert!(BuildingType::MainBase.is_energy_supplier());
    assert!(BuildingType::EnergyRelay.is_energy_supplier());
    assert!(!BuildingType::Tower(TowerType::Blaster).is_energy_supplier());
}

#[test]
fn health_after_a_series_of_hits() {
    let mut health = Health::new(50);
    for amount in [7, 0, 20, 10] {
        health.decrease(amount);
        assert!(0 <= health.get_current() && health.get_current() <= health.get_max());
    }
    assert_eq!(health.get_current(), 13);
    health.decrease(40);
    assert_eq!(health.get_current(), 0);
    assert_eq!(health.get_max(), 50);
}

#[test]
fn stock_stays_within_its_maximums() {
    let all = [
        ResourceType::DarkOre,
        ResourceType::Essence(EssenceType::Fire),
        ResourceType::Essence(EssenceType::Water),
        ResourceType::Essence(EssenceType::Light),
        ResourceType::Essence(EssenceType::Electric),
    ];
    let mut stock = Stock::default();
    stock.add(ResourceType::DarkOre, 9000);
    stock.add(ResourceType::Essence(EssenceType::Fire), 2000);
    assert!(!stock.try_remove(ResourceType::Essence(EssenceType::Water), 1));
    assert!(stock.try_pay_cost(Cost { resource_type: ResourceType::Essence(EssenceType::Fire), amount: 999 }));
    assert!(stock.try_pay_costs(&[Cost { resource_type: ResourceType::DarkOre, amount: 9999 }]));
    for rt in all {
        let max = if rt == ResourceType::DarkOre { 9999 } else { 999 };
        assert!(0 <= stock.get(rt) && stock.get(rt) <= max);
    }
    assert_eq!(stock.get(ResourceType::DarkOre), 0);
    assert_eq!(stock.get(ResourceType::Essence(EssenceType::Fire)), 0);
}

#[test]
fn almanach_keeps_upgrade_costs() {
    let mut almanach = Almanach::new();
    almanach.add_building_info(AlmanachBuildingInfo {
        building_type: BuildingType::Tower(TowerType::Cannon),
        name: "Cannon".to_string(),
        cost: vec![],
        grid_imprint: GridImprint::Rectangle { width: 2, height: 2 },
        upgrades: vec![AlmanachUpgradeInfo {
            upgrade_type: UpgradeType::Range,
            levels: vec![
                AlmanachUpgradeLevelInfo { cost: vec![Cost { resource_type: ResourceType::DarkOre, amount: 50 }] },
                AlmanachUpgradeLevelInfo { cost: vec![Cost { resource_type: ResourceType::DarkOre, amount: 90 }] },
            ],
        }],
    });
    let info = almanach.get_building_info(BuildingType::Tower(TowerType::Cannon));
    assert_eq!(info.upgrades.len(), 1);
    assert_eq!(info.upgrades[0].upgrade_type, UpgradeType::Range);
    assert_eq!(info.upgrades[0].levels[1].cost[0].amount, 90);
}
