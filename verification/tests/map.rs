use wisp_defense::buildings::common_components::{BuildingType, TowerType};
use wisp_defense::grids::common::{GridCoords, GridImprint};
use wisp_defense::grids::obstacles::{BelowField, Field, ObstacleGrid};
use wisp_defense::inventory::almanach::{Almanach, AlmanachBuildingInfo};
use wisp_defense::map_editor::{MapInfo, map_file_from_scan, scan_map_objects};
use wisp_defense::map_loader::{LoadMapRequest, MapBuilding, MapFile, MapQuantumField, MapSpawn};
use wisp_defense::objectives::{ObjectiveDetails, ObjectiveType};

fn c(x: i32, y: i32) -> GridCoords {
    GridCoords { x, y }
}

fn almanach() -> Almanach {
    let mut almanach = Almanach::new();
    almanach.add_building_info(AlmanachBuildingInfo {
        building_type: BuildingType::MainBase,
        name: "Main Base".to_string(),
        cost: vec![],
        grid_imprint: GridImprint::Rectangle { width: 2, height: 2 },
        upgrades: vec![],
    });
    almanach.add_building_info(AlmanachBuildingInfo {
        building_type: BuildingType::Tower(TowerType::Blaster),
        name: "Blaster".to_string(),
        cost: vec![],
        grid_imprint: GridImprint::Rectangle { width: 1, height: 1 },
        upgrades: vec![],
    });
    almanach
}

fn map() -> MapFile {
    MapFile {
        width: 6,
        height: 4,
        buildings: vec![
            MapBuilding { building_type: BuildingType::MainBase, coords: c(0, 0) },
            MapBuilding { building_type: BuildingType::Tower(TowerType::Blaster), coords: c(5, 3) },
        ],
        walls: vec![c(3, 0), c(3, 1)],
        dark_ores: vec![c(5, 0)],
        quantum_fields: vec![MapQuantumField { coords: c(0, 2), size: 2 }],
        objectives: vec![],
    }
}

#[test]
fn apply_places_objects_with_consecutive_entities() {
    let map = map();
    let mut grid = ObstacleGrid::new_with_size(map.width, map.height);
    let spawns = map.apply(&mut grid, &almanach(), 100);
    assert_eq!(
        spawns,
        vec![
            MapSpawn::Wall { entity: 100, coords: c(3, 0) },
            MapSpawn::Wall { entity: 101, coords: c(3, 1) },
            MapSpawn::DarkOre { entity: 102, coords: c(5, 0) },
            MapSpawn::Building { entity: 103, building_type: BuildingType::MainBase, coords: c(0, 0) },
            MapSpawn::Building {
                entity: 104,
                building_type: BuildingType::Tower(TowerType::Blaster),
                coords: c(5, 3),
            },
            MapSpawn::QuantumField {
                entity: 105,
                coords: c(0, 2),
                grid_imprint: GridImprint::Rectangle { width: 2, height: 2 },
            },
        ]
    );
    assert_eq!(grid.version, 6);
    assert_eq!(*grid.get(c(1, 1)), Field::Building(103, BuildingType::MainBase, BelowField::Empty));
    assert_eq!(*grid.get(c(3, 1)), Field::Wall(101));
    assert_eq!(*grid.get(c(1, 3)), Field::QuantumField(105));
    assert_eq!(*grid.get(c(4, 2)), Field::Empty);
}

#[test]
fn later_objects_overwrite_earlier_ones() {
    let mut map = map();
    map.dark_ores = vec![c(3, 0)];
    let mut grid = ObstacleGrid::new_with_size(map.width, map.height);
    map.apply(&mut grid, &almanach(), 0);
    assert_eq!(*grid.get(c(3, 0)), Field::DarkOre(2));
}

#[test]
fn scan_lists_walls_and_each_entity_once() {
    let map = map();
    let mut grid = ObstacleGrid::new_with_size(map.width, map.height);
    map.apply(&mut grid, &almanach(), 100);
    let scan = scan_map_objects(&grid);
    assert_eq!(scan.walls, vec![c(3, 0), c(3, 1)]);
    assert_eq!(scan.buildings, vec![103, 104]);
    assert_eq!(scan.dark_ores, vec![102]);
    assert_eq!(scan.quantum_fields, vec![105]);
}

#[test]
fn save_after_load_gives_back_the_map() {
    let map = map();
    let mut grid = ObstacleGrid::new_with_size(map.width, map.height);
    let spawns = map.apply(&mut grid, &almanach(), 100);
    let scan = scan_map_objects(&grid);
    let saved = map_file_from_scan(map.width, map.height, &scan, &spawns);
    assert_eq!(saved.width, 6);
    assert_eq!(saved.height, 4);
    assert_eq!(saved.walls, map.walls);
    assert_eq!(saved.dark_ores, map.dark_ores);
    assert_eq!(saved.buildings, map.buildings);
    assert_eq!(saved.quantum_fields, map.quantum_fields);
    assert!(saved.objectives.is_empty());
}

#[test]
fn map_info_takes_over_the_map() {
    let mut info = MapInfo {
        grid_width: 0,
        grid_height: 0,
        name: "test_map".to_string(),
        map_file: MapFile {
            width: 0,
            height: 0,
            buildings: vec![],
            walls: vec![],
            dark_ores: vec![],
            quantum_fields: vec![],
            objectives: vec![],
        },
    };
    info.set(map());
    assert_eq!(info.bounds(), (6, 4));
    assert_eq!(info.name, "test_map");
    assert_eq!(info.map_file.walls.len(), 2);
    assert_eq!(LoadMapRequest("m".to_string()).0, "m");
}

#[test]
fn apply_spawns_the_objectives_after_the_grid_objects() {
    let mut map = map();
    map.objectives = vec![
        ObjectiveDetails::new("clear".to_string(), ObjectiveType::ClearAllQuantumFields, "game-started".to_string()),
        ObjectiveDetails::new("hunt".to_string(), ObjectiveType::KillWisps(10), "game-started".to_string()),
    ];
    let mut grid = ObstacleGrid::new_with_size(map.width, map.height);
    let spawns = map.apply(&mut grid, &almanach(), 100);
    assert_eq!(spawns.len(), 8);
    assert_eq!(spawns[6], MapSpawn::Objective { entity: 106, objective: 0 });
    assert_eq!(spawns[7], MapSpawn::Objective { entity: 107, objective: 1 });
    assert_eq!(grid.version, 6);
}
