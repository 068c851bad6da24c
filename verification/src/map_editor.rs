use vstd::prelude::*;
use std::collections::HashSet;
use crate::common::Entity;
use crate::grids::common::GridCoords;
use crate::buildings::common_components::BuildingType;
use crate::grids::common::GridImprint;
use crate::grids::obstacles::{Field, ObstacleGrid};
use crate::map_loader::{MapBuilding, MapFile, MapQuantumField, MapSpawn};

verus! {

broadcast use vstd::std_specs::hash::group_hash_axioms;

/// Marks the entity that loads the map information of a saved game.
#[derive(Clone, Copy, Debug, Default)]
pub struct MapInfoLoader;

/// The cell stored at position `i` of a grid `width` cells wide.
pub open spec fn storage_coords(i: int, width: int) -> GridCoords {
    GridCoords { x: (i % width) as i32, y: (i / width) as i32 }
}

/// The entity of a building, dark ore or quantum field field.
pub open spec fn field_entity(f: Field) -> Option<Entity> {
    match f {
        Field::Building(e, _, _) => Some(e),
        Field::DarkOre(e) => Some(e),
        Field::QuantumField(e) => Some(e),
        _ => None,
    }
}

/// The entities of the buildings, dark ores and quantum fields among the first `n` cells.
pub open spec fn entities_before(cells: Seq<Field>, n: nat) -> Set<Entity>
    decreases n,
{
    if n == 0 {
        Set::empty()
    } else {
        let prev = entities_before(cells, (n - 1) as nat);
        match field_entity(cells[n - 1]) {
            Some(e) => prev.insert(e),
            None => prev,
        }
    }
}

/// The cell at position `i` is the first one that names its entity.
pub open spec fn first_cell_of_entity(cells: Seq<Field>, i: int) -> bool {
    match field_entity(cells[i]) {
        Some(e) => !entities_before(cells, i as nat).contains(e),
        None => false,
    }
}

/// The wall cells among the first `n` cells, in storage order.
pub open spec fn scanned_walls(cells: Seq<Field>, width: int, n: nat) -> Seq<GridCoords>
    decreases n,
{
    if n == 0 {
        Seq::empty()
    } else {
        let prev = scanned_walls(cells, width, (n - 1) as nat);
        if cells[n - 1] is Wall {
            prev.push(storage_coords(n - 1, width))
        } else {
            prev
        }
    }
}

/// The dark ore entities among the first `n` cells, each at the first cell naming it.
pub open spec fn scanned_dark_ores(cells: Seq<Field>, n: nat) -> Seq<Entity>
    decreases n,
{
    if n == 0 {
        Seq::empty()
    } else {
        let prev = scanned_dark_ores(cells, (n - 1) as nat);
        match cells[n - 1] {
            Field::DarkOre(e) => if first_cell_of_entity(cells, n - 1) {
                prev.push(e)
            } else {
                prev
            },
            _ => prev,
        }
    }
}

/// The building entities among the first `n` cells, each at the first cell naming it.
pub open spec fn scanned_buildings(cells: Seq<Field>, n: nat) -> Seq<Entity>
    decreases n,
{
    if n == 0 {
        Seq::empty()
    } else {
        let prev = scanned_buildings(cells, (n - 1) as nat);
        match cells[n - 1] {
            Field::Building(e, _, _) => if first_cell_of_entity(cells, n - 1) {
                prev.push(e)
            } else {
                prev
            },
            _ => prev,
        }
    }
}

/// The quantum field entities among the first `n` cells, each at the first cell naming it.
pub open spec fn scanned_quantum_fields(cells: Seq<Field>, n: nat) -> Seq<Entity>
    decreases n,
{
    if n == 0 {
        Seq::empty()
    } else {
        let prev = scanned_quantum_fields(cells, (n - 1) as nat);
        match cells[n - 1] {
            Field::QuantumField(e) => if first_cell_of_entity(cells, n - 1) {
                prev.push(e)
            } else {
                prev
            },
            _ => prev,
        }
    }
}

/// No building of the grid stands on anything.
pub open spec fn no_below_fields(cells: Seq<Field>) -> bool {
    forall|i: int|
        0 <= i < cells.len() ==> match #[trigger] cells[i] {
            Field::Building(_, _, below) => below is Empty,
            _ => true,
        }
}

/// The map objects found on an obstacle grid, to be written into a map file.
#[derive(Clone, Debug)]
pub struct MapGridScan {
    /// Every wall cell.
    pub walls: Vec<GridCoords>,
    /// Every dark ore entity, once.
    pub dark_ores: Vec<Entity>,
    /// Every building entity, once.
    pub buildings: Vec<Entity>,
    /// Every quantum field entity, once.
    pub quantum_fields: Vec<Entity>,
}

/// Walks the grid row by row, collecting the wall cells and, at the first cell naming it, each
/// dark ore, building and quantum field entity. An entity is collected once even when it is
/// named by fields of several kinds. Buildings standing on something are not supported.
pub fn scan_map_objects(grid: &ObstacleGrid) -> (r: MapGridScan)
    requires
        grid.wf(),
        no_below_fields(grid.grid@),
    ensures
        r.walls@ == scanned_walls(grid.grid@, grid.width as int, grid.grid@.len()),
        r.dark_ores@ == scanned_dark_ores(grid.grid@, grid.grid@.len()),
        r.buildings@ == scanned_buildings(grid.grid@, grid.grid@.len()),
        r.quantum_fields@ == scanned_quantum_fields(grid.grid@, grid.grid@.len()),
{
    let ghost cells = grid.grid@;
    let ghost width = grid.width as int;
    let mut processed_entities: HashSet<Entity> = HashSet::new();
    let mut walls: Vec<GridCoords> = Vec::new();
    let mut dark_ores: Vec<Entity> = Vec::new();
    let mut buildings: Vec<Entity> = Vec::new();
    let mut quantum_fields: Vec<Entity> = Vec::new();
    let mut y: i32 = 0;
    while y < grid.height
        invariant
            grid.wf(),
            cells == grid.grid@,
            width == grid.width,
            no_below_fields(cells),
            0 <= y <= grid.height,
            processed_entities@ == entities_before(cells, (y * width) as nat),
            walls@ == scanned_walls(cells, width, (y * width) as nat),
            dark_ores@ == scanned_dark_ores(cells, (y * width) as nat),
            buildings@ == scanned_buildings(cells, (y * width) as nat),
            quantum_fields@ == scanned_quantum_fields(cells, (y * width) as nat),
        decreases grid.height - y,
    {
        let mut x: i32 = 0;
        while x < grid.width
            invariant
                grid.wf(),
                cells == grid.grid@,
                width == grid.width,
                no_below_fields(cells),
                0 <= y < grid.height,
                0 <= x <= grid.width,
                processed_entities@ == entities_before(cells, (y * width + x) as nat),
                walls@ == scanned_walls(cells, width, (y * width + x) as nat),
                dark_ores@ == scanned_dark_ores(cells, (y * width + x) as nat),
                buildings@ == scanned_buildings(cells, (y * width + x) as nat),
                quantum_fields@ == scanned_quantum_fields(cells, (y * width + x) as nat),
            decreases grid.width - x,
        {
            let coords = GridCoords { x, y };
            let i = grid.index(coords);
            let ghost n = (y * width + x) as nat;
            assert(i == n);
            proof {
                vstd::arithmetic::div_mod::lemma_fundamental_div_mod_converse(
                    i as int,
                    width,
                    y as int,
                    x as int,
                );
                assert(storage_coords(i as int, width) == coords);
            }
            match grid.get(coords) {
                Field::Wall(_) => {
                    walls.push(coords);
                },
                Field::DarkOre(entity) => {
                    if processed_entities.insert(*entity) {
                        dark_ores.push(*entity);
                    }
                },
                Field::Building(entity, _, below_field) => {
                    assert(below_field is Empty);
                    if processed_entities.insert(*entity) {
                        buildings.push(*entity);
                    }
                },
                Field::QuantumField(entity) => {
                    if processed_entities.insert(*entity) {
                        quantum_fields.push(*entity);
                    }
                },
                Field::Empty => {},
            }
            assert((n + 1) as nat == (y * width + (x + 1)) as nat);
            x = x + 1;
        }
        assert((y * width + width) == (y + 1) * width) by (nonlinear_arith);
        y = y + 1;
    }
    assert(grid.height * width == width * grid.height) by (nonlinear_arith);
    MapGridScan { walls, dark_ores, buildings, quantum_fields }
}

/// The cell of the first dark ore among `objects` with entity `e`.
pub open spec fn find_dark_ore(objects: Seq<MapSpawn>, e: Entity) -> Option<GridCoords>
    decreases objects.len(),
{
    if objects.len() == 0 {
        None
    } else {
        match objects[0] {
            MapSpawn::DarkOre { entity, coords } => if entity == e {
                Some(coords)
            } else {
                find_dark_ore(objects.drop_first(), e)
            },
            _ => find_dark_ore(objects.drop_first(), e),
        }
    }
}

/// The type and cell of the first building among `objects` with entity `e`.
pub open spec fn find_building(objects: Seq<MapSpawn>, e: Entity) -> Option<(BuildingType, GridCoords)>
    decreases objects.len(),
{
    if objects.len() == 0 {
        None
    } else {
        match objects[0] {
            MapSpawn::Building { entity, building_type, coords } => if entity == e {
                Some((building_type, coords))
            } else {
                find_building(objects.drop_first(), e)
            },
            _ => find_building(objects.drop_first(), e),
        }
    }
}

/// The cell and imprint of the first quantum field among `objects` with entity `e`.
pub open spec fn find_quantum_field(objects: Seq<MapSpawn>, e: Entity) -> Option<(GridCoords, GridImprint)>
    decreases objects.len(),
{
    if objects.len() == 0 {
        None
    } else {
        match objects[0] {
            MapSpawn::QuantumField { entity, coords, grid_imprint } => if entity == e {
                Some((coords, grid_imprint))
            } else {
                find_quantum_field(objects.drop_first(), e)
            },
            _ => find_quantum_field(objects.drop_first(), e),
        }
    }
}

fn lookup_dark_ore(objects: &Vec<MapSpawn>, e: Entity) -> (r: Option<GridCoords>)
    ensures
        r == find_dark_ore(objects@, e),
{
    let mut i: usize = 0;
    assert(objects@.subrange(0, objects@.len() as int) =~= objects@);
    while i < objects.len()
        invariant
            i <= objects@.len(),
            find_dark_ore(objects@, e) == find_dark_ore(objects@.subrange(i as int, objects@.len() as int), e),
        decreases objects@.len() - i,
    {
        proof {
            let rest = objects@.subrange(i as int, objects@.len() as int);
            assert(rest.drop_first() =~= objects@.subrange(i + 1, objects@.len() as int));
            assert(rest[0] == objects@[i as int]);
        }
        match objects[i] {
            MapSpawn::DarkOre { entity, coords } => {
                if entity == e {
                    return Some(coords);
                }
            },
            _ => {},
        }
        i = i + 1;
    }
    assert(objects@.subrange(i as int, objects@.len() as int).len() == 0);
    None
}

fn lookup_building(objects: &Vec<MapSpawn>, e: Entity) -> (r: Option<(BuildingType, GridCoords)>)
    ensures
        r == find_building(objects@, e),
{
    let mut i: usize = 0;
    assert(objects@.subrange(0, objects@.len() as int) =~= objects@);
    while i < objects.len()
        invariant
            i <= objects@.len(),
            find_building(objects@, e) == find_building(objects@.subrange(i as int, objects@.len() as int), e),
        decreases objects@.len() - i,
    {
        proof {
            let rest = objects@.subrange(i as int, objects@.len() as int);
            assert(rest.drop_first() =~= objects@.subrange(i + 1, objects@.len() as int));
            assert(rest[0] == objects@[i as int]);
        }
        match objects[i] {
            MapSpawn::Building { entity, building_type, coords } => {
                if entity == e {
                    return Some((building_type, coords));
                }
            },
            _ => {},
        }
        i = i + 1;
    }
    assert(objects@.subrange(i as int, objects@.len() as int).len() == 0);
    None
}

fn lookup_quantum_field(objects: &Vec<MapSpawn>, e: Entity) -> (r: Option<(GridCoords, GridImprint)>)
    ensures
        r == find_quantum_field(objects@, e),
{
    let mut i: usize = 0;
    assert(objects@.subrange(0, objects@.len() as int) =~= objects@);
    while i < objects.len()
        invariant
            i <= objects@.len(),
            find_quantum_field(objects@, e) == find_quantum_field(
                objects@.subrange(i as int, objects@.len() as int),
                e,
            ),
        decreases objects@.len() - i,
    {
        proof {
            let rest = objects@.subrange(i as int, objects@.len() as int);
            assert(rest.drop_first() =~= objects@.subrange(i + 1, objects@.len() as int));
            assert(rest[0] == objects@[i as int]);
        }
        match objects[i] {
            MapSpawn::QuantumField { entity, coords, grid_imprint } => {
                if entity == e {
                    return Some((coords, grid_imprint));
                }
            },
            _ => {},
        }
        i = i + 1;
    }
    assert(objects@.subrange(i as int, objects@.len() as int).len() == 0);
    None
}

/// The side a saved quantum field keeps: the width of its imprint.
pub open spec fn saved_size(grid_imprint: GridImprint) -> i32 {
    match grid_imprint {
        GridImprint::Rectangle { width, .. } => width,
    }
}

/// Every entity the scan found is among `objects` with the matching kind.
pub open spec fn scan_resolvable(scan: MapGridScan, objects: Seq<MapSpawn>) -> bool {
    &&& forall|k: int| 0 <= k < scan.dark_ores@.len() ==> find_dark_ore(objects, #[trigger] scan.dark_ores@[k]) is Some
    &&& forall|k: int| 0 <= k < scan.buildings@.len() ==> find_building(objects, #[trigger] scan.buildings@[k]) is Some
    &&& forall|k: int|
        0 <= k < scan.quantum_fields@.len() ==> find_quantum_field(objects, #[trigger] scan.quantum_fields@[k])
            is Some
}

/// The map file written for a scanned grid: its walls as scanned, and the dark ores,
/// buildings and quantum fields found, each described by the object with its entity.
/// The objectives are not written.
pub fn map_file_from_scan(width: i32, height: i32, scan: &MapGridScan, objects: &Vec<MapSpawn>) -> (r:
    MapFile)
    requires
        scan_resolvable(*scan, objects@),
    ensures
        r.width == width,
        r.height == height,
        r.walls@ == scan.walls@,
        r.objectives@.len() == 0,
        r.dark_ores@.len() == scan.dark_ores@.len(),
        forall|k: int|
            0 <= k < r.dark_ores@.len() ==> Some(#[trigger] r.dark_ores@[k]) == find_dark_ore(
                objects@,
                scan.dark_ores@[k],
            ),
        r.buildings@.len() == scan.buildings@.len(),
        forall|k: int|
            0 <= k < r.buildings@.len() ==> Some(
                (#[trigger] r.buildings@[k].building_type, r.buildings@[k].coords),
            ) == find_building(objects@, scan.buildings@[k]),
        r.quantum_fields@.len() == scan.quantum_fields@.len(),
        forall|k: int|
            0 <= k < r.quantum_fields@.len() ==> (find_quantum_field(objects@, scan.quantum_fields@[k])
                matches Some((coords, grid_imprint)) && #[trigger] r.quantum_fields@[k] == (MapQuantumField {
                coords,
                size: saved_size(grid_imprint),
            })),
{
    let mut walls: Vec<GridCoords> = Vec::new();
    let mut k: usize = 0;
    while k < scan.walls.len()
        invariant
            k <= scan.walls@.len(),
            walls@ == scan.walls@.subrange(0, k as int),
        decreases scan.walls@.len() - k,
    {
        walls.push(scan.walls[k]);
        assert(scan.walls@.subrange(0, k + 1) =~= scan.walls@.subrange(0, k as int).push(scan.walls@[k as int]));
        k = k + 1;
    }
    assert(scan.walls@.subrange(0, scan.walls@.len() as int) =~= scan.walls@);
    let mut dark_ores: Vec<GridCoords> = Vec::new();
    let mut k: usize = 0;
    while k < scan.dark_ores.len()
        invariant
            scan_resolvable(*scan, objects@),
            k <= scan.dark_ores@.len(),
            dark_ores@.len() == k,
            forall|j: int|
                0 <= j < k ==> Some(#[trigger] dark_ores@[j]) == find_dark_ore(objects@, scan.dark_ores@[j]),
        decreases scan.dark_ores@.len() - k,
    {
        let e = scan.dark_ores[k];
        assert(find_dark_ore(objects@, scan.dark_ores@[k as int]) is Some);
        let coords = lookup_dark_ore(objects, e).unwrap();
        dark_ores.push(coords);
        k = k + 1;
    }
    let mut buildings: Vec<MapBuilding> = Vec::new();
    let mut k: usize = 0;
    while k < scan.buildings.len()
        invariant
            scan_resolvable(*scan, objects@),
            k <= scan.buildings@.len(),
            buildings@.len() == k,
            forall|j: int|
                0 <= j < k ==> Some(
                    (#[trigger] buildings@[j].building_type, buildings@[j].coords),
                ) == find_building(objects@, scan.buildings@[j]),
        decreases scan.buildings@.len() - k,
    {
        let e = scan.buildings[k];
        assert(find_building(objects@, scan.buildings@[k as int]) is Some);
        let (building_type, coords) = lookup_building(objects, e).unwrap();
        buildings.push(MapBuilding { building_type, coords });
        k = k + 1;
    }
    let mut quantum_fields: Vec<MapQuantumField> = Vec::new();
    let mut k: usize = 0;
    while k < scan.quantum_fields.len()
        invariant
            scan_resolvable(*scan, objects@),
            k <= scan.quantum_fields@.len(),
            quantum_fields@.len() == k,
            forall|j: int|
                0 <= j < k ==> (find_quantum_field(objects@, scan.quantum_fields@[j]) matches Some((coords, grid_imprint))
                    && #[trigger] quantum_fields@[j] == (MapQuantumField {
                    coords,
                    size: saved_size(grid_imprint),
                })),
        decreases scan.quantum_fields@.len() - k,
    {
        let e = scan.quantum_fields[k];
        assert(find_quantum_field(objects@, scan.quantum_fields@[k as int]) is Some);
        let (coords, grid_imprint) = lookup_quantum_field(objects, e).unwrap();
        let GridImprint::Rectangle { width: size, .. } = grid_imprint;
        quantum_fields.push(MapQuantumField { coords, size });
        k = k + 1;
    }
    MapFile { width, height, buildings, walls, dark_ores, quantum_fields, objectives: Vec::new() }
}

/// The map being played: its grid size, its name and the file it was loaded from. (Its size in
/// world units is fractional and derived beside the library.)
pub struct MapInfo {
    pub grid_width: i32,
    pub grid_height: i32,
    pub name: String,
    pub map_file: MapFile,
}

impl MapInfo {
    /// Takes over the size and content of a loaded map file.
    pub fn set(&mut self, map_file: MapFile)
        ensures
            final(self).grid_width == map_file.width,
            final(self).grid_height == map_file.height,
            final(self).map_file == map_file,
            final(self).name == old(self).name,
    {
        self.grid_width = map_file.width;
        self.grid_height = map_file.height;
        self.map_file = map_file;
    }

    pub fn bounds(&self) -> (r: (i32, i32))
        ensures
            r == (self.grid_width, self.grid_height),
    {
        (self.grid_width, self.grid_height)
    }
}

} // verus!
