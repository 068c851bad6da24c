use vstd::prelude::*;
use crate::buildings::common_components::BuildingType;
use crate::common::Entity;
use crate::grids::common::{
    GridCoords, GridImprint, imprint_covers, imprint_in_bounds, imprint_storage_ok, imprint_writes,
};
use crate::grids::obstacles::{BelowField, Field, ObstacleGrid};
use crate::inventory::almanach::Almanach;
use crate::objectives::ObjectiveDetails;

verus! {

/// Asks for the map of the given name to be loaded.
#[derive(Clone, Debug)]
pub struct LoadMapRequest(pub String);

/// A building placed by a map.
#[derive(Clone, Copy, Debug, PartialEq, Eq, Structural)]
pub struct MapBuilding {
    pub building_type: BuildingType,
    pub coords: GridCoords,
}

/// A square quantum field placed by a map.
#[derive(Clone, Copy, Debug, PartialEq, Eq, Structural)]
pub struct MapQuantumField {
    pub coords: GridCoords,
    pub size: i32,
}

/// The content of a map file.
#[derive(Clone, Debug)]
pub struct MapFile {
    pub width: i32,
    pub height: i32,
    pub buildings: Vec<MapBuilding>,
    pub walls: Vec<GridCoords>,
    pub dark_ores: Vec<GridCoords>,
    pub quantum_fields: Vec<MapQuantumField>,
    pub objectives: Vec<ObjectiveDetails>,
}

/// An object a map places, with the entity given to it.
#[derive(Clone, Copy, Debug, PartialEq, Eq, Structural)]
pub enum MapSpawn {
    Wall { entity: Entity, coords: GridCoords },
    DarkOre { entity: Entity, coords: GridCoords },
    Building { entity: Entity, building_type: BuildingType, coords: GridCoords },
    QuantumField { entity: Entity, coords: GridCoords, grid_imprint: GridImprint },
    /// The map's objective at position `objective` among its objectives.
    Objective { entity: Entity, objective: usize },
}

/// Number of objects a map places on the grid.
pub open spec fn map_object_count(map: MapFile) -> nat {
    map.walls@.len() + map.dark_ores@.len() + map.buildings@.len() + map.quantum_fields@.len()
}

/// Number of entities a map spawns: the objects it places on the grid, then its objectives.
pub open spec fn map_spawn_count(map: MapFile) -> nat {
    map_object_count(map) + map.objectives@.len()
}

/// The imprint of a single-cell object.
pub open spec fn unit_imprint() -> GridImprint {
    GridImprint::Rectangle { width: 1, height: 1 }
}

/// The `i`-th imprint applying `map` makes: its walls, then its dark ores, its buildings and
/// its quantum fields, the `i`-th object getting entity `first_entity + i`.
pub open spec fn map_op(map: MapFile, almanach: Almanach, first_entity: Entity, i: int) -> (
    GridCoords,
    Field,
    GridImprint,
) {
    let nw = map.walls@.len() as int;
    let nd = map.dark_ores@.len() as int;
    let nb = map.buildings@.len() as int;
    let e = (first_entity + i) as Entity;
    if i < nw {
        (map.walls@[i], Field::Wall(e), unit_imprint())
    } else if i < nw + nd {
        (map.dark_ores@[i - nw], Field::DarkOre(e), unit_imprint())
    } else if i < nw + nd + nb {
        let b = map.buildings@[i - nw - nd];
        (
            b.coords,
            Field::Building(e, b.building_type, BelowField::Empty),
            almanach.imprint_of(b.building_type),
        )
    } else {
        let q = map.quantum_fields@[i - nw - nd - nb];
        (
            q.coords,
            Field::QuantumField(e),
            GridImprint::Rectangle { width: q.size, height: q.size },
        )
    }
}

/// The object the `i`-th imprint of `map_op` places.
pub open spec fn map_spawn(map: MapFile, almanach: Almanach, first_entity: Entity, i: int) -> MapSpawn {
    let nw = map.walls@.len() as int;
    let nd = map.dark_ores@.len() as int;
    let nb = map.buildings@.len() as int;
    let e = (first_entity + i) as Entity;
    if i < nw {
        MapSpawn::Wall { entity: e, coords: map.walls@[i] }
    } else if i < nw + nd {
        MapSpawn::DarkOre { entity: e, coords: map.dark_ores@[i - nw] }
    } else if i < nw + nd + nb {
        let b = map.buildings@[i - nw - nd];
        MapSpawn::Building { entity: e, building_type: b.building_type, coords: b.coords }
    } else if i < map_object_count(map) {
        let q = map.quantum_fields@[i - nw - nd - nb];
        MapSpawn::QuantumField {
            entity: e,
            coords: q.coords,
            grid_imprint: GridImprint::Rectangle { width: q.size, height: q.size },
        }
    } else {
        MapSpawn::Objective { entity: e, objective: (i - map_object_count(map)) as usize }
    }
}

/// The field of cell `c`, initially `initial`, after the first `n` imprints of `map_op`:
/// the last imprint covering it decides.
pub open spec fn cell_after_map_ops(
    map: MapFile,
    almanach: Almanach,
    first_entity: Entity,
    initial: Field,
    n: nat,
    c: GridCoords,
) -> Field
    decreases n,
{
    if n == 0 {
        initial
    } else {
        let op = map_op(map, almanach, first_entity, n - 1);
        if imprint_covers(op.2, op.0, c) {
            op.1
        } else {
            cell_after_map_ops(map, almanach, first_entity, initial, (n - 1) as nat, c)
        }
    }
}

/// The version of a grid after `n` changes.
pub open spec fn version_bumped(version: u32, n: nat) -> u32
    decreases n,
{
    if n == 0 {
        version
    } else {
        version_bumped(version, (n - 1) as nat).wrapping_add(1)
    }
}

/// The field at storage position `p`, initially `initial`, after the first `n` imprints of
/// `map_op` on a grid `width` cells wide: the last imprint writing it decides.
pub open spec fn stored_after_map_ops(
    map: MapFile,
    almanach: Almanach,
    first_entity: Entity,
    width: int,
    initial: Field,
    n: nat,
    p: int,
) -> Field
    decreases n,
{
    if n == 0 {
        initial
    } else {
        let op = map_op(map, almanach, first_entity, n - 1);
        if imprint_writes(op.2, op.0, width, p) {
            op.1
        } else {
            stored_after_map_ops(map, almanach, first_entity, width, initial, (n - 1) as nat, p)
        }
    }
}

/// A map can be applied to a grid `width` cells wide that stores `len` fields: the almanach
/// describes each of its buildings, none is a mining complex, the entities to give fit, and
/// every imprint writes stored positions only.
pub open spec fn map_applicable(
    map: MapFile,
    almanach: Almanach,
    first_entity: Entity,
    width: int,
    len: int,
) -> bool {
    &&& almanach.wf()
    &&& forall|k: int|
        0 <= k < map.buildings@.len() ==> almanach.describes(
            #[trigger] map.buildings@[k].building_type,
        ) && !(map.buildings@[k].building_type is MiningComplex)
    &&& first_entity + map_spawn_count(map) <= u64::MAX
    &&& forall|i: int|
        0 <= i < map_object_count(map) ==> imprint_storage_ok(
            #[trigger] map_op(map, almanach, first_entity, i).2,
            map_op(map, almanach, first_entity, i).0,
            width,
            len,
        )
}

/// Every imprint of the map lies inside a grid of `width` x `height` cells.
pub open spec fn map_in_bounds(
    map: MapFile,
    almanach: Almanach,
    first_entity: Entity,
    width: int,
    height: int,
) -> bool {
    forall|i: int|
        0 <= i < map_object_count(map) ==> imprint_in_bounds(
            #[trigger] map_op(map, almanach, first_entity, i).2,
            map_op(map, almanach, first_entity, i).0,
            width,
            height,
        )
}

impl MapFile {
    /// Places the map's walls, dark ores, buildings and quantum fields on the obstacle grid,
    /// in that order, giving the `i`-th object the entity `first_entity + i`, and returns the
    /// entities to spawn: those objects, then each of the map's objectives, numbered on.
    pub fn apply(&self, obstacle_grid: &mut ObstacleGrid, almanach: &Almanach, first_entity: Entity) -> (r:
        Vec<MapSpawn>)
        requires
            old(obstacle_grid).wf(),
            map_applicable(
                *self,
                *almanach,
                first_entity,
                old(obstacle_grid).width as int,
                old(obstacle_grid).grid@.len() as int,
            ),
        ensures
            final(obstacle_grid).wf(),
            final(obstacle_grid).width == old(obstacle_grid).width,
            final(obstacle_grid).height == old(obstacle_grid).height,
            final(obstacle_grid).version == version_bumped(
                old(obstacle_grid).version,
                map_object_count(*self),
            ),
            forall|p: int|
                0 <= p < old(obstacle_grid).grid@.len() ==> #[trigger] final(obstacle_grid).grid@[p]
                    == stored_after_map_ops(
                    *self,
                    *almanach,
                    first_entity,
                    old(obstacle_grid).width as int,
                    old(obstacle_grid).grid@[p],
                    map_object_count(*self),
                    p,
                ),
            map_in_bounds(
                *self,
                *almanach,
                first_entity,
                old(obstacle_grid).width as int,
                old(obstacle_grid).height as int,
            ) ==> forall|c: GridCoords|
                #[trigger] old(obstacle_grid).contains(c) ==> final(obstacle_grid).cell(c)
                    == cell_after_map_ops(
                    *self,
                    *almanach,
                    first_entity,
                    old(obstacle_grid).cell(c),
                    map_object_count(*self),
                    c,
                ),
            r@.len() == map_spawn_count(*self),
            forall|i: int|
                0 <= i < r@.len() ==> #[trigger] r@[i] == map_spawn(*self, *almanach, first_entity, i),
    {
        let ghost map = *self;
        let ghost alm = *almanach;
        let ghost total = map_object_count(map) as int;
        let ghost nw = self.walls@.len() as int;
        let ghost nd = self.dark_ores@.len() as int;
        let ghost nb = self.buildings@.len() as int;
        let mut ops: Vec<(GridCoords, Field, GridImprint)> = Vec::new();
        let mut spawns: Vec<MapSpawn> = Vec::new();
        let mut entity = first_entity;
        let mut k: usize = 0;
        while k < self.walls.len()
            invariant
                map == *self,
                first_entity + total <= u64::MAX,
                total == map_object_count(map),
                nw == self.walls@.len(),
                k <= nw,
                ops@.len() == k,
                spawns@.len() == k,
                entity == first_entity + k,
                forall|i: int| 0 <= i < k ==> #[trigger] ops@[i] == map_op(map, alm, first_entity, i),
                forall|i: int| 0 <= i < k ==> #[trigger] spawns@[i] == map_spawn(map, alm, first_entity, i),
            decreases nw - k,
        {
            let coords = self.walls[k];
            ops.push((coords, Field::Wall(entity), GridImprint::Rectangle { width: 1, height: 1 }));
            spawns.push(MapSpawn::Wall { entity, coords });
            entity = entity + 1;
            k = k + 1;
        }
        let mut k: usize = 0;
        while k < self.dark_ores.len()
            invariant
                map == *self,
                first_entity + total <= u64::MAX,
                total == map_object_count(map),
                nw == self.walls@.len(),
                nd == self.dark_ores@.len(),
                k <= nd,
                ops@.len() == nw + k,
                spawns@.len() == nw + k,
                entity == first_entity + nw + k,
                forall|i: int|
                    0 <= i < nw + k ==> #[trigger] ops@[i] == map_op(map, alm, first_entity, i),
                forall|i: int|
                    0 <= i < nw + k ==> #[trigger] spawns@[i] == map_spawn(map, alm, first_entity, i),
            decreases nd - k,
        {
            let coords = self.dark_ores[k];
            ops.push((coords, Field::DarkOre(entity), GridImprint::Rectangle { width: 1, height: 1 }));
            spawns.push(MapSpawn::DarkOre { entity, coords });
            entity = entity + 1;
            k = k + 1;
        }
        let mut k: usize = 0;
        while k < self.buildings.len()
            invariant
                map == *self,
                alm == *almanach,
                almanach.wf(),
                forall|j: int|
                    0 <= j < map.buildings@.len() ==> almanach.describes(
                        #[trigger] map.buildings@[j].building_type,
                    ),
                first_entity + total <= u64::MAX,
                total == map_object_count(map),
                nw == self.walls@.len(),
                nd == self.dark_ores@.len(),
                nb == self.buildings@.len(),
                k <= nb,
                ops@.len() == nw + nd + k,
                spawns@.len() == nw + nd + k,
                entity == first_entity + nw + nd + k,
                forall|i: int|
                    0 <= i < nw + nd + k ==> #[trigger] ops@[i] == map_op(map, alm, first_entity, i),
                forall|i: int|
                    0 <= i < nw + nd + k ==> #[trigger] spawns@[i] == map_spawn(
                        map,
                        alm,
                        first_entity,
                        i,
                    ),
            decreases nb - k,
        {
            let building = self.buildings[k];
            assert(almanach.describes(map.buildings@[k as int].building_type));
            let grid_imprint = almanach.get_building_info(building.building_type).grid_imprint;
            ops.push(
                (
                    building.coords,
                    Field::Building(entity, building.building_type, BelowField::Empty),
                    grid_imprint,
                ),
            );
            spawns.push(
                MapSpawn::Building {
                    entity,
                    building_type: building.building_type,
                    coords: building.coords,
                },
            );
            entity = entity + 1;
            k = k + 1;
        }
        let mut k: usize = 0;
        while k < self.quantum_fields.len()
            invariant
                map == *self,
                first_entity + total <= u64::MAX,
                total == map_object_count(map),
                nw == self.walls@.len(),
                nd == self.dark_ores@.len(),
                nb == self.buildings@.len(),
                k <= self.quantum_fields@.len(),
                ops@.len() == nw + nd + nb + k,
                spawns@.len() == nw + nd + nb + k,
                entity == first_entity + nw + nd + nb + k,
                forall|i: int|
                    0 <= i < nw + nd + nb + k ==> #[trigger] ops@[i] == map_op(
                        map,
                        alm,
                        first_entity,
                        i,
                    ),
                forall|i: int|
                    0 <= i < nw + nd + nb + k ==> #[trigger] spawns@[i] == map_spawn(
                        map,
                        alm,
                        first_entity,
                        i,
                    ),
            decreases self.quantum_fields@.len() - k,
        {
            let quantum_field = self.quantum_fields[k];
            let grid_imprint = GridImprint::Rectangle {
                width: quantum_field.size,
                height: quantum_field.size,
            };
            ops.push((quantum_field.coords, Field::QuantumField(entity), grid_imprint));
            spawns.push(
                MapSpawn::QuantumField { entity, coords: quantum_field.coords, grid_imprint },
            );
            entity = entity + 1;
            k = k + 1;
        }
        let mut k: usize = 0;
        while k < self.objectives.len()
            invariant
                map == *self,
                first_entity + map_spawn_count(map) <= u64::MAX,
                total == map_object_count(map),
                k <= self.objectives@.len(),
                spawns@.len() == total + k,
                entity == first_entity + total + k,
                forall|i: int|
                    0 <= i < total + k ==> #[trigger] spawns@[i] == map_spawn(
                        map,
                        alm,
                        first_entity,
                        i,
                    ),
            decreases self.objectives@.len() - k,
        {
            spawns.push(MapSpawn::Objective { entity, objective: k });
            entity = entity + 1;
            k = k + 1;
        }
        let ghost grid0 = *obstacle_grid;
        let mut i: usize = 0;
        while i < ops.len()
            invariant
                map == *self,
                alm == *almanach,
                grid0.wf(),
                map_applicable(
                    map,
                    alm,
                    first_entity,
                    grid0.width as int,
                    grid0.grid@.len() as int,
                ),
                ops@.len() == total,
                total == map_object_count(map),
                forall|j: int| 0 <= j < total ==> #[trigger] ops@[j] == map_op(map, alm, first_entity, j),
                i <= total,
                obstacle_grid.wf(),
                obstacle_grid.width == grid0.width,
                obstacle_grid.height == grid0.height,
                obstacle_grid.version == version_bumped(grid0.version, i as nat),
                forall|p: int|
                    0 <= p < grid0.grid@.len() ==> #[trigger] obstacle_grid.grid@[p]
                        == stored_after_map_ops(
                        map,
                        alm,
                        first_entity,
                        grid0.width as int,
                        grid0.grid@[p],
                        i as nat,
                        p,
                    ),
                map_in_bounds(map, alm, first_entity, grid0.width as int, grid0.height as int)
                    ==> forall|c: GridCoords|
                    #[trigger] grid0.contains(c) ==> obstacle_grid.cell(c) == cell_after_map_ops(
                        map,
                        alm,
                        first_entity,
                        grid0.cell(c),
                        i as nat,
                        c,
                    ),
            decreases total - i,
        {
            let (coords, field, grid_imprint) = ops[i];
            assert(ops@[i as int] == map_op(map, alm, first_entity, i as int));
            proof {
                let nw = map.walls@.len() as int;
                let nd = map.dark_ores@.len() as int;
                let nb = map.buildings@.len() as int;
                if nw + nd <= i < nw + nd + nb {
                    assert(!(map.buildings@[i - nw - nd].building_type is MiningComplex));
                }
            }
            let ghost before = *obstacle_grid;
            obstacle_grid.imprint(coords, field, grid_imprint);
            proof {
                assert forall|p: int| 0 <= p < grid0.grid@.len() implies #[trigger] obstacle_grid.grid@[p]
                    == stored_after_map_ops(
                    map,
                    alm,
                    first_entity,
                    grid0.width as int,
                    grid0.grid@[p],
                    (i + 1) as nat,
                    p,
                ) by {
                    assert(before.grid@[p] == stored_after_map_ops(
                        map,
                        alm,
                        first_entity,
                        grid0.width as int,
                        grid0.grid@[p],
                        i as nat,
                        p,
                    ));
                }
                if map_in_bounds(map, alm, first_entity, grid0.width as int, grid0.height as int) {
                    assert(imprint_in_bounds(
                        map_op(map, alm, first_entity, i as int).2,
                        map_op(map, alm, first_entity, i as int).0,
                        grid0.width as int,
                        grid0.height as int,
                    ));
                    assert forall|c: GridCoords| #[trigger] grid0.contains(c) implies obstacle_grid.cell(c)
                        == cell_after_map_ops(map, alm, first_entity, grid0.cell(c), (i + 1) as nat, c) by {
                        assert(before.contains(c));
                    }
                }
            }
            i = i + 1;
        }
        spawns
    }
}

} // verus!
