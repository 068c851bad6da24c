use vstd::prelude::*;
use crate::buildings::common_components::{BuildingType, TowerWispTarget};
use crate::common::Entity;
use crate::grids::base::GridVersion;
use crate::grids::common::{GridCoords, GridImprint, imprint_fits_i32, imprint_in_bounds, manhattan};
use crate::grids::obstacles::{ObstacleGrid, building_placeable};
use crate::inventory::almanach::Almanach;
use crate::inventory::resources::{Stock, covers_each, remove_costs, removals_fit_i32};

verus! {

/// A building of `building_type` may be placed on `grid_imprint` at `coords`: the imprint lies
/// inside the grid, the grid allows the building there, and no other placement reserved it.
pub open spec fn placement_valid(
    obstacle_grid: ObstacleGrid,
    coords: GridCoords,
    building_type: BuildingType,
    grid_imprint: GridImprint,
    any_reserved: bool,
) -> bool {
    &&& imprint_in_bounds(
        grid_imprint,
        coords,
        obstacle_grid.width as int,
        obstacle_grid.height as int,
    )
    &&& building_placeable(obstacle_grid, coords, building_type, grid_imprint)
    &&& !any_reserved
}

/// A click that places a building: when the placement is valid and the stock covers each of
/// the building's costs, the costs are paid and the building may be created. Returns whether
/// it may.
pub fn try_place_building(
    obstacle_grid: &ObstacleGrid,
    almanach: &Almanach,
    stock: &mut Stock,
    coords: GridCoords,
    building_type: BuildingType,
    grid_imprint: GridImprint,
    any_reserved: bool,
) -> (r: bool)
    requires
        obstacle_grid.wf(),
        imprint_fits_i32(grid_imprint, coords),
        almanach.wf(),
        almanach.describes(building_type),
        covers_each(old(stock).amounts(), almanach.info_of(building_type).cost@) ==> removals_fit_i32(
            old(stock).amounts(),
            almanach.info_of(building_type).cost@,
        ),
    ensures
        final(stock).maximums() == old(stock).maximums(),
        r == (placement_valid(*obstacle_grid, coords, building_type, grid_imprint, any_reserved)
            && covers_each(old(stock).amounts(), almanach.info_of(building_type).cost@)),
        r ==> final(stock).amounts() == remove_costs(
            old(stock).amounts(),
            almanach.info_of(building_type).cost@,
        ),
        !r ==> final(stock).amounts() == old(stock).amounts(),
{
    if !coords.is_imprint_in_bounds(&grid_imprint, obstacle_grid.bounds())
        || !obstacle_grid.query_building_placement(coords, building_type, grid_imprint)
        || any_reserved {
        return false;
    }
    let building_costs = &almanach.get_building_info(building_type).cost;
    stock.try_pay_costs(building_costs.as_slice())
}

/// A tower keeps its target while it aims at a wisp that still exists within its range (by
/// Manhattan distance), or while it found no target and the wisps have not moved since.
pub fn keeps_target(
    target: &TowerWispTarget,
    tower_coords: GridCoords,
    target_wisp_coords: Option<GridCoords>,
    range: usize,
    wisps_grid_version: GridVersion,
) -> (r: bool)
    ensures
        r == match *target {
            TowerWispTarget::Wisp(_) => match target_wisp_coords {
                Some(wisp_coords) => manhattan(tower_coords, wisp_coords) <= range as i32,
                None => false,
            },
            TowerWispTarget::NoValidTargets(version) => version == wisps_grid_version,
            TowerWispTarget::SearchForNewTarget => false,
        },
{
    match target {
        TowerWispTarget::Wisp(_) => match target_wisp_coords {
            Some(wisp_coords) => tower_coords.manhattan_distance(&wisp_coords) <= range as i32 as i64,
            None => false,
        },
        TowerWispTarget::NoValidTargets(version) => *version == wisps_grid_version,
        TowerWispTarget::SearchForNewTarget => false,
    }
}

/// The target of a tower after a search: the wisp found, or no valid target for the current
/// version of the wisps grid.
pub fn target_after_search(found_wisp: Option<Entity>, wisps_grid_version: GridVersion) -> (r:
    TowerWispTarget)
    ensures
        r == match found_wisp {
            Some(wisp) => TowerWispTarget::Wisp(wisp),
            None => TowerWispTarget::NoValidTargets(wisps_grid_version),
        },
{
    match found_wisp {
        Some(wisp) => TowerWispTarget::Wisp(wisp),
        None => TowerWispTarget::NoValidTargets(wisps_grid_version),
    }
}

} // verus!
