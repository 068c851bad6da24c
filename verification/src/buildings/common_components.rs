use vstd::prelude::*;
use crate::common::Entity;
use crate::grids::base::GridVersion;

verus! {

/// Marks an entity as a building.
#[derive(Clone, Copy, Debug, Default)]
pub struct Building;

/// The kinds of towers.
#[derive(Clone, Copy, Debug, PartialEq, Eq, Structural, Hash)]
pub enum TowerType {
    Blaster,
    Cannon,
    RocketLauncher,
    Emitter,
}

/// The kinds of buildings.
#[derive(Clone, Copy, Debug, PartialEq, Eq, Structural, Hash)]
pub enum BuildingType {
    EnergyRelay,
    MainBase,
    Tower(TowerType),
    MiningComplex,
    ExplorationCenter,
}

impl BuildingType {
    pub open spec fn spec_is_energy_supplier(&self) -> bool {
        *self is MainBase || *self is EnergyRelay
    }

    /// Main bases and energy relays supply energy to their surroundings.
    pub fn is_energy_supplier(&self) -> (r: bool)
        ensures
            r == self.spec_is_energy_supplier(),
    {
        match self {
            BuildingType::MainBase | BuildingType::EnergyRelay => true,
            _ => false,
        }
    }
}

/// What a building needs in order to work.
#[derive(Clone, Copy, Debug)]
pub struct TechnicalState {
    pub has_energy_supply: bool,
    /// `None` for buildings that need no ore.
    pub has_ore_fields: Option<bool>,
}

impl TechnicalState {
    pub open spec fn spec_is_operational(&self) -> bool {
        self.has_energy_supply && match self.has_ore_fields {
            Some(b) => b,
            None => true,
        }
    }

    /// A building works when it has energy supply and, if it needs ore, ore in range.
    pub fn is_operational(&self) -> (r: bool)
        ensures
            r == self.spec_is_operational(),
    {
        self.has_energy_supply && match self.has_ore_fields {
            Some(b) => b,
            None => true,
        }
    }
}

impl Default for TechnicalState {
    fn default() -> (r: Self)
        ensures
            !r.has_energy_supply,
            r.has_ore_fields is None,
    {
        TechnicalState { has_energy_supply: false, has_ore_fields: None }
    }
}

/// Marks a building as a tower.
#[derive(Clone, Copy, Debug, Default)]
pub struct MarkerTower;

/// Marks the rotating top part of a tower; holds the tower building it belongs to.
#[derive(Clone, Copy, Debug, PartialEq, Eq, Structural)]
pub struct MarkerTowerRotationalTop(pub Entity);

/// What a tower is aiming at.
#[derive(Clone, Copy, Debug, PartialEq, Eq, Structural)]
pub enum TowerWispTarget {
    SearchForNewTarget,
    Wisp(Entity),
    /// No wisp was in range when the wisps grid had this version.
    NoValidTargets(GridVersion),
}

impl Default for TowerWispTarget {
    fn default() -> (r: Self)
        ensures
            r == TowerWispTarget::SearchForNewTarget,
    {
        TowerWispTarget::SearchForNewTarget
    }
}

/// Attack range of a tower, in cells.
#[derive(Clone, Copy, Debug, PartialEq, Eq, Structural)]
pub struct TowerRange(pub usize);

} // verus!
