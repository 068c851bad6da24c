use vstd::prelude::*;
use crate::common::Entity;

verus! {

/// Marks the info panel of buildings.
#[derive(Clone, Copy, Debug, Default)]
pub struct BuildingInfoPanel;

/// Marks the text that shows the name of the focused building.
#[derive(Clone, Copy, Debug, Default)]
pub struct BuildingInfoPanelNameText;

/// Marks the health bar of the focused building.
#[derive(Clone, Copy, Debug, Default)]
pub struct BuildingInfoPanelHealthbar;

/// Tells that the building info panel was enabled for a building.
#[derive(Clone, Copy, Debug, PartialEq, Eq, Structural)]
pub struct BuildingInfoPanelEnabledTrigger {
    entity: Entity,
}

impl BuildingInfoPanelEnabledTrigger {
    pub closed spec fn spec_entity(&self) -> Entity {
        self.entity
    }

    pub fn new(entity: Entity) -> (r: Self)
        ensures
            r.spec_entity() == entity,
    {
        BuildingInfoPanelEnabledTrigger { entity }
    }

    /// The building the panel was enabled for.
    pub fn entity(&self) -> (r: Entity)
        ensures
            r == self.spec_entity(),
    {
        self.entity
    }
}

/// The button of the building info panel that switches the focused building off and on.
#[derive(Clone, Copy, Debug, Default)]
pub struct BuildingInfoPanelDisableButton;

impl BuildingInfoPanelDisableButton {
    /// A click switches the focused building off when it was working, and on again when the
    /// player had switched it off. Returns whether it is now off, which the button's icon
    /// shows.
    pub fn on_click(&self, disabled_by_player: &mut bool) -> (r: bool)
        ensures
            *final(disabled_by_player) == !*old(disabled_by_player),
            r == *final(disabled_by_player),
    {
        *disabled_by_player = !*disabled_by_player;
        *disabled_by_player
    }
}

} // verus!
