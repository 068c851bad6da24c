use vstd::prelude::*;

verus! {

/// Marks the entity that shows the emissions heatmap.
#[derive(Clone, Copy, Debug, Default)]
pub struct EmissionsOverlay;

/// Which emissions the overlay shows, if any.
#[derive(Clone, Copy, Debug, PartialEq, Eq, Structural)]
pub enum EmissionsOverlayMode {
    Hidden,
    Energy,
}

/// The mode after the player switches the overlay: energy when hidden, hidden otherwise.
pub open spec fn toggled_mode(mode: EmissionsOverlayMode) -> EmissionsOverlayMode {
    if mode == EmissionsOverlayMode::Hidden {
        EmissionsOverlayMode::Energy
    } else {
        EmissionsOverlayMode::Hidden
    }
}

/// Switching the overlay twice brings it back to the mode it had.
pub proof fn lemma_toggle_twice(mode: EmissionsOverlayMode)
    ensures
        toggled_mode(toggled_mode(mode)) == mode,
{
}

/// Switches the overlay on (showing energy) when it is hidden, and hides it otherwise.
pub fn manage_emissions_overlay_mode_system(emissions_overlay_mode: &mut EmissionsOverlayMode)
    ensures
        *final(emissions_overlay_mode) == toggled_mode(*old(emissions_overlay_mode)),
{
    if *emissions_overlay_mode == EmissionsOverlayMode::Hidden {
        *emissions_overlay_mode = EmissionsOverlayMode::Energy;
    } else {
        *emissions_overlay_mode = EmissionsOverlayMode::Hidden;
    }
}

} // verus!
