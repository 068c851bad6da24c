use vstd::prelude::*;

verus! {

/// What an energy relay does in its current technical state.
#[derive(Clone, Copy, Debug, PartialEq, Eq, Structural)]
pub struct EnergyRelayRoles {
    /// Spreads energy supply around it.
    pub supplies_energy: bool,
    /// Emits energy into the emissions grid.
    pub emits_energy: bool,
    /// Shows its pulsating glow.
    pub pulsates: bool,
}

/// The roles of an energy relay after its technical state changed: a relay disabled by the
/// player does nothing; one without power only passes supply on; otherwise it supplies, emits
/// and glows.
pub fn technical_state_update(disabled_by_player: bool, has_no_power: bool) -> (r: EnergyRelayRoles)
    ensures
        r == if disabled_by_player {
            EnergyRelayRoles { supplies_energy: false, emits_energy: false, pulsates: false }
        } else if has_no_power {
            EnergyRelayRoles { supplies_energy: true, emits_energy: false, pulsates: false }
        } else {
            EnergyRelayRoles { supplies_energy: true, emits_energy: true, pulsates: true }
        },
{
    if disabled_by_player {
        EnergyRelayRoles { supplies_energy: false, emits_energy: false, pulsates: false }
    } else if has_no_power {
        EnergyRelayRoles { supplies_energy: true, emits_energy: false, pulsates: false }
    } else {
        EnergyRelayRoles { supplies_energy: true, emits_energy: true, pulsates: true }
    }
}

} // verus!
