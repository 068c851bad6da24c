use vstd::prelude::*;

verus! {

/// Identifier of a game entity, held as the bits of the engine's entity handle.
pub type Entity = u64;

/// Whether the simulation runs or is paused.
#[derive(Clone, Copy, Debug, PartialEq, Eq, Structural)]
pub enum GameState {
    Running,
    Paused,
}

impl Default for GameState {
    /// A freshly started game runs.
    fn default() -> (r: Self)
        ensures
            r == GameState::Running,
    {
        GameState::Running
    }
}

/// The properties of a tower that can be upgraded.
#[derive(Clone, Copy, Debug, PartialEq, Eq, Structural)]
pub enum UpgradeType {
    AttackSpeed,
    Range,
    Damage,
    Health,
}

} // verus!
