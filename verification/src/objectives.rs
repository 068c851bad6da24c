use vstd::prelude::*;
use crate::common::Entity;
use crate::inventory::stats::StatsWispsKilled;

verus! {

broadcast use vstd::string::group_string_axioms;

/// What an objective asks of the player.
#[derive(Clone, Copy, Debug, PartialEq, Eq, Structural)]
pub enum ObjectiveType {
    ClearAllQuantumFields,
    KillWisps(usize),
}

impl ObjectiveType {
    /// The name under which the objective type is saved.
    pub fn db_str(&self) -> (r: &'static str)
        ensures
            self is ClearAllQuantumFields ==> r@ == "clear_quantum_fields"@,
            self is KillWisps ==> r@ == "kill_wisps"@,
    {
        match self {
            ObjectiveType::ClearAllQuantumFields => "clear_quantum_fields",
            ObjectiveType::KillWisps(_) => "kill_wisps",
        }
    }
}

#[derive(Clone, Debug)]
pub struct ObjectiveDetails {
    pub id_name: String,
    pub objective_type: ObjectiveType,
    /// The game event on which the objective becomes active.
    pub activation_event: String,
}

impl ObjectiveDetails {
    pub fn new(id_name: String, objective_type: ObjectiveType, activation_event: String) -> (r: Self)
        ensures
            r.id_name == id_name,
            r.objective_type == objective_type,
            r.activation_event == activation_event,
    {
        ObjectiveDetails { id_name, objective_type, activation_event }
    }
}

/// The life cycle of an objective.
#[derive(Clone, Copy, Debug, PartialEq, Eq, Structural)]
pub enum ObjectiveState {
    Inactive,
    InProgress,
    Completed,
    Failed,
}

impl ObjectiveState {
    pub open spec fn spec_name(&self) -> Seq<char> {
        match self {
            ObjectiveState::Inactive => "Inactive"@,
            ObjectiveState::InProgress => "InProgress"@,
            ObjectiveState::Completed => "Completed"@,
            ObjectiveState::Failed => "Failed"@,
        }
    }

    /// The state saved under `name`, if any.
    pub open spec fn spec_from_name(name: Seq<char>) -> Option<ObjectiveState> {
        if name == "Inactive"@ {
            Some(ObjectiveState::Inactive)
        } else if name == "InProgress"@ {
            Some(ObjectiveState::InProgress)
        } else if name == "Completed"@ {
            Some(ObjectiveState::Completed)
        } else if name == "Failed"@ {
            Some(ObjectiveState::Failed)
        } else {
            None
        }
    }

    /// Reads a state back from its saved name.
    pub fn from_name(name: &String) -> (r: Option<Self>)
        ensures
            r == Self::spec_from_name(name@),
    {
        if *name == "Inactive".to_string() {
            Some(ObjectiveState::Inactive)
        } else if *name == "InProgress".to_string() {
            Some(ObjectiveState::InProgress)
        } else if *name == "Completed".to_string() {
            Some(ObjectiveState::Completed)
        } else if *name == "Failed".to_string() {
            Some(ObjectiveState::Failed)
        } else {
            None
        }
    }

    /// The name of the state, as saved.
    pub fn as_ref(&self) -> (r: &'static str)
        ensures
            r@ == self.spec_name(),
    {
        proof {
            reveal_strlit("Inactive");
            reveal_strlit("InProgress");
            reveal_strlit("Completed");
            reveal_strlit("Failed");
        }
        match self {
            ObjectiveState::Inactive => "Inactive",
            ObjectiveState::InProgress => "InProgress",
            ObjectiveState::Completed => "Completed",
            ObjectiveState::Failed => "Failed",
        }
    }
}

/// What an objective keeps when the game is saved.
#[derive(Clone, Copy, Debug)]
struct ObjectiveSaveData {
    entity: Entity,
    state: ObjectiveState,
    /// `(target_amount, started_amount)` of a kill-wisps objective.
    kill_wisps_data: Option<(usize, usize)>,
}

/// Request to create an objective, either new or restored from a save.
#[derive(Clone, Debug)]
pub struct BuilderObjective {
    objective_details: ObjectiveDetails,
    save_data: Option<ObjectiveSaveData>,
}

/// The progress record of an objective.
#[derive(Clone, Copy, Debug, PartialEq, Eq, Structural)]
pub enum ObjectiveProgress {
    ClearAllQuantumFields(ObjectiveClearAllQuantumFields),
    KillWisps(ObjectiveKillWisps),
}

impl BuilderObjective {
    pub closed spec fn spec_details(&self) -> ObjectiveDetails {
        self.objective_details
    }

    pub closed spec fn spec_is_restored(&self) -> bool {
        self.save_data is Some
    }

    /// The entity a saved or restored objective is recorded under.
    pub closed spec fn spec_saved_entity(&self) -> Option<Entity> {
        match self.save_data {
            Some(data) => Some(data.entity),
            None => None,
        }
    }

    /// The entity the objective is recorded under when it is saved or restored.
    pub fn saved_entity(&self) -> (r: Option<Entity>)
        ensures
            r == self.spec_saved_entity(),
    {
        match &self.save_data {
            Some(data) => Some(data.entity),
            None => None,
        }
    }

    /// The state a restored objective was saved in.
    pub closed spec fn spec_saved_state(&self) -> ObjectiveState {
        self.save_data->0.state
    }

    /// The `(target_amount, started_amount)` a restored kill-wisps objective was saved with.
    pub closed spec fn spec_saved_kill_wisps(&self) -> Option<(usize, usize)> {
        self.save_data->0.kill_wisps_data
    }

    pub fn new(objective_details: ObjectiveDetails) -> (r: Self)
        ensures
            r.spec_details() == objective_details,
            !r.spec_is_restored(),
            r.spec_saved_entity() is None,
    {
        BuilderObjective { objective_details, save_data: None }
    }

    fn new_for_saving(objective_details: ObjectiveDetails, save_data: ObjectiveSaveData) -> (r: Self)
        ensures
            r.objective_details == objective_details,
            r.save_data == Some(save_data),
    {
        BuilderObjective { objective_details, save_data: Some(save_data) }
    }

    /// The record saved for an objective: its details, state and, for a kill-wisps
    /// objective, its target and starting kills.
    pub fn for_saving(
        entity: Entity,
        objective_details: ObjectiveDetails,
        state: ObjectiveState,
        kill_wisps: Option<ObjectiveKillWisps>,
    ) -> (r: Self)
        ensures
            r.spec_details() == objective_details,
            r.spec_is_restored(),
            r.spec_saved_entity() == Some(entity),
            r.spec_saved_state() == state,
            r.spec_saved_kill_wisps() == match kill_wisps {
                Some(kw) => Some((kw.target_amount, kw.started_amount)),
                None => None,
            },
    {
        let kill_wisps_data = match kill_wisps {
            Some(kw) => Some((kw.target_amount, kw.started_amount)),
            None => None,
        };
        BuilderObjective::new_for_saving(
            objective_details,
            ObjectiveSaveData { entity, state, kill_wisps_data },
        )
    }

    /// An objective restored from a saved row: the objective type is read from its saved name;
    /// a kill-wisps objective takes its target and starting kills from its saved counts, and
    /// without them targets nothing and keeps no counts. An unknown type gives `None`. The
    /// saved state name must be one of the states.
    pub fn from_saved_row(
        entity: Entity,
        id_name: String,
        objective_type_name: &String,
        activation_event: String,
        state_name: &String,
        kill_wisps_row: Option<(usize, usize)>,
    ) -> (r: Option<Self>)
        requires
            ObjectiveState::spec_from_name(state_name@) is Some,
        ensures
            objective_type_name@ != "clear_quantum_fields"@ && objective_type_name@ != "kill_wisps"@
                ==> r is None,
            r matches Some(b) ==> b.spec_saved_entity() == Some(entity),
            objective_type_name@ == "clear_quantum_fields"@ ==> (r matches Some(b) && b.spec_details()
                == ObjectiveDetails {
                id_name,
                objective_type: ObjectiveType::ClearAllQuantumFields,
                activation_event,
            } && b.spec_is_restored() && b.spec_saved_state() == ObjectiveState::spec_from_name(
                state_name@,
            )->0 && b.spec_saved_kill_wisps() is None),
            objective_type_name@ == "kill_wisps"@ ==> (r matches Some(b) && b.spec_details()
                == ObjectiveDetails {
                id_name,
                objective_type: ObjectiveType::KillWisps(
                    match kill_wisps_row {
                        Some((target_amount, _)) => target_amount,
                        None => 0,
                    },
                ),
                activation_event,
            } && b.spec_is_restored() && b.spec_saved_state() == ObjectiveState::spec_from_name(
                state_name@,
            )->0 && b.spec_saved_kill_wisps() == kill_wisps_row),
    {
        proof {
            reveal_strlit("kill_wisps");
            reveal_strlit("clear_quantum_fields");
            assert("kill_wisps"@.len() != "clear_quantum_fields"@.len());
        }
        let state = ObjectiveState::from_name(state_name).unwrap();
        let (objective_type, kill_wisps_data) = if *objective_type_name
            == "clear_quantum_fields".to_string() {
            (ObjectiveType::ClearAllQuantumFields, None)
        } else if *objective_type_name == "kill_wisps".to_string() {
            match kill_wisps_row {
                Some((target_amount, started_amount)) => (
                    ObjectiveType::KillWisps(target_amount),
                    Some((target_amount, started_amount)),
                ),
                None => (ObjectiveType::KillWisps(0), None),
            }
        } else {
            return None;
        };
        let objective_details = ObjectiveDetails::new(id_name, objective_type, activation_event);
        Some(
            BuilderObjective::new_for_saving(
                objective_details,
                ObjectiveSaveData { entity, state, kill_wisps_data },
            ),
        )
    }

    /// The state and progress record an objective starts with. A new objective is inactive;
    /// a kill-wisps objective counts kills from the kills so far. A restored objective takes
    /// its saved state and progress, and a restored kill-wisps objective saved without its
    /// counts gets no progress record.
    pub fn on_add(&self, stats_wisps_killed: &StatsWispsKilled) -> (r: (
        ObjectiveState,
        Option<ObjectiveProgress>,
    ))
        ensures
            !self.spec_is_restored() ==> r.0 == ObjectiveState::Inactive && match self.spec_details().objective_type {
                ObjectiveType::ClearAllQuantumFields => r.1 == Some(
                    ObjectiveProgress::ClearAllQuantumFields(ObjectiveClearAllQuantumFields::spec_new()),
                ),
                ObjectiveType::KillWisps(target_amount) => r.1 == Some(
                    ObjectiveProgress::KillWisps(
                        ObjectiveKillWisps { target_amount, started_amount: stats_wisps_killed.0 },
                    ),
                ),
            },
            self.spec_is_restored() ==> r.0 == self.spec_saved_state() && match self.spec_details().objective_type {
                ObjectiveType::ClearAllQuantumFields => r.1 == Some(
                    ObjectiveProgress::ClearAllQuantumFields(ObjectiveClearAllQuantumFields::spec_new()),
                ),
                ObjectiveType::KillWisps(_) => r.1 == match self.spec_saved_kill_wisps() {
                    Some((target_amount, started_amount)) => Some(
                        ObjectiveProgress::KillWisps(ObjectiveKillWisps { target_amount, started_amount }),
                    ),
                    None => None,
                },
            },
    {
        match &self.save_data {
            Some(save_data) => {
                let progress = match self.objective_details.objective_type {
                    ObjectiveType::ClearAllQuantumFields => Some(
                        ObjectiveProgress::ClearAllQuantumFields(
                            ObjectiveClearAllQuantumFields::default(),
                        ),
                    ),
                    ObjectiveType::KillWisps(_) => match save_data.kill_wisps_data {
                        Some((target_amount, started_amount)) => Some(
                            ObjectiveProgress::KillWisps(
                                ObjectiveKillWisps { target_amount, started_amount },
                            ),
                        ),
                        None => None,
                    },
                };
                (save_data.state, progress)
            },
            None => {
                let progress = match self.objective_details.objective_type {
                    ObjectiveType::ClearAllQuantumFields => ObjectiveProgress::ClearAllQuantumFields(
                        ObjectiveClearAllQuantumFields::default(),
                    ),
                    ObjectiveType::KillWisps(target_amount) => ObjectiveProgress::KillWisps(
                        ObjectiveKillWisps { target_amount, started_amount: stats_wisps_killed.0 },
                    ),
                };
                (ObjectiveState::Inactive, Some(progress))
            },
        }
    }
}

/// Marks the checkmark shown next to an objective.
#[derive(Clone, Copy, Debug, Default)]
pub struct ObjectiveCheckmark;

/// Marks the text of an objective.
#[derive(Clone, Copy, Debug, Default)]
pub struct ObjectiveText;

/// An objective shown to the player, with the entities of its checkmark and text.
#[derive(Clone, Copy, Debug, PartialEq, Eq, Structural)]
pub struct Objective {
    pub checkmark: Entity,
    pub text: Entity,
}

impl Objective {
    /// An inactive objective becomes active when the game event it waits for happens.
    pub fn reassess_inactive_objectives_on_dynamic_event(
        event: &String,
        objective_details: &ObjectiveDetails,
        state: &ObjectiveState,
    ) -> (r: Option<ObjectiveState>)
        ensures
            r == if *state == ObjectiveState::Inactive && event@
                == objective_details.activation_event@ {
                Some(ObjectiveState::InProgress)
            } else {
                None
            },
    {
        match state {
            ObjectiveState::Inactive => {},
            _ => {
                return None;
            },
        }
        if *event != objective_details.activation_event {
            return None;
        }
        Some(ObjectiveState::InProgress)
    }
}

/// Progress of an objective to clear all quantum fields.
#[derive(Clone, Copy, Debug, PartialEq, Eq, Structural)]
pub struct ObjectiveClearAllQuantumFields {
    completed_quantum_fields: usize,
}

impl ObjectiveClearAllQuantumFields {
    pub closed spec fn spec_new() -> Self {
        ObjectiveClearAllQuantumFields { completed_quantum_fields: 0 }
    }

    pub closed spec fn spec_completed(&self) -> usize {
        self.completed_quantum_fields
    }

    /// For an objective in progress: recounts the cleared quantum fields (none are counted
    /// yet) and returns the state to move to when their number equals `total_quantum_fields`.
    pub fn update(&mut self, state: &ObjectiveState, total_quantum_fields: usize) -> (r: Option<
        ObjectiveState,
    >)
        ensures
            *state != ObjectiveState::InProgress ==> r is None && *final(self) == *old(self),
            *state == ObjectiveState::InProgress ==> final(self).spec_completed() == 0 && r == if total_quantum_fields == 0 {
                Some(ObjectiveState::Completed)
            } else {
                None
            },
    {
        match state {
            ObjectiveState::InProgress => {},
            _ => {
                return None;
            },
        }
        self.completed_quantum_fields = 0;
        if self.completed_quantum_fields == total_quantum_fields {
            Some(ObjectiveState::Completed)
        } else {
            None
        }
    }
}

impl Default for ObjectiveClearAllQuantumFields {
    fn default() -> (r: Self)
        ensures
            r == Self::spec_new(),
    {
        ObjectiveClearAllQuantumFields { completed_quantum_fields: 0 }
    }
}

/// Progress of an objective to kill a number of wisps, counted from the kills at its start.
#[derive(Clone, Copy, Debug, PartialEq, Eq, Structural, Default)]
pub struct ObjectiveKillWisps {
    pub target_amount: usize,
    pub started_amount: usize,
}

impl ObjectiveKillWisps {
    /// For an objective in progress: the kills counted so far (capped at the target) and the
    /// state to move to once the target is reached. The total kills cannot fall below the
    /// kills at the objective's start.
    pub fn update(&self, state: &ObjectiveState, stats_wisps_killed: &StatsWispsKilled) -> (r: Option<
        (usize, Option<ObjectiveState>),
    >)
        requires
            *state == ObjectiveState::InProgress ==> stats_wisps_killed.0 >= self.started_amount,
        ensures
            *state != ObjectiveState::InProgress ==> r is None,
            *state == ObjectiveState::InProgress ==> (r matches Some((current, next)) && current
                == crate::inventory::objectives::kill_wisps_progress(
                self.target_amount as int,
                self.started_amount as int,
                stats_wisps_killed.0 as int,
            ) && next == if current == self.target_amount {
                Some(ObjectiveState::Completed)
            } else {
                None
            }),
    {
        match state {
            ObjectiveState::InProgress => {},
            _ => {
                return None;
            },
        }
        let killed = stats_wisps_killed.0 - self.started_amount;
        let current_amount = if killed < self.target_amount {
            killed
        } else {
            self.target_amount
        };
        let next = if current_amount == self.target_amount {
            Some(ObjectiveState::Completed)
        } else {
            None
        };
        Some((current_amount, next))
    }
}

} // verus!
