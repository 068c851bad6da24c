use vstd::prelude::*;
use crate::common::Entity;
use crate::inventory::stats::StatsWispsKilled;

verus! {

/// Defines what must happen for an objective to become active.
#[derive(Clone, Copy, Debug, PartialEq, Eq, Structural)]
pub enum ObjectivePrerequisities {
    NoPrerequisites,
}

impl ObjectivePrerequisities {
    pub open spec fn spec_are_met(&self) -> bool {
        match self {
            ObjectivePrerequisities::NoPrerequisites => true,
        }
    }

    /// Whether an inactive objective with these prerequisites becomes active.
    pub fn are_met(&self) -> (r: bool)
        ensures
            r == self.spec_are_met(),
    {
        match self {
            ObjectivePrerequisities::NoPrerequisites => true,
        }
    }
}

/// What an objective asks of the player.
#[derive(Clone, Copy, Debug, PartialEq, Eq, Structural)]
pub enum ObjectiveType {
    ClearAllQuantumFields,
    KillWisps(usize),
}

#[derive(Clone, Debug)]
pub struct ObjectiveDetails {
    pub id_name: String,
    pub objective_type: ObjectiveType,
    pub prerequisites: ObjectivePrerequisities,
}

/// When set, the prerequisites of inactive objectives are assessed to see whether they
/// should become active.
#[derive(Clone, Copy, Debug, PartialEq, Eq, Structural, Default)]
pub struct ObjectivesReassesInactiveFlag(bool);

impl ObjectivesReassesInactiveFlag {
    pub closed spec fn spec_value(&self) -> bool {
        self.0
    }

    pub fn new(value: bool) -> (r: Self)
        ensures
            r.spec_value() == value,
    {
        ObjectivesReassesInactiveFlag(value)
    }

    pub fn value(&self) -> (r: bool)
        ensures
            r == self.spec_value(),
    {
        self.0
    }

    /// Used as a command: writes this value into the flag kept by the game.
    pub fn apply(self, target: &mut ObjectivesReassesInactiveFlag)
        ensures
            final(target).spec_value() == self.spec_value(),
    {
        target.0 = self.0;
    }
}

/// Marks an objective whose prerequisites are not met yet.
#[derive(Clone, Copy, Debug, Default)]
pub struct ObjectiveMarkerInactive;

/// Marks an objective the player works on.
#[derive(Clone, Copy, Debug, Default)]
pub struct ObjectiveMarkerInProgress;

/// Marks a completed objective.
#[derive(Clone, Copy, Debug, Default)]
pub struct ObjectiveMarkerCompleted;

/// Marks a failed objective.
#[derive(Clone, Copy, Debug, Default)]
pub struct ObjectiveMarkerFailed;

/// Marks the checkmark shown next to an objective.
#[derive(Clone, Copy, Debug, Default)]
pub struct ObjectiveCheckmark;

/// Marks the text of an objective.
#[derive(Clone, Copy, Debug, Default)]
pub struct ObjectiveText;

/// An objective shown to the player, with the entities of its checkmark and text.
#[derive(Clone, Copy, Debug, PartialEq, Eq, Structural)]
pub struct Objective {
    pub checkmark: Entity,
    pub text: Entity,
}

/// Request to create an objective on `entity`.
#[derive(Clone, Debug)]
pub struct BuilderObjective {
    pub entity: Entity,
    pub objective_details: ObjectiveDetails,
}

/// The progress record that a new objective starts with.
#[derive(Clone, Copy, Debug, PartialEq, Eq, Structural)]
pub enum ObjectiveProgress {
    ClearAllQuantumFields(ObjectiveClearAllQuantumFields),
    KillWisps(ObjectiveKillWisps),
}

impl BuilderObjective {
    pub fn new(entity: Entity, objective_details: ObjectiveDetails) -> (r: Self)
        ensures
            r.entity == entity,
            r.objective_details == objective_details,
    {
        BuilderObjective { entity, objective_details }
    }

    /// Creating an objective asks for inactive objectives to be reassessed and starts the
    /// objective's progress record; a kill-wisps objective counts from the kills so far.
    pub fn spawn_system(
        &self,
        reassess_flag: &mut ObjectivesReassesInactiveFlag,
        stats_wisps_killed: &StatsWispsKilled,
    ) -> (r: ObjectiveProgress)
        ensures
            final(reassess_flag).spec_value(),
            match self.objective_details.objective_type {
                ObjectiveType::ClearAllQuantumFields => r matches ObjectiveProgress::ClearAllQuantumFields(p)
                    && p.spec_completed() == 0,
                ObjectiveType::KillWisps(target_amount) => r matches ObjectiveProgress::KillWisps(p)
                    && p.spec_target_amount() == target_amount && p.spec_started_amount()
                    == stats_wisps_killed.0,
            },
    {
        reassess_flag.0 = true;
        match self.objective_details.objective_type {
            ObjectiveType::ClearAllQuantumFields => {
                ObjectiveProgress::ClearAllQuantumFields(ObjectiveClearAllQuantumFields::default())
            },
            ObjectiveType::KillWisps(target_amount) => {
                ObjectiveProgress::KillWisps(
                    ObjectiveKillWisps { target_amount, started_amount: stats_wisps_killed.0 },
                )
            },
        }
    }
}

/// When the flag is set, every inactive objective whose prerequisites are met becomes
/// active; the result lists their positions in `inactive` and the flag is cleared.
/// Nothing happens while the flag is clear.
pub fn reassess_inactive_objectives_system(
    reassess_flag: &mut ObjectivesReassesInactiveFlag,
    inactive: &Vec<ObjectiveDetails>,
) -> (r: Vec<usize>)
    ensures
        !old(reassess_flag).spec_value() ==> r@.len() == 0 && *final(reassess_flag) == *old(
            reassess_flag,
        ),
        old(reassess_flag).spec_value() ==> !final(reassess_flag).spec_value() && r@ == Seq::new(
            inactive@.len(),
            |i: int| i as usize,
        ),
{
    let mut activated: Vec<usize> = Vec::new();
    if !reassess_flag.0 {
        return activated;
    }
    let mut i: usize = 0;
    while i < inactive.len()
        invariant
            i <= inactive@.len(),
            activated@ == Seq::new(i as nat, |k: int| k as usize),
            forall|k: int| 0 <= k < inactive@.len() ==> #[trigger] inactive@[k].prerequisites.spec_are_met(),
        decreases inactive@.len() - i,
    {
        if inactive[i].prerequisites.are_met() {
            activated.push(i);
        }
        assert(activated@ =~= Seq::new((i + 1) as nat, |k: int| k as usize));
        i = i + 1;
    }
    reassess_flag.0 = false;
    activated
}

/// Progress of an objective to clear all quantum fields.
#[derive(Clone, Copy, Debug, PartialEq, Eq, Structural)]
pub struct ObjectiveClearAllQuantumFields {
    completed_quantum_fields: usize,
}

impl Default for ObjectiveClearAllQuantumFields {
    fn default() -> (r: Self)
        ensures
            r.spec_completed() == 0,
    {
        ObjectiveClearAllQuantumFields { completed_quantum_fields: 0 }
    }
}

impl ObjectiveClearAllQuantumFields {
    pub closed spec fn spec_completed(&self) -> usize {
        self.completed_quantum_fields
    }

    pub fn completed(&self) -> (r: usize)
        ensures
            r == self.spec_completed(),
    {
        self.completed_quantum_fields
    }

    /// Recounts the cleared quantum fields (none are counted yet) and reports whether the
    /// objective is complete, which holds when their number equals `total_quantum_fields`.
    pub fn update(&mut self, total_quantum_fields: usize) -> (completed: bool)
        ensures
            final(self).spec_completed() == 0,
            completed == (total_quantum_fields == 0),
    {
        self.completed_quantum_fields = 0;
        self.completed_quantum_fields == total_quantum_fields
    }
}

/// Progress of an objective to kill a number of wisps, counted from the kills at its start.
#[derive(Clone, Copy, Debug, PartialEq, Eq, Structural)]
pub struct ObjectiveKillWisps {
    target_amount: usize,
    started_amount: usize,
}

impl Default for ObjectiveKillWisps {
    fn default() -> (r: Self)
        ensures
            r.spec_target_amount() == 0,
            r.spec_started_amount() == 0,
    {
        ObjectiveKillWisps { target_amount: 0, started_amount: 0 }
    }
}

/// Kills counted towards a kill-wisps objective, capped at its target.
pub open spec fn kill_wisps_progress(target_amount: int, started_amount: int, killed: int) -> int {
    if killed - started_amount < target_amount {
        killed - started_amount
    } else {
        target_amount
    }
}

impl ObjectiveKillWisps {
    pub closed spec fn spec_target_amount(&self) -> usize {
        self.target_amount
    }

    pub closed spec fn spec_started_amount(&self) -> usize {
        self.started_amount
    }

    pub fn target_amount(&self) -> (r: usize)
        ensures
            r == self.spec_target_amount(),
    {
        self.target_amount
    }

    /// The kills counted so far and whether the objective is complete, given the total
    /// number of kills. The total cannot fall below the kills at the objective's start.
    pub fn update(&self, stats_wisps_killed: &StatsWispsKilled) -> (r: (usize, bool))
        requires
            stats_wisps_killed.0 >= self.spec_started_amount(),
        ensures
            r.0 == kill_wisps_progress(
                self.spec_target_amount() as int,
                self.spec_started_amount() as int,
                stats_wisps_killed.0 as int,
            ),
            r.1 == (r.0 == self.spec_target_amount()),
    {
        let killed = stats_wisps_killed.0 - self.started_amount;
        let current_amount = if killed < self.target_amount {
            killed
        } else {
            self.target_amount
        };
        (current_amount, current_amount == self.target_amount)
    }
}


/// The kills counted for an objective never exceed its target, and the objective is complete
/// exactly when the kills since its start reach the target.
pub proof fn lemma_kill_wisps_progress_capped(target_amount: int, started_amount: int, killed: int)
    ensures
        kill_wisps_progress(target_amount, started_amount, killed) <= target_amount,
        (kill_wisps_progress(target_amount, started_amount, killed) == target_amount) == (killed
            - started_amount >= target_amount),
{
}

} // verus!
