use wisp_defense::inventory::objectives as inv;
use wisp_defense::inventory::stats::StatsWispsKilled;
use wisp_defense::objectives::{
    BuilderObjective, Objective, ObjectiveClearAllQuantumFields, ObjectiveDetails,
    ObjectiveKillWisps, ObjectiveProgress, ObjectiveState, ObjectiveType,
};

fn details(objective_type: ObjectiveType) -> ObjectiveDetails {
    ObjectiveDetails::new("first".to_string(), objective_type, "map_loaded".to_string())
}

#[test]
fn state_names_round_trip() {
    for state in [
        ObjectiveState::Inactive,
        ObjectiveState::InProgress,
        ObjectiveState::Completed,
        ObjectiveState::Failed,
    ] {
        assert_eq!(ObjectiveState::from_name(&state.as_ref().to_string()), Some(state));
    }
    assert_eq!(ObjectiveState::InProgress.as_ref(), "InProgress");
    assert_eq!(ObjectiveState::from_name(&"inprogress".to_string()), None);
}

#[test]
fn objective_type_names() {
    assert_eq!(ObjectiveType::ClearAllQuantumFields.db_str(), "clear_quantum_fields");
    assert_eq!(ObjectiveType::KillWisps(4).db_str(), "kill_wisps");
}

#[test]
fn new_objective_starts_inactive() {
    let builder = BuilderObjective::new(details(ObjectiveType::KillWisps(10)));
    let (state, progress) = builder.on_add(&StatsWispsKilled(7));
    assert_eq!(state, ObjectiveState::Inactive);
    assert_eq!(
        progress,
        Some(ObjectiveProgress::KillWisps(ObjectiveKillWisps { target_amount: 10, started_amount: 7 }))
    );
    let builder = BuilderObjective::new(details(ObjectiveType::ClearAllQuantumFields));
    assert_eq!(builder.saved_entity(), None);
    let (_, progress) = builder.on_add(&StatsWispsKilled(7));
    assert_eq!(
        progress,
        Some(ObjectiveProgress::ClearAllQuantumFields(ObjectiveClearAllQuantumFields::default()))
    );
}

#[test]
fn restored_objective_keeps_saved_state() {
    let builder = BuilderObjective::for_saving(
        3,
        details(ObjectiveType::KillWisps(10)),
        ObjectiveState::Completed,
        Some(ObjectiveKillWisps { target_amount: 10, started_amount: 2 }),
    );
    assert_eq!(builder.saved_entity(), Some(3));
    let (state, progress) = builder.on_add(&StatsWispsKilled(50));
    assert_eq!(state, ObjectiveState::Completed);
    assert_eq!(
        progress,
        Some(ObjectiveProgress::KillWisps(ObjectiveKillWisps { target_amount: 10, started_amount: 2 }))
    );
}

#[test]
fn saved_rows_are_read_back() {
    let kill = BuilderObjective::from_saved_row(
        1,
        "hunt".to_string(),
        &"kill_wisps".to_string(),
        "wave_1".to_string(),
        &"InProgress".to_string(),
        Some((20, 5)),
    )
    .unwrap();
    assert_eq!(kill.saved_entity(), Some(1));
    let (state, progress) = kill.on_add(&StatsWispsKilled(0));
    assert_eq!(state, ObjectiveState::InProgress);
    assert_eq!(
        progress,
        Some(ObjectiveProgress::KillWisps(ObjectiveKillWisps { target_amount: 20, started_amount: 5 }))
    );
    // A kill-wisps objective saved without its counts gets no progress record.
    let bare = BuilderObjective::from_saved_row(
        1,
        "hunt".to_string(),
        &"kill_wisps".to_string(),
        "wave_1".to_string(),
        &"Failed".to_string(),
        None,
    )
    .unwrap();
    assert_eq!(bare.on_add(&StatsWispsKilled(0)), (ObjectiveState::Failed, None));
    assert!(BuilderObjective::from_saved_row(
        1,
        "x".to_string(),
        &"escort".to_string(),
        "e".to_string(),
        &"Inactive".to_string(),
        None,
    )
    .is_none());
}

#[test]
fn dynamic_event_activates_waiting_objective() {
    let d = details(ObjectiveType::ClearAllQuantumFields);
    assert_eq!(
        Objective::reassess_inactive_objectives_on_dynamic_event(&"map_loaded".to_string(), &d, &ObjectiveState::Inactive),
        Some(ObjectiveState::InProgress)
    );
    assert_eq!(
        Objective::reassess_inactive_objectives_on_dynamic_event(&"other".to_string(), &d, &ObjectiveState::Inactive),
        None
    );
    assert_eq!(
        Objective::reassess_inactive_objectives_on_dynamic_event(&"map_loaded".to_string(), &d, &ObjectiveState::Completed),
        None
    );
}

#[test]
fn clear_all_quantum_fields_completes_when_none_left() {
    let mut progress = ObjectiveClearAllQuantumFields::default();
    assert_eq!(progress.update(&ObjectiveState::InProgress, 0), Some(ObjectiveState::Completed));
    assert_eq!(progress.update(&ObjectiveState::InProgress, 3), None);
    assert_eq!(progress.update(&ObjectiveState::Inactive, 0), None);
}

#[test]
fn kill_wisps_progress_is_capped() {
    let objective = ObjectiveKillWisps { target_amount: 5, started_amount: 10 };
    assert_eq!(objective.update(&ObjectiveState::InProgress, &StatsWispsKilled(12)), Some((2, None)));
    assert_eq!(
        objective.update(&ObjectiveState::InProgress, &StatsWispsKilled(40)),
        Some((5, Some(ObjectiveState::Completed)))
    );
    assert_eq!(objective.update(&ObjectiveState::Failed, &StatsWispsKilled(40)), None);
}

#[test]
fn inventory_objectives_flow() {
    let mut flag = inv::ObjectivesReassesInactiveFlag::new(false);
    let details = inv::ObjectiveDetails {
        id_name: "kill".to_string(),
        objective_type: inv::ObjectiveType::KillWisps(3),
        prerequisites: inv::ObjectivePrerequisities::NoPrerequisites,
    };
    let builder = inv::BuilderObjective::new(9, details.clone());
    let progress = builder.spawn_system(&mut flag, &StatsWispsKilled(4));
    assert!(flag.value());
    let inv::ObjectiveProgress::KillWisps(kill) = progress else { panic!("kill-wisps progress expected") };
    assert_eq!(kill.target_amount(), 3);
    assert_eq!(kill.update(&StatsWispsKilled(5)), (1, false));
    assert_eq!(kill.update(&StatsWispsKilled(9)), (3, true));
    let activated = inv::reassess_inactive_objectives_system(&mut flag, &vec![details.clone(), details]);
    assert_eq!(activated, vec![0, 1]);
    assert!(!flag.value());
    let mut flag2 = inv::ObjectivesReassesInactiveFlag::new(false);
    assert!(inv::reassess_inactive_objectives_system(&mut flag2, &vec![]).is_empty());
    inv::ObjectivesReassesInactiveFlag::new(true).apply(&mut flag2);
    assert!(flag2.value());
    let mut clear = inv::ObjectiveClearAllQuantumFields::default();
    assert!(clear.update(0));
    assert!(!clear.update(2));
    assert_eq!(clear.completed(), 0);
    assert!(inv::ObjectivePrerequisities::NoPrerequisites.are_met());
}
