//! What a task's card says of its destinations together.

use std::collections::HashMap;

use syncmaid::model::{
    DeleteMode, Destination, DestinationDefaults, DestinationSyncStatus, FileNameCollisionPolicy,
    SyncOutcome, SyncStrategy, SyncTask, SyncTaskKind, Trigger,
};
use syncmaid::rules::FilterRule;
use syncmaid::state::health::health_of;

fn task_with(count: usize) -> SyncTask {
    let defaults = DestinationDefaults {
        verify_contents: false,
        delete_mode: DeleteMode::Recycle,
        flatten_structure: false,
        collision_policy: FileNameCollisionPolicy::Skip,
        mass_delete_threshold: 0,
    };
    SyncTask {
        id: 100,
        name: "T".to_owned(),
        source_path: r"C:\src".to_owned(),
        trigger: Trigger::Manual,
        destinations: (0..count)
            .map(|index| {
                Destination::new(
                    index as u128,
                    &format!("D{index}"),
                    &format!(r"D:\d{index}"),
                    vec![FilterRule::AllFiles],
                    SyncStrategy::Mirror,
                    &defaults,
                )
            })
            .collect(),
        kind: SyncTaskKind::Sync,
    }
}

fn statuses(task: &SyncTask, outcomes: &[SyncOutcome]) -> HashMap<u128, DestinationSyncStatus> {
    task.destinations
        .iter()
        .zip(outcomes)
        .map(|(destination, outcome)| {
            (destination.id, DestinationSyncStatus::new(destination.id, *outcome))
        })
        .collect()
}

#[test]
fn a_task_with_no_destinations_says_so() {
    let health = health_of(&task_with(0), &HashMap::new());
    assert_eq!(SyncOutcome::Never, health.outcome);
    assert_eq!("No destinations", health.text);
}

#[test]
fn a_destination_that_has_never_run_reads_as_never_run() {
    let task = task_with(2);
    assert_eq!("Never run", health_of(&task, &HashMap::new()).text);
}

#[test]
fn running_outranks_everything_else() {
    let task = task_with(3);
    let outcomes = [SyncOutcome::Failed, SyncOutcome::Running, SyncOutcome::Success];
    assert_eq!(
        SyncOutcome::Running,
        health_of(&task, &statuses(&task, &outcomes)).outcome
    );
    assert_eq!("Syncing…", health_of(&task, &statuses(&task, &outcomes)).text);
}

#[test]
fn needing_confirmation_outranks_a_failure() {
    let task = task_with(2);
    let outcomes = [SyncOutcome::Failed, SyncOutcome::NeedsConfirmation];
    let health = health_of(&task, &statuses(&task, &outcomes));
    assert_eq!(SyncOutcome::NeedsConfirmation, health.outcome);
    assert_eq!("Needs confirmation", health.text);
}

#[test]
fn a_failure_outranks_a_merely_incomplete_run_and_counts_itself() {
    let task = task_with(3);
    let outcomes = [SyncOutcome::Failed, SyncOutcome::Incomplete, SyncOutcome::Success];
    let health = health_of(&task, &statuses(&task, &outcomes));
    assert_eq!(SyncOutcome::Failed, health.outcome);
    assert_eq!("1 of 3 failed", health.text);
}

#[test]
fn files_in_use_are_summed_across_destinations() {
    let task = task_with(2);
    let mut map = statuses(&task, &[SyncOutcome::Incomplete, SyncOutcome::Incomplete]);
    for (index, destination) in task.destinations.iter().enumerate() {
        map.get_mut(&destination.id).unwrap().files_deferred = index as i32 + 1;
    }

    let health = health_of(&task, &map);

    assert_eq!(SyncOutcome::Incomplete, health.outcome);
    assert_eq!("3 in use", health.text);
}

#[test]
fn every_destination_succeeding_is_all_synced() {
    let task = task_with(2);
    let outcomes = [SyncOutcome::Success, SyncOutcome::Success];
    assert_eq!("All synced", health_of(&task, &statuses(&task, &outcomes)).text);
}

#[test]
fn some_succeeding_and_some_not_yet_run_is_partly_synced() {
    let task = task_with(2);
    let outcomes = [SyncOutcome::Success, SyncOutcome::Never];
    let health = health_of(&task, &statuses(&task, &outcomes));
    assert_eq!(SyncOutcome::Success, health.outcome);
    assert_eq!("Partly synced", health.text);
}
