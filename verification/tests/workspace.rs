//! Everything the main window is showing.

use std::collections::HashMap;

use syncmaid::model::{
    AppSettings, DeleteMode, Destination, DestinationDefaults, DestinationSyncStatus,
    FileNameCollisionPolicy, SyncOutcome, SyncStrategy, SyncTask, SyncTaskKind, Trigger,
};
use syncmaid::rules::FilterRule;
use syncmaid::state::workspace::Workspace;

fn task(id: u128, name: &str) -> SyncTask {
    let defaults = DestinationDefaults {
        verify_contents: false,
        delete_mode: DeleteMode::Recycle,
        flatten_structure: false,
        collision_policy: FileNameCollisionPolicy::Skip,
        mass_delete_threshold: 0,
    };
    SyncTask {
        id,
        name: name.to_owned(),
        source_path: r"C:\src".to_owned(),
        trigger: Trigger::Manual,
        destinations: vec![Destination::new(
            id * 10,
            "D",
            r"D:\d",
            vec![FilterRule::AllFiles],
            SyncStrategy::Mirror,
            &defaults,
        )],
        kind: SyncTaskKind::Sync,
    }
}

fn workspace(tasks: Vec<SyncTask>, unreadable: bool) -> Workspace {
    Workspace::load(tasks, unreadable, HashMap::new(), AppSettings::default())
}

#[test]
fn a_first_run_loads_empty_and_is_free_to_save() {
    let workspace = workspace(vec![], false);

    assert!(workspace.tasks().is_empty());
    assert!(!workspace.config_unreadable());
    assert!(workspace.persist_tasks());
}

#[test]
fn unreadable_config_switches_persistence_off_rather_than_overwriting_it() {
    let mut workspace = workspace(vec![], true);

    assert!(workspace.config_unreadable());
    assert!(
        !workspace.persist_tasks(),
        "the file the user still has must not be replaced by the empty list we invented"
    );
    assert!(!workspace.persist_statuses());
    assert!(!workspace.upsert_task(task(1, "Photos")));
    assert_eq!(1, workspace.tasks().len());
}

#[test]
fn statuses_for_destinations_that_no_longer_exist_are_pruned() {
    let live = task(1, "Photos");
    let live_id = live.destinations[0].id;
    let mut workspace = workspace(vec![live], false);
    assert!(workspace.apply_statuses(vec![
        DestinationSyncStatus::new(live_id, SyncOutcome::Success),
        DestinationSyncStatus::new(999, SyncOutcome::Failed),
    ]));

    assert_eq!(1, workspace.statuses().len());
    assert!(workspace.statuses().contains_key(&live_id));
}

#[test]
fn every_task_starts_expanded_and_selecting_one_opens_it() {
    let mut workspace = workspace(vec![task(1, "Photos"), task(2, "Downloads")], false);
    assert!(workspace.all_expanded());

    workspace.set_all_expanded(false);
    assert!(!workspace.all_expanded());

    let first = workspace.tasks()[0].id;
    workspace.select(first);
    assert!(workspace.is_expanded(first));
    assert_eq!(Some(first), workspace.selected());
}

#[test]
fn a_settings_change_that_changes_nothing_is_not_written() {
    let mut workspace = workspace(vec![], false);

    let mut settings = workspace.settings().copy();
    settings.close_to_tray = false;
    assert!(!workspace.update_settings(settings));

    let mut settings = workspace.settings().copy();
    settings.close_to_tray = true;
    assert!(workspace.update_settings(settings));
    assert!(workspace.settings().close_to_tray);
}

#[test]
fn adding_replaces_by_identifier_and_removing_takes_what_belongs_to_it() {
    let mut workspace = workspace(vec![task(1, "Photos")], false);
    assert!(workspace.upsert_task(task(1, "Pictures")));
    assert!(workspace.upsert_task(task(2, "Downloads")));
    assert_eq!(vec!["Pictures", "Downloads"], workspace.tasks().iter().map(|t| t.name.as_str()).collect::<Vec<_>>());
    assert!(workspace.is_expanded(2));
    workspace.select(2);
    workspace.apply_statuses(vec![DestinationSyncStatus::new(20, SyncOutcome::Success)]);

    assert!(workspace.remove_task(2));
    assert_eq!(1, workspace.tasks().len());
    assert_eq!(None, workspace.selected());
    assert!(!workspace.is_expanded(2));
    assert!(workspace.statuses().is_empty());
    assert!(workspace.task(2).is_none());
    assert_eq!(Some(0), workspace.position(1));
}

#[test]
fn a_cancelled_run_puts_the_rows_back() {
    let photos = task(1, "Photos");
    let mut workspace = workspace(vec![task(1, "Photos")], false);
    workspace.apply_statuses(vec![DestinationSyncStatus::new(10, SyncOutcome::Failed)]);

    let before = workspace.status_snapshot(&photos);
    workspace.mark_running(&photos);
    assert_eq!(SyncOutcome::Running, workspace.statuses()[&10].outcome);
    workspace.restore_statuses(before);
    assert_eq!(SyncOutcome::Failed, workspace.statuses()[&10].outcome);
}

#[test]
fn statuses_stay_filed_under_their_own_destinations() {
    let filed = |workspace: &Workspace| {
        workspace.statuses().iter().all(|(id, status)| *id == status.destination_id)
    };
    let (photos, music) = (task(1, "Photos"), task(2, "Music"));
    let mut workspace = workspace(vec![task(1, "Photos"), task(2, "Music")], false);
    let before = workspace.status_snapshot(&music);
    workspace.mark_running(&photos);
    workspace.mark_running(&music);
    assert!(filed(&workspace));
    workspace.restore_statuses(before);
    // A destination that had no status yet has never run.
    assert_eq!(SyncOutcome::Never, workspace.statuses()[&20].outcome);
    assert_eq!(SyncOutcome::Running, workspace.statuses()[&10].outcome);
    workspace.apply_statuses(vec![DestinationSyncStatus::new(10, SyncOutcome::Success)]);
    workspace.remove_task(2);
    assert!(filed(&workspace));
    assert_eq!(1, workspace.statuses().len());
}

#[test]
fn the_sidebar_folds_and_unfolds() {
    let mut workspace = workspace(vec![task(1, "Photos")], false);
    assert!(workspace.sidebar_visible());
    workspace.toggle_sidebar();
    assert!(!workspace.sidebar_visible());
    workspace.toggle_expanded(1);
    assert!(!workspace.is_expanded(1));
    workspace.toggle_expanded(1);
    assert!(workspace.is_expanded(1));
}
