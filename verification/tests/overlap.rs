//! Which tasks get in each other's way.

use syncmaid::model::{
    DeleteMode, Destination, DestinationDefaults, FileNameCollisionPolicy, SyncStrategy, SyncTask,
    SyncTaskKind, Trigger,
};
use syncmaid::rules::FilterRule;
use syncmaid::state::overlap::{
    destination_conflict, run_conflict, sibling_conflict, source_conflict,
};

/// One of two folders is the other, or lies inside it. A path that is not complete overlaps
/// nothing.
fn overlaps(one: &str, other: &str) -> bool {
    let parts = |path: &str| -> Vec<String> {
        path.split('\\').filter(|part| !part.is_empty()).map(|part| part.to_lowercase()).collect()
    };
    let (one_is, other_is) = (one.contains(':'), other.contains(':'));
    let (a, b) = (parts(one), parts(other));
    one_is && other_is && a.iter().zip(b.iter()).all(|(x, y)| x == y)
}

fn task(id: u128, name: &str, source: &str, destinations: &[&str]) -> SyncTask {
    let defaults = DestinationDefaults {
        verify_contents: false,
        delete_mode: DeleteMode::Recycle,
        flatten_structure: false,
        collision_policy: FileNameCollisionPolicy::Skip,
        mass_delete_threshold: 0,
    };
    SyncTask {
        id,
        name: name.to_owned(),
        source_path: source.to_owned(),
        trigger: Trigger::Manual,
        destinations: destinations
            .iter()
            .enumerate()
            .map(|(index, path)| {
                Destination::new(
                    id * 100 + index as u128,
                    path,
                    path,
                    vec![FilterRule::AllFiles],
                    SyncStrategy::Mirror,
                    &defaults,
                )
            })
            .collect(),
        kind: SyncTaskKind::Sync,
    }
}

fn with_sources(tasks: &[SyncTask], path: &str) -> Vec<bool> {
    tasks.iter().map(|task| overlaps(&task.source_path, path)).collect()
}

fn with_destinations(tasks: &[SyncTask], path: &str) -> Vec<Vec<bool>> {
    tasks
        .iter()
        .map(|task| task.destinations.iter().map(|d| overlaps(&d.path, path)).collect())
        .collect()
}

fn source_name(tasks: &Vec<SyncTask>, editing: Option<u128>, path: &str) -> Option<String> {
    source_conflict(tasks, editing, &with_sources(tasks, path)).map(|c| c.task_name)
}

fn destination_name(
    tasks: &Vec<SyncTask>,
    task: Option<u128>,
    destination: Option<u128>,
    path: &str,
) -> Option<String> {
    destination_conflict(tasks, task, destination, &with_destinations(tasks, path))
        .map(|c| c.task_name)
}

fn siblings(task: &SyncTask) -> Option<(String, String)> {
    let verdicts: Vec<Vec<bool>> = task
        .destinations
        .iter()
        .map(|a| task.destinations.iter().map(|b| overlaps(&a.path, &b.path)).collect())
        .collect();
    sibling_conflict(task, &verdicts)
}

fn run_name(tasks: &Vec<SyncTask>, task: &SyncTask) -> Option<String> {
    let destinations: Vec<Vec<Vec<bool>>> =
        task.destinations.iter().map(|d| with_destinations(tasks, &d.path)).collect();
    run_conflict(tasks, task, &with_sources(tasks, &task.source_path), &destinations)
        .map(|c| c.task_name)
}

#[test]
fn a_source_that_equals_or_nests_with_another_tasks_source_conflicts() {
    let tasks = vec![task(1, "Photos", r"C:\Photos", &[])];

    assert_eq!(Some("Photos".to_owned()), source_name(&tasks, None, r"C:\Photos"));
    assert_eq!(Some("Photos".to_owned()), source_name(&tasks, None, r"C:\Photos\2024"));
    assert_eq!(
        Some("Photos".to_owned()),
        source_name(&tasks, None, r"C:\"),
        "containing another task's source is nesting too"
    );
}

#[test]
fn a_sibling_folder_is_not_a_conflict() {
    let tasks = vec![task(1, "Photos", r"C:\Photos", &[])];
    assert_eq!(None, source_name(&tasks, None, r"C:\Videos"));
}

#[test]
fn a_task_does_not_conflict_with_itself_while_being_edited() {
    let tasks = vec![task(1, "Photos", r"C:\Photos", &[])];
    let editing = tasks[0].id;

    assert_eq!(None, source_name(&tasks, Some(editing), r"C:\Photos"));
}

#[test]
fn chaining_one_tasks_destination_into_anothers_source_is_allowed() {
    let tasks = vec![task(1, "Sorter", r"C:\Downloads", &[r"D:\Filed"])];

    assert_eq!(
        None,
        source_name(&tasks, None, r"D:\Filed"),
        "task A files into a folder task B backs up: the runs converge, so this is a layout the app \
         supports rather than refuses"
    );
}

#[test]
fn destinations_conflict_across_tasks() {
    let tasks = vec![task(1, "Photos", r"C:\Photos", &[r"N:\backup"])];

    assert_eq!(
        Some("Photos".to_owned()),
        destination_name(&tasks, None, None, r"N:\backup\inner")
    );
    assert_eq!(None, destination_name(&tasks, None, None, r"N:\other"));
}

#[test]
fn a_destination_being_edited_is_not_its_own_conflict() {
    let tasks = vec![task(1, "Photos", r"C:\Photos", &[r"N:\backup"])];
    let editing = tasks[0].destinations[0].id;

    assert_eq!(None, destination_name(&tasks, None, Some(editing), r"N:\backup"));
}

#[test]
fn two_destinations_of_one_task_that_overlap_are_found() {
    let overlapping = task(1, "Photos", r"C:\Photos", &[r"N:\backup", r"N:\backup\inner"]);
    let separate = task(2, "Photos", r"C:\Photos", &[r"N:\one", r"N:\two"]);

    assert_eq!(
        Some((r"N:\backup".to_owned(), r"N:\backup\inner".to_owned())),
        siblings(&overlapping)
    );
    assert_eq!(None, siblings(&separate));
}

#[test]
fn a_half_typed_path_conflicts_with_nothing() {
    let tasks = vec![task(1, "Photos", r"C:\Photos", &[r"N:\backup"])];

    // The editor probes on every keystroke.
    for partial in ["", r"\\", r"\\server"] {
        assert_eq!(None, source_name(&tasks, None, partial), "{partial:?}");
        assert_eq!(None, destination_name(&tasks, None, None, partial), "{partial:?}");
    }
}

#[test]
fn a_run_is_refused_when_either_end_overlaps_another_task() {
    let photos = || task(1, "Photos", r"C:\Photos", &[r"N:\backup"]);

    let shared_source = || task(2, "Copy of photos", r"C:\Photos\2024", &[r"N:\elsewhere"]);
    assert_eq!(
        Some("Photos".to_owned()),
        run_name(&vec![photos(), shared_source()], &shared_source())
    );

    let shared_destination = || task(3, "Second backup", r"C:\Videos", &[r"N:\backup\inner"]);
    assert_eq!(
        Some("Photos".to_owned()),
        run_name(&vec![photos(), shared_destination()], &shared_destination())
    );
}

#[test]
fn a_run_that_shares_nothing_is_not_refused() {
    let photos = || task(1, "Photos", r"C:\Photos", &[r"N:\backup"]);
    let videos = || task(2, "Videos", r"C:\Videos", &[r"N:\videos"]);

    assert_eq!(None, run_name(&vec![photos(), videos()], &videos()));
    assert_eq!(
        None,
        run_name(&vec![photos(), videos()], &photos()),
        "a task in the list it is checked against is not its own conflict"
    );
}

#[test]
fn a_run_of_a_chained_task_is_allowed() {
    let sorter = || task(1, "Sorter", r"C:\Downloads", &[r"D:\Filed"]);
    let backup = || task(2, "Backup", r"D:\Filed", &[r"N:\archive"]);

    assert_eq!(
        None,
        run_name(&vec![sorter(), backup()], &backup()),
        "chaining is the layout the trigger coalescing and idempotent planning exist for"
    );
    assert_eq!(None, run_name(&vec![sorter(), backup()], &sorter()));
}

#[test]
fn two_destinations_of_one_task_are_left_to_the_engine() {
    let overlapping = || task(1, "Photos", r"C:\Photos", &[r"N:\backup", r"N:\backup\inner"]);

    assert_eq!(
        None,
        run_name(&vec![overlapping()], &overlapping()),
        "the engine refuses this one, and names both destinations rather than a task"
    );
    assert!(siblings(&overlapping()).is_some());
}
