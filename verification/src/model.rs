//! The tasks, destinations and outcomes every other module speaks of.

use crate::rules;
use crate::rules::{copy_rules, FilterRule, RuleView};
use crate::text::{owned, same_text};
use vstd::prelude::*;

verus! {

/// How a destination's last run ended.
#[derive(Debug, Clone, Copy, PartialEq, Eq, Structural)]
pub enum SyncOutcome {
    /// It has not run.
    Never,
    /// It is running now.
    Running,
    /// Everything landed.
    Success,
    /// Some files were in use and wait for the next run.
    Incomplete,
    /// It stopped on an error.
    Failed,
    /// It would delete more than its limit and waits to be told.
    NeedsConfirmation,
}

/// How a destination is reconciled with the source.
#[derive(Debug, Clone, Copy, PartialEq, Eq, Structural)]
pub enum SyncStrategy {
    Mirror,
    AddOnly,
    Move,
}

/// What a task does with its files.
#[derive(Debug, Clone, Copy, PartialEq, Eq, Structural)]
pub enum SyncTaskKind {
    Sync,
    Move,
}

/// Where deleted files go.
#[derive(Debug, Clone, Copy, PartialEq, Eq, Structural)]
pub enum DeleteMode {
    Recycle,
    Permanent,
}

/// What happens when two files would land under one name.
#[derive(Debug, Clone, Copy, PartialEq, Eq, Structural)]
pub enum FileNameCollisionPolicy {
    Skip,
    Suffix,
}

/// What starts a task.
#[derive(Debug, PartialEq, Eq)]
pub enum Trigger {
    /// Only when asked.
    Manual,
    /// When a cron expression comes round.
    Scheduled { cron_expression: String },
    /// When the source has been quiet this long after a change.
    Watch { settle_seconds: i32 },
}

/// What a [`Trigger`] says.
pub enum TriggerView {
    Manual,
    Scheduled(Seq<char>),
    Watch(int),
}

impl View for Trigger {
    type V = TriggerView;

    open spec fn view(&self) -> TriggerView {
        match self {
            Trigger::Manual => TriggerView::Manual,
            Trigger::Scheduled { cron_expression } => TriggerView::Scheduled(cron_expression@),
            Trigger::Watch { settle_seconds } => TriggerView::Watch(*settle_seconds as int),
        }
    }
}

impl Trigger {
    /// The same trigger again.
    pub fn copy(&self) -> (r: Self)
        ensures
            r@ == self@,
    {
        match self {
            Trigger::Manual => Trigger::Manual,
            Trigger::Scheduled { cron_expression } => Trigger::Scheduled {
                cron_expression: cron_expression.clone(),
            },
            Trigger::Watch { settle_seconds } => Trigger::Watch { settle_seconds: *settle_seconds },
        }
    }

    /// Whether two triggers say the same.
    pub fn same(&self, other: &Trigger) -> (r: bool)
        ensures
            r == (self@ == other@),
    {
        match (self, other) {
            (Trigger::Manual, Trigger::Manual) => true,
            (
                Trigger::Scheduled { cron_expression: a },
                Trigger::Scheduled { cron_expression: b },
            ) => same_text(a.as_str(), b.as_str()),
            (Trigger::Watch { settle_seconds: a }, Trigger::Watch { settle_seconds: b }) => *a
                == *b,
            _ => false,
        }
    }
}

/// One place a task's files go.
#[derive(Debug, PartialEq, Eq)]
pub struct Destination {
    pub id: u128,
    pub name: String,
    pub path: String,
    pub filters: Vec<FilterRule>,
    pub strategy: SyncStrategy,
    pub verify_contents: bool,
    pub delete_mode: DeleteMode,
    /// Put every file in one folder instead of keeping the source's tree.
    pub flatten_structure: bool,
    pub collision_policy: FileNameCollisionPolicy,
    /// The share of the destination that may be deleted unasked, as the bits of the fraction it
    /// is stored as. Nothing here computes with it; all zeros is "no limit".
    pub mass_delete_threshold: u64,
}

/// What a [`Destination`] says.
pub struct DestinationView {
    pub id: u128,
    pub name: Seq<char>,
    pub path: Seq<char>,
    pub filters: Seq<RuleView>,
    pub strategy: SyncStrategy,
    pub verify_contents: bool,
    pub delete_mode: DeleteMode,
    pub flatten_structure: bool,
    pub collision_policy: FileNameCollisionPolicy,
    pub mass_delete_threshold: u64,
}

impl View for Destination {
    type V = DestinationView;

    open spec fn view(&self) -> DestinationView {
        DestinationView {
            id: self.id,
            name: self.name@,
            path: self.path@,
            filters: rules::rule_views(self.filters@),
            strategy: self.strategy,
            verify_contents: self.verify_contents,
            delete_mode: self.delete_mode,
            flatten_structure: self.flatten_structure,
            collision_policy: self.collision_policy,
            mass_delete_threshold: self.mass_delete_threshold,
        }
    }
}

/// The views of a list of destinations.
pub open spec fn destination_views(destinations: Seq<Destination>) -> Seq<DestinationView> {
    Seq::new(destinations.len(), |i: int| destinations[i]@)
}

/// The settings a new destination begins with.
#[derive(Debug, Clone, Copy, PartialEq, Eq, Structural)]
pub struct DestinationDefaults {
    pub verify_contents: bool,
    pub delete_mode: DeleteMode,
    pub flatten_structure: bool,
    pub collision_policy: FileNameCollisionPolicy,
    pub mass_delete_threshold: u64,
}

impl DestinationView {
    /// A destination with the settings a new one begins with.
    pub open spec fn fresh(
        id: u128,
        name: Seq<char>,
        path: Seq<char>,
        filters: Seq<RuleView>,
        strategy: SyncStrategy,
        defaults: DestinationDefaults,
    ) -> DestinationView {
        DestinationView {
            id,
            name,
            path,
            filters,
            strategy,
            verify_contents: defaults.verify_contents,
            delete_mode: defaults.delete_mode,
            flatten_structure: defaults.flatten_structure,
            collision_policy: defaults.collision_policy,
            mass_delete_threshold: defaults.mass_delete_threshold,
        }
    }

    /// Its only filter is the one that selects everything.
    pub open spec fn takes_all_files(self) -> bool {
        self.filters.len() == 1 && self.filters[0] is AllFiles
    }
}

impl Destination {
    /// A destination with the settings a new one begins with.
    pub fn new(
        id: u128,
        name: &str,
        path: &str,
        filters: Vec<FilterRule>,
        strategy: SyncStrategy,
        defaults: &DestinationDefaults,
    ) -> (r: Self)
        ensures
            r@ == DestinationView::fresh(
                id,
                name@,
                path@,
                rules::rule_views(filters@),
                strategy,
                *defaults,
            ),
    {
        Destination {
            id,
            name: owned(name),
            path: owned(path),
            filters,
            strategy,
            verify_contents: defaults.verify_contents,
            delete_mode: defaults.delete_mode,
            flatten_structure: defaults.flatten_structure,
            collision_policy: defaults.collision_policy,
            mass_delete_threshold: defaults.mass_delete_threshold,
        }
    }

    /// The same destination again.
    pub fn copy(&self) -> (r: Self)
        ensures
            r@ == self@,
    {
        Destination {
            id: self.id,
            name: self.name.clone(),
            path: self.path.clone(),
            filters: copy_rules(&self.filters),
            strategy: self.strategy,
            verify_contents: self.verify_contents,
            delete_mode: self.delete_mode,
            flatten_structure: self.flatten_structure,
            collision_policy: self.collision_policy,
            mass_delete_threshold: self.mass_delete_threshold,
        }
    }

    /// Whether its only filter is the one that selects everything.
    pub fn has_only_the_all_files_filter(&self) -> (r: bool)
        ensures
            r == self@.takes_all_files(),
    {
        self.filters.len() == 1 && self.filters[0].is_all_files()
    }
}

/// The same destinations, one by one.
pub fn copy_destinations(destinations: &Vec<Destination>) -> (r: Vec<Destination>)
    ensures
        destination_views(r@) == destination_views(destinations@),
{
    let ghost views = destination_views(destinations@);
    let mut out: Vec<Destination> = Vec::new();
    let mut i: usize = 0;
    while i < destinations.len()
        invariant
            i <= destinations@.len(),
            views == destination_views(destinations@),
            destination_views(out@) == views.take(i as int),
        decreases destinations@.len() - i,
    {
        let copy = destinations[i].copy();
        proof {
            assert(destination_views(out@.push(copy)) =~= destination_views(out@).push(copy@));
            assert(views.take(i + 1) =~= views.take(i as int).push(copy@));
        }
        out.push(copy);
        i = i + 1;
    }
    proof {
        assert(views.take(destinations@.len() as int) =~= views);
    }
    out
}

/// One thing to keep in sync.
#[derive(Debug, PartialEq, Eq)]
pub struct SyncTask {
    pub id: u128,
    pub name: String,
    pub source_path: String,
    pub trigger: Trigger,
    pub destinations: Vec<Destination>,
    pub kind: SyncTaskKind,
}

/// What a [`SyncTask`] says.
pub struct TaskView {
    pub id: u128,
    pub name: Seq<char>,
    pub source_path: Seq<char>,
    pub trigger: TriggerView,
    pub destinations: Seq<DestinationView>,
    pub kind: SyncTaskKind,
}

impl View for SyncTask {
    type V = TaskView;

    open spec fn view(&self) -> TaskView {
        TaskView {
            id: self.id,
            name: self.name@,
            source_path: self.source_path@,
            trigger: self.trigger@,
            destinations: destination_views(self.destinations@),
            kind: self.kind,
        }
    }
}

/// The views of a list of tasks.
pub open spec fn task_views(tasks: Seq<SyncTask>) -> Seq<TaskView> {
    Seq::new(tasks.len(), |i: int| tasks[i]@)
}

impl SyncTask {
    /// The same task again.
    pub fn copy(&self) -> (r: Self)
        ensures
            r@ == self@,
    {
        SyncTask {
            id: self.id,
            name: self.name.clone(),
            source_path: self.source_path.clone(),
            trigger: self.trigger.copy(),
            destinations: copy_destinations(&self.destinations),
            kind: self.kind,
        }
    }
}

/// The same tasks, one by one.
pub fn copy_tasks(tasks: &Vec<SyncTask>) -> (r: Vec<SyncTask>)
    ensures
        task_views(r@) == task_views(tasks@),
{
    let ghost views = task_views(tasks@);
    let mut out: Vec<SyncTask> = Vec::new();
    let mut i: usize = 0;
    while i < tasks.len()
        invariant
            i <= tasks@.len(),
            views == task_views(tasks@),
            task_views(out@) == views.take(i as int),
        decreases tasks@.len() - i,
    {
        let copy = tasks[i].copy();
        proof {
            assert(task_views(out@.push(copy)) =~= task_views(out@).push(copy@));
            assert(views.take(i + 1) =~= views.take(i as int).push(copy@));
        }
        out.push(copy);
        i = i + 1;
    }
    proof {
        assert(views.take(tasks@.len() as int) =~= views);
    }
    out
}

/// A point in time and the offset it was written with.
#[derive(Debug, Clone, Copy, PartialEq, Eq, Structural)]
pub struct Moment {
    /// Seconds since 1970 in UTC.
    pub seconds: i64,
    pub nanoseconds: u32,
    /// East of UTC.
    pub offset_seconds: i32,
}

/// How one destination's last run went.
#[derive(Debug, PartialEq, Eq)]
pub struct DestinationSyncStatus {
    pub destination_id: u128,
    pub outcome: SyncOutcome,
    pub files_copied: i32,
    /// Files that were in use.
    pub files_deferred: i32,
    /// What the run said it stopped on.
    pub error: Option<String>,
    pub last_run: Option<Moment>,
}

impl DestinationSyncStatus {
    /// A status with nothing to report but its outcome.
    pub open spec fn plain(destination_id: u128, outcome: SyncOutcome) -> DestinationSyncStatus {
        DestinationSyncStatus {
            destination_id,
            outcome,
            files_copied: 0,
            files_deferred: 0,
            error: None,
            last_run: None,
        }
    }

    /// A status with nothing to report but its outcome.
    pub fn new(destination_id: u128, outcome: SyncOutcome) -> (r: Self)
        ensures
            r == DestinationSyncStatus::plain(destination_id, outcome),
    {
        DestinationSyncStatus {
            destination_id,
            outcome,
            files_copied: 0,
            files_deferred: 0,
            error: None,
            last_run: None,
        }
    }

    /// The status of a destination that has not run.
    pub fn never(destination_id: u128) -> (r: Self)
        ensures
            r == DestinationSyncStatus::plain(destination_id, SyncOutcome::Never),
    {
        DestinationSyncStatus::new(destination_id, SyncOutcome::Never)
    }

    /// The same status again.
    pub fn copy(&self) -> (r: Self)
        ensures
            r == *self,
    {
        DestinationSyncStatus {
            destination_id: self.destination_id,
            outcome: self.outcome,
            files_copied: self.files_copied,
            files_deferred: self.files_deferred,
            error: match &self.error {
                Some(error) => Some(error.clone()),
                None => None,
            },
            last_run: self.last_run,
        }
    }
}

/// What the settings page changes.
#[derive(Debug, PartialEq, Eq)]
pub struct AppSettings {
    pub close_to_tray: bool,
    pub start_minimized: bool,
    /// The pinned language, or none to follow the system.
    pub language: Option<String>,
}

/// What [`AppSettings`] say.
pub struct SettingsModel {
    pub close_to_tray: bool,
    pub start_minimized: bool,
    pub language: Option<Seq<char>>,
}

impl View for AppSettings {
    type V = SettingsModel;

    open spec fn view(&self) -> SettingsModel {
        SettingsModel {
            close_to_tray: self.close_to_tray,
            start_minimized: self.start_minimized,
            language: match self.language {
                Some(tag) => Some(tag@),
                None => None,
            },
        }
    }
}

impl Default for AppSettings {
    fn default() -> (r: Self)
        ensures
            r@ == (SettingsModel { close_to_tray: false, start_minimized: false, language: None }),
    {
        AppSettings { close_to_tray: false, start_minimized: false, language: None }
    }
}

impl AppSettings {
    /// The same settings again.
    pub fn copy(&self) -> (r: Self)
        ensures
            r == *self,
    {
        AppSettings {
            close_to_tray: self.close_to_tray,
            start_minimized: self.start_minimized,
            language: match &self.language {
                Some(tag) => Some(tag.clone()),
                None => None,
            },
        }
    }

    /// Whether two settings say the same.
    pub fn same(&self, other: &AppSettings) -> (r: bool)
        ensures
            r == (self@ == other@),
    {
        let language = match (&self.language, &other.language) {
            (Some(a), Some(b)) => same_text(a.as_str(), b.as_str()),
            (None, None) => true,
            _ => false,
        };
        self.close_to_tray == other.close_to_tray && self.start_minimized == other.start_minimized
            && language
    }
}

} // verus!
