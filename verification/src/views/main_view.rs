//! The main window: a task sidebar and the task list, and what happens to them.
//!
//! Runs, previews and trigger runners are carried out elsewhere; what they report comes in here,
//! and what has to be done next goes out.

use crate::i18n;
use crate::i18n::say1;
use crate::model;
use crate::model::{
    DestinationSyncStatus, DestinationView, Moment, SyncStrategy, SyncTask, SyncTaskKind, TaskView,
    Trigger,
};
use crate::search;
use crate::services::logging::Level;
use crate::state::overlap::Conflict;
use crate::state::triggers;
use crate::state::triggers::{Notification, RunningView, TriggerEvent, TriggerHost, TriggerStart};
use crate::state::workspace::{Workspace, WorkspaceView};
use crate::strings;
use crate::strings::Language;
use crate::text::same_text;
use std::collections::HashMap;
use vstd::prelude::*;

verus! {

/// The main window's content.
#[derive(Debug)]
pub struct MainView {
    pub workspace: Workspace,
    /// Live progress text per destination, replaced by the row's status when the run ends.
    pub progress: HashMap<u128, String>,
    /// The live trigger runners.
    pub triggers: TriggerHost,
    /// Why a task will not run automatically, keyed by task. Shown as an amber badge.
    pub trigger_errors: HashMap<u128, String>,
    /// When each scheduled task fires next, refreshed on a timer so the label stays honest.
    pub next_runs: HashMap<u128, Moment>,
}

/// What a [`MainView`] holds.
pub struct MainModel {
    pub workspace: WorkspaceView,
    pub progress: Map<u128, Seq<char>>,
    pub triggers: Map<u128, RunningView>,
    pub trigger_errors: Map<u128, Seq<char>>,
    pub next_runs: Map<u128, Moment>,
}

/// The texts of a map.
pub open spec fn map_texts(map: Map<u128, String>) -> Map<u128, Seq<char>> {
    map.map_values(|s: String| s@)
}

impl View for MainView {
    type V = MainModel;

    open spec fn view(&self) -> MainModel {
        MainModel {
            workspace: self.workspace@,
            progress: map_texts(self.progress@),
            triggers: self.triggers@,
            trigger_errors: map_texts(self.trigger_errors@),
            next_runs: self.next_runs@,
        }
    }
}

/// What the badges say after triggers were (re)started. A task that would not start is degraded to
/// manual-only, but said out loud: a task that silently never runs is the worst of the outcomes.
pub open spec fn noted(
    words: Language,
    errors: Map<u128, Seq<char>>,
    starts: Seq<TriggerStart>,
) -> Map<u128, Seq<char>>
    decreases starts.len(),
{
    if starts.len() == 0 {
        errors
    } else {
        let before = noted(words, errors, starts.drop_last());
        match starts.last().error {
            Some(reason) => before.insert(
                starts.last().task_id,
                i18n::said1(words, strings::TASK_TRIGGER_ERROR_START_FORMAT as int, reason@),
            ),
            None => before.remove(starts.last().task_id),
        }
    }
}

/// What bringing the runners in line reports.
pub open spec fn reported(
    host: Map<u128, RunningView>,
    tasks: Seq<SyncTask>,
    failures: Seq<Option<String>>,
) -> Seq<TriggerStart> {
    let order = triggers::restarts(host, tasks, tasks.len() as int);
    Seq::new(
        failures.len(),
        |k: int| TriggerStart { task_id: tasks[order[k]].id, error: failures[k] },
    )
}

/// When the scheduled tasks among the first `n` fire next.
pub open spec fn scheduled_runs(
    tasks: Seq<TaskView>,
    upcoming: Seq<Option<Moment>>,
    n: int,
) -> Map<u128, Moment>
    decreases n,
{
    if n <= 0 {
        Map::empty()
    } else {
        let before = scheduled_runs(tasks, upcoming, n - 1);
        if tasks[n - 1].trigger is Scheduled && upcoming[n - 1] is Some {
            before.insert(tasks[n - 1].id, upcoming[n - 1]->0)
        } else {
            before
        }
    }
}

/// A dialog asked for by name.
#[derive(Debug, Clone, Copy, PartialEq, Eq, Structural)]
pub enum DialogRequest {
    /// The task editor, for a task or for a new one.
    Task(Option<u128>),
    /// A task's workspace.
    Workspace { task: u128, expand: Option<u128>, start_with_new_rule: bool },
    /// The confirmation of a Mirror destination's deletions.
    MirrorDelete,
    Settings,
    /// A destination's own lines out of the log.
    Log { task: u128, destination: u128 },
    /// The confirmation of a task's deletion.
    Confirm(u128),
    /// There is nothing to show it for.
    Nothing,
    /// There is no such dialog.
    Unknown,
}

/// A task routes files.
pub open spec fn is_move(tasks: Seq<TaskView>) -> spec_fn(int) -> bool {
    |i: int| tasks[i].kind is Move
}

/// The dialog a name asks for. The routing view only exists for a Move task, so it names one
/// rather than taking whichever task happens to be first.
pub open spec fn dialog_for(tasks: Seq<TaskView>, name: Seq<char>) -> DialogRequest {
    let some = tasks.len() > 0;
    if name == "task"@ {
        DialogRequest::Task(None)
    } else if name == "task-edit"@ {
        if some {
            DialogRequest::Task(Some(tasks[0].id))
        } else {
            DialogRequest::Nothing
        }
    } else if name == "destination"@ {
        if some {
            DialogRequest::Workspace {
                task: tasks[0].id,
                expand: None,
                start_with_new_rule: true,
            }
        } else {
            DialogRequest::Nothing
        }
    } else if name == "destination-edit"@ {
        if some && tasks[0].destinations.len() > 0 {
            DialogRequest::Workspace {
                task: tasks[0].id,
                expand: Some(tasks[0].destinations[0].id),
                start_with_new_rule: false,
            }
        } else {
            DialogRequest::Nothing
        }
    } else if name == "workspace"@ {
        if some {
            DialogRequest::Workspace {
                task: tasks[0].id,
                expand: None,
                start_with_new_rule: false,
            }
        } else {
            DialogRequest::Nothing
        }
    } else if name == "routing"@ {
        match search::first(tasks.len(), is_move(tasks)) {
            Some(i) => DialogRequest::Workspace {
                task: tasks[i].id,
                expand: None,
                start_with_new_rule: false,
            },
            None => DialogRequest::Nothing,
        }
    } else if name == "mirror-delete"@ {
        DialogRequest::MirrorDelete
    } else if name == "settings"@ {
        DialogRequest::Settings
    } else if name == "log"@ {
        if some && tasks[0].destinations.len() > 0 {
            DialogRequest::Log { task: tasks[0].id, destination: tasks[0].destinations[0].id }
        } else {
            DialogRequest::Nothing
        }
    } else if name == "confirm"@ {
        if some {
            DialogRequest::Confirm(tasks[0].id)
        } else {
            DialogRequest::Nothing
        }
    } else {
        DialogRequest::Unknown
    }
}

/// The places of the Mirror destinations among the first `n` of one task.
pub open spec fn mirrors_of(task: int, destinations: Seq<DestinationView>, n: int) -> Seq<
    (int, int),
>
    decreases n,
{
    if n <= 0 {
        Seq::empty()
    } else if destinations[n - 1].strategy is Mirror {
        mirrors_of(task, destinations, n - 1).push((task, n - 1))
    } else {
        mirrors_of(task, destinations, n - 1)
    }
}

/// The places of the Mirror destinations of the first `n` tasks, in order.
pub open spec fn mirrors(tasks: Seq<TaskView>, n: int) -> Seq<(int, int)>
    decreases n,
{
    if n <= 0 {
        Seq::empty()
    } else {
        mirrors(tasks, n - 1) + mirrors_of(
            n - 1,
            tasks[n - 1].destinations,
            tasks[n - 1].destinations.len() as int,
        )
    }
}

/// Executable places as mathematical ones.
pub open spec fn as_pairs(places: Seq<(usize, usize)>) -> Seq<(int, int)> {
    Seq::new(places.len(), |i: int| (places[i].0 as int, places[i].1 as int))
}

/// The destinations with another identifier, in order.
pub open spec fn other_destinations(destinations: Seq<DestinationView>, id: u128) -> Seq<
    DestinationView,
>
    decreases destinations.len(),
{
    if destinations.len() == 0 {
        Seq::empty()
    } else if destinations.last().id == id {
        other_destinations(destinations.drop_last(), id)
    } else {
        other_destinations(destinations.drop_last(), id).push(destinations.last())
    }
}

/// The tasks that have something to run, in order.
pub open spec fn runnable_ids(tasks: Seq<TaskView>) -> Seq<u128>
    decreases tasks.len(),
{
    if tasks.len() == 0 {
        Seq::empty()
    } else if tasks.last().destinations.len() > 0 {
        runnable_ids(tasks.drop_last()).push(tasks.last().id)
    } else {
        runnable_ids(tasks.drop_last())
    }
}

/// What a run needs.
#[derive(Debug)]
pub struct RunPlan {
    pub task: SyncTask,
    /// What the rows read before, so a cancelled run can put it back.
    pub before: Vec<DestinationSyncStatus>,
}

/// What came of asking for a run.
#[derive(Debug)]
pub enum RunRequest {
    /// There is no such task.
    Gone,
    /// Another task's paths mean this one must not run.
    Refused(Conflict),
    /// The run may go.
    Begun(RunPlan),
}

/// What is left to do after a run.
#[derive(Debug)]
pub struct RunEnd {
    /// Whether the statuses have to be written.
    pub write: bool,
    /// What goes to the log.
    pub lines: Vec<(Level, String)>,
}

/// What is left to do after a task was deleted.
#[derive(Debug, Clone, Copy, PartialEq, Eq, Structural)]
pub struct Deleted {
    /// Whether it had a trigger runner to stop.
    pub runner: bool,
    /// Whether tasks and statuses have to be written.
    pub write: bool,
}

/// What follows from a preview of deletions.
#[derive(Debug, Clone, Copy, PartialEq, Eq, Structural)]
pub enum Review {
    /// The situation resolved: there is nothing to confirm, and the run can simply go.
    Run,
    /// Ask the user.
    Ask,
}

impl MainView {
    /// A window on what was loaded, with no trigger started yet.
    pub fn new(workspace: Workspace) -> (r: Self)
        ensures
            r.workspace == workspace,
            r@ == (MainModel {
                workspace: workspace@,
                progress: Map::empty(),
                triggers: Map::empty(),
                trigger_errors: Map::empty(),
                next_runs: Map::empty(),
            }),
    {
        broadcast use vstd::std_specs::hash::group_hash_axioms;

        let r = MainView {
            workspace,
            progress: HashMap::new(),
            triggers: TriggerHost::new(),
            trigger_errors: HashMap::new(),
            next_runs: HashMap::new(),
        };
        proof {
            assert(r@.progress =~= Map::empty());
            assert(r@.trigger_errors =~= Map::empty());
            assert(r@.next_runs =~= Map::empty());
        }
        r
    }

    /// Says why a task will not run by itself.
    fn set_error(&mut self, id: u128, words: String)
        ensures
            final(self)@ == (MainModel {
                trigger_errors: old(self)@.trigger_errors.insert(id, words@),
                ..old(self)@
            }),
            final(self).workspace == old(self).workspace,
    {
        broadcast use vstd::std_specs::hash::group_hash_axioms;

        let ghost said = words@;
        self.trigger_errors.insert(id, words);
        proof {
            assert(self@.trigger_errors =~= old(self)@.trigger_errors.insert(id, said));
        }
    }

    /// Forgets why a task would not run by itself.
    fn clear_error(&mut self, id: u128)
        ensures
            final(self)@ == (MainModel {
                trigger_errors: old(self)@.trigger_errors.remove(id),
                ..old(self)@
            }),
            final(self).workspace == old(self).workspace,
    {
        broadcast use vstd::std_specs::hash::group_hash_axioms;

        let _ = self.trigger_errors.remove(&id);
        proof {
            assert(self@.trigger_errors =~= old(self)@.trigger_errors.remove(id));
        }
    }

    /// A trigger has something to say. Returns the task to run, if it fired.
    pub fn on_trigger(&mut self, words: &Language, event: TriggerEvent) -> (r: Option<u128>)
        requires
            words.wf(),
        ensures
            final(self).workspace == old(self).workspace,
            match event.notification {
                Notification::Fired => {
                    &&& r == Some(event.task_id)
                    &&& final(self)@ == old(self)@
                },
                Notification::Error(reason) => {
                    &&& r is None
                    &&& final(self)@ == (MainModel {
                        trigger_errors: old(self)@.trigger_errors.insert(
                            event.task_id,
                            i18n::said1(
                                *words,
                                strings::TASK_TRIGGER_ERROR_RECOVERABLE_FORMAT as int,
                                reason@,
                            ),
                        ),
                        ..old(self)@
                    })
                },
                Notification::Recovered => {
                    &&& r is None
                    &&& final(self)@ == (MainModel {
                        trigger_errors: old(self)@.trigger_errors.remove(event.task_id),
                        ..old(self)@
                    })
                },
            },
    {
        match event.notification {
            Notification::Fired => Some(event.task_id),
            // The reason stays as the system produced it; only the sentence around it is ours.
            Notification::Error(reason) => {
                self.set_error(
                    event.task_id,
                    say1(
                        words,
                        strings::TASK_TRIGGER_ERROR_RECOVERABLE_FORMAT,
                        reason.as_str(),
                    ),
                );
                None
            },
            Notification::Recovered => {
                self.clear_error(event.task_id);
                None
            },
        }
    }

    /// Brings the running triggers in line with the tasks, once the plan has been carried out.
    /// `failures` says, for each task of the plan, why it would not start, if it would not;
    /// `upcoming`, for each task, when its schedule next comes round.
    pub fn sync_triggers(
        &mut self,
        words: &Language,
        failures: &Vec<Option<String>>,
        upcoming: &Vec<Option<Moment>>,
    )
        requires
            words.wf(),
            failures@.len() == triggers::restarts(
                old(self)@.triggers,
                old(self).workspace.tasks@,
                old(self).workspace.tasks@.len() as int,
            ).len(),
            upcoming@.len() == old(self).workspace.tasks@.len(),
        ensures
            final(self).workspace == old(self).workspace,
            final(self)@ == ({
                let tasks = old(self).workspace.tasks@;
                let host = old(self)@.triggers;
                MainModel {
                    triggers: triggers::all_started(
                        triggers::kept(host, tasks),
                        tasks,
                        triggers::restarts(host, tasks, tasks.len() as int),
                        failures@,
                        failures@.len() as int,
                    ),
                    trigger_errors: noted(
                        *words,
                        old(self)@.trigger_errors,
                        reported(host, tasks, failures@),
                    ),
                    next_runs: scheduled_runs(
                        old(self)@.workspace.tasks,
                        upcoming@,
                        tasks.len() as int,
                    ),
                    ..old(self)@
                }
            }),
    {
        let starts = self.triggers.reconcile(&self.workspace.tasks, failures);
        let ghost middle = self@;
        let mut i: usize = 0;
        proof {
            assert(starts@ =~= reported(
                old(self)@.triggers,
                old(self).workspace.tasks@,
                failures@,
            ));
            assert(starts@.take(0) =~= Seq::empty());
        }
        while i < starts.len()
            invariant
                i <= starts@.len(),
                words.wf(),
                self.workspace == old(self).workspace,
                middle.trigger_errors == old(self)@.trigger_errors,
                self@ == (MainModel {
                    trigger_errors: noted(
                        *words,
                        old(self)@.trigger_errors,
                        starts@.take(i as int),
                    ),
                    ..middle
                }),
            decreases starts@.len() - i,
        {
            proof {
                assert(starts@.take(i + 1).drop_last() =~= starts@.take(i as int));
                assert(starts@.take(i + 1).last() == starts@[i as int]);
            }
            match &starts[i].error {
                Some(reason) => {
                    self.set_error(
                        starts[i].task_id,
                        say1(
                            words,
                            strings::TASK_TRIGGER_ERROR_START_FORMAT,
                            reason.as_str(),
                        ),
                    );
                },
                None => {
                    self.clear_error(starts[i].task_id);
                },
            }
            i = i + 1;
        }
        proof {
            assert(starts@.take(starts@.len() as int) =~= starts@);
        }
        self.refresh_next_runs(upcoming);
    }

    /// Takes in when each scheduled task fires next. A cron expression that will not parse, or has
    /// no future occurrence at all, simply has no next run.
    pub fn refresh_next_runs(&mut self, upcoming: &Vec<Option<Moment>>)
        requires
            upcoming@.len() == old(self).workspace.tasks@.len(),
        ensures
            final(self).workspace == old(self).workspace,
            final(self)@ == (MainModel {
                next_runs: scheduled_runs(
                    old(self)@.workspace.tasks,
                    upcoming@,
                    upcoming@.len() as int,
                ),
                ..old(self)@
            }),
    {
        broadcast use vstd::std_specs::hash::group_hash_axioms;

        let mut runs: HashMap<u128, Moment> = HashMap::new();
        let mut i: usize = 0;
        proof {
            assert(runs@ =~= Map::empty());
        }
        while i < upcoming.len()
            invariant
                i <= upcoming@.len(),
                *self == *old(self),
                upcoming@.len() == self.workspace.tasks@.len(),
                runs@ == scheduled_runs(self@.workspace.tasks, upcoming@, i as int),
            decreases upcoming@.len() - i,
        {
            proof {
                assert(self@.workspace.tasks[i as int] == self.workspace.tasks@[i as int]@);
            }
            let scheduled = match &self.workspace.tasks[i].trigger {
                Trigger::Scheduled { .. } => true,
                _ => false,
            };
            if let (true, Some(when)) = (scheduled, upcoming[i]) {
                runs.insert(self.workspace.tasks[i].id, when);
            }
            i = i + 1;
        }
        self.next_runs = runs;
    }

    /// Whether closing the window should hide it instead of quitting.
    pub fn close_to_tray(&self) -> (r: bool)
        ensures
            r == self@.workspace.settings.close_to_tray,
    {
        self.workspace.settings.close_to_tray
    }

    /// The dialog a name asks for. Several of these sit three clicks deep; checking one should not
    /// need those three clicks.
    pub fn show_dialog(&self, dialog: &str) -> (r: DialogRequest)
        ensures
            r == dialog_for(self@.workspace.tasks, dialog@),
    {
        let tasks = &self.workspace.tasks;
        let some = tasks.len() > 0;
        proof {
            if some {
                assert(self@.workspace.tasks[0] == tasks@[0]@);
            }
        }
        if same_text(dialog, "task") {
            return DialogRequest::Task(None);
        }
        if same_text(dialog, "task-edit") {
            return if some {
                DialogRequest::Task(Some(tasks[0].id))
            } else {
                DialogRequest::Nothing
            };
        }
        if same_text(dialog, "destination") {
            return if some {
                DialogRequest::Workspace {
                    task: tasks[0].id,
                    expand: None,
                    start_with_new_rule: true,
                }
            } else {
                DialogRequest::Nothing
            };
        }
        if same_text(dialog, "destination-edit") {
            return if some && tasks[0].destinations.len() > 0 {
                DialogRequest::Workspace {
                    task: tasks[0].id,
                    expand: Some(tasks[0].destinations[0].id),
                    start_with_new_rule: false,
                }
            } else {
                DialogRequest::Nothing
            };
        }
        if same_text(dialog, "workspace") {
            return if some {
                DialogRequest::Workspace {
                    task: tasks[0].id,
                    expand: None,
                    start_with_new_rule: false,
                }
            } else {
                DialogRequest::Nothing
            };
        }
        if same_text(dialog, "routing") {
            return match self.first_move() {
                Some(i) => DialogRequest::Workspace {
                    task: tasks[i].id,
                    expand: None,
                    start_with_new_rule: false,
                },
                None => DialogRequest::Nothing,
            };
        }
        if same_text(dialog, "mirror-delete") {
            return DialogRequest::MirrorDelete;
        }
        if same_text(dialog, "settings") {
            return DialogRequest::Settings;
        }
        if same_text(dialog, "log") {
            return if some && tasks[0].destinations.len() > 0 {
                DialogRequest::Log {
                    task: tasks[0].id,
                    destination: tasks[0].destinations[0].id,
                }
            } else {
                DialogRequest::Nothing
            };
        }
        if same_text(dialog, "confirm") {
            return if some {
                DialogRequest::Confirm(tasks[0].id)
            } else {
                DialogRequest::Nothing
            };
        }
        DialogRequest::Unknown
    }

    /// The first task that routes files.
    fn first_move(&self) -> (r: Option<usize>)
        ensures
            search::place(r) == search::first(
                self@.workspace.tasks.len(),
                is_move(self@.workspace.tasks),
            ),
            r is Some ==> r->0 < self.workspace.tasks@.len(),
    {
        let ghost holds = is_move(self@.workspace.tasks);
        let mut i: usize = 0;
        while i < self.workspace.tasks.len()
            invariant
                i <= self.workspace.tasks@.len(),
                holds == is_move(self@.workspace.tasks),
                forall|k: int| 0 <= k < i ==> !(#[trigger] holds(k)),
            decreases self.workspace.tasks@.len() - i,
        {
            if self.workspace.tasks[i].kind == SyncTaskKind::Move {
                proof {
                    search::lemma_found(i as int, self@.workspace.tasks.len(), holds);
                }
                return Some(i);
            }
            i = i + 1;
        }
        proof {
            search::lemma_absent(self@.workspace.tasks.len(), holds);
        }
        None
    }

    /// The Mirror destinations, in the order in which they are looked through for deletions to
    /// confirm: the task's index, and the destination's within it.
    pub fn mirror_candidates(&self) -> (r: Vec<(usize, usize)>)
        ensures
            as_pairs(r@) == mirrors(
                self@.workspace.tasks,
                self@.workspace.tasks.len() as int,
            ),
    {
        let ghost tasks = self@.workspace.tasks;
        let mut out: Vec<(usize, usize)> = Vec::new();
        let mut i: usize = 0;
        proof {
            assert(as_pairs(out@) =~= Seq::empty());
        }
        while i < self.workspace.tasks.len()
            invariant
                i <= self.workspace.tasks@.len(),
                tasks == self@.workspace.tasks,
                as_pairs(out@) == mirrors(tasks, i as int),
            decreases self.workspace.tasks@.len() - i,
        {
            let destinations = &self.workspace.tasks[i].destinations;
            let ghost own = tasks[i as int].destinations;
            let ghost front = as_pairs(out@);
            let mut j: usize = 0;
            proof {
                assert(front + mirrors_of(i as int, own, 0) =~= front);
            }
            while j < destinations.len()
                invariant
                    j <= destinations@.len(),
                    own == model::destination_views(destinations@),
                    as_pairs(out@) == front + mirrors_of(i as int, own, j as int),
                decreases destinations@.len() - j,
            {
                if destinations[j].strategy == SyncStrategy::Mirror {
                    proof {
                        assert(as_pairs(out@.push((i, j))) =~= as_pairs(out@).push(
                            (i as int, j as int),
                        ));
                        assert(front + mirrors_of(i as int, own, j as int).push(
                            (i as int, j as int),
                        ) =~= (front + mirrors_of(i as int, own, j as int)).push(
                            (i as int, j as int),
                        ));
                    }
                    out.push((i, j));
                }
                j = j + 1;
            }
            i = i + 1;
        }
        out
    }
}

/// A trigger that would not start says why on its task, one that started takes the badge away, and
/// no other task's badge changes.
pub proof fn law_a_trigger_that_will_not_start_says_so(
    words: Language,
    errors: Map<u128, Seq<char>>,
    starts: Seq<TriggerStart>,
)
    requires
        forall|a: int, b: int|
            0 <= a < b < starts.len() ==> (#[trigger] starts[a]).task_id != (
            #[trigger] starts[b]).task_id,
    ensures
        forall|k: int|
            0 <= k < starts.len() ==> match (#[trigger] starts[k]).error {
                Some(reason) => {
                    let after = noted(words, errors, starts);
                    &&& after.contains_key(starts[k].task_id)
                    &&& after[starts[k].task_id] == i18n::said1(
                        words,
                        strings::TASK_TRIGGER_ERROR_START_FORMAT as int,
                        reason@,
                    )
                },
                None => !noted(words, errors, starts).contains_key(starts[k].task_id),
            },
        forall|id: u128|
            (forall|k: int| 0 <= k < starts.len() ==> (#[trigger] starts[k]).task_id != id) ==> {
                &&& #[trigger] noted(words, errors, starts).contains_key(id)
                    == errors.contains_key(id)
                &&& errors.contains_key(id) ==> noted(words, errors, starts)[id] == errors[id]
            },
    decreases starts.len(),
{
    if starts.len() > 0 {
        let shorter = starts.drop_last();
        assert forall|a: int, b: int| 0 <= a < b < shorter.len() implies (
        #[trigger] shorter[a]).task_id != (#[trigger] shorter[b]).task_id by {
            assert(starts[a].task_id != starts[b].task_id);
        }
        law_a_trigger_that_will_not_start_says_so(words, errors, shorter);
        let after = noted(words, errors, starts);
        assert forall|k: int| 0 <= k < starts.len() implies match (#[trigger] starts[k]).error {
            Some(reason) => {
                &&& after.contains_key(starts[k].task_id)
                &&& after[starts[k].task_id] == i18n::said1(
                    words,
                    strings::TASK_TRIGGER_ERROR_START_FORMAT as int,
                    reason@,
                )
            },
            None => !after.contains_key(starts[k].task_id),
        } by {
            if k < shorter.len() {
                assert(shorter[k] == starts[k]);
                assert(starts[k].task_id != starts[starts.len() - 1].task_id);
            }
        }
        assert forall|id: u128|
            (forall|k: int|
                0 <= k < starts.len() ==> (#[trigger] starts[k]).task_id != id) implies {
            &&& #[trigger] after.contains_key(id) == errors.contains_key(id)
            &&& errors.contains_key(id) ==> after[id] == errors[id]
        } by {
            assert forall|k: int| 0 <= k < shorter.len() implies (
            #[trigger] shorter[k]).task_id != id by {
                assert(shorter[k] == starts[k]);
            }
            assert(starts[starts.len() - 1].task_id != id);
            assert(noted(words, errors, shorter).contains_key(id) == errors.contains_key(id));
        }
    }
}

} // verus!
