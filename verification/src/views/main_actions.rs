//! What is done to the tasks from the main window: saving, deleting, reviewing, running.

use crate::components::icon::Glyph;
use crate::i18n::text;
use crate::model;
use crate::model::{Destination, DestinationSyncStatus, DestinationView, Moment, SyncTask, TaskView};
use crate::search;
use crate::services::logging;
use crate::services::logging::{log_destination, Level};
use crate::state::health;
use crate::state::health::health_of;
use crate::state::overlap;
use crate::state::overlap::run_conflict;
use crate::state::workspace;
use crate::state::workspace::WorkspaceView;
use crate::strings;
use crate::strings::Language;
use crate::text::owned;
use crate::views::main_view;
use crate::views::main_view::{
    Deleted, MainModel, MainView, Review, RunEnd, RunPlan, RunRequest,
};
use crate::views::mirror_delete::MirrorDeleteDecision;
use crate::views::task_card;
use crate::views::task_card::{
    describe_progress, outcome_appearance, task_card, CardFacts, ProgressReport, TaskCard, Tone,
};
use std::collections::{HashMap, HashSet};
use vstd::prelude::*;

verus! {

/// A destination has this identifier.
pub open spec fn is_destination(destinations: Seq<DestinationView>, id: u128) -> spec_fn(
    int,
) -> bool {
    |i: int| destinations[i].id == id
}

/// The deletions a user's answer approves: the one destination that was reviewed, for this run
/// only. Nothing is approved by any other answer.
pub open spec fn approval(decision: MirrorDeleteDecision, destination: u128) -> Option<Set<u128>> {
    if decision is Delete {
        Some(Set::<u128>::empty().insert(destination))
    } else {
        None
    }
}

/// The view of an approval.
pub open spec fn approved(approval: Option<HashSet<u128>>) -> Option<Set<u128>> {
    match approval {
        Some(ids) => Some(ids@),
        None => None,
    }
}

/// The run of the task at an index has begun: the plan is about that task and holds what its rows
/// read before, and the rows read "running".
pub open spec fn begun(before: MainModel, index: int, plan: RunPlan, after: MainModel) -> bool {
    &&& plan.task@ == before.workspace.tasks[index]
    &&& plan.before@ == workspace::snapshot(before.workspace.statuses, plan.task.destinations@)
    &&& after == (MainModel {
        workspace: WorkspaceView {
            statuses: workspace::running(before.workspace.statuses, plan.task.destinations@),
            ..before.workspace
        },
        ..before
    })
}

/// What follows from a preview of deletions.
pub fn after_preview(count: usize) -> (r: Review)
    ensures
        r == if count == 0 {
            Review::Run
        } else {
            Review::Ask
        },
{
    if count == 0 {
        Review::Run
    } else {
        Review::Ask
    }
}

/// The deletions a user's answer approves, if it approves any.
pub fn after_answer(decision: MirrorDeleteDecision, destination: u128) -> (r: Option<HashSet<u128>>)
    ensures
        approved(r) == approval(decision, destination),
{
    broadcast use vstd::std_specs::hash::group_hash_axioms;

    if decision == MirrorDeleteDecision::Delete {
        let mut ids: HashSet<u128> = HashSet::new();
        ids.insert(destination);
        proof {
            assert(ids@ =~= Set::<u128>::empty().insert(destination));
        }
        Some(ids)
    } else {
        None
    }
}

/// Takes the destinations of one identifier out of a list.
fn keep_others(destinations: &Vec<Destination>, id: u128) -> (r: Vec<Destination>)
    ensures
        model::destination_views(r@) == main_view::other_destinations(
            model::destination_views(destinations@),
            id,
        ),
{
    let ghost views = model::destination_views(destinations@);
    let mut out: Vec<Destination> = Vec::new();
    let mut i: usize = 0;
    proof {
        assert(model::destination_views(out@) =~= Seq::empty());
    }
    while i < destinations.len()
        invariant
            i <= destinations@.len(),
            views == model::destination_views(destinations@),
            model::destination_views(out@) == main_view::other_destinations(
                views.take(i as int),
                id,
            ),
        decreases destinations@.len() - i,
    {
        proof {
            assert(views.take(i + 1).drop_last() =~= views.take(i as int));
            assert(views.take(i + 1).last() == destinations@[i as int]@);
        }
        if destinations[i].id != id {
            let copy = destinations[i].copy();
            proof {
                assert(model::destination_views(out@.push(copy)) =~= model::destination_views(
                    out@,
                ).push(copy@));
            }
            out.push(copy);
        }
        i = i + 1;
    }
    proof {
        assert(views.take(destinations@.len() as int) =~= views);
    }
    out
}

impl MainView {
    /// Replaces the task's destination list wholesale. Wholesale rather than one at a time,
    /// because for a Move task the order is the matching order: a merge that preserved the old
    /// positions would silently undo a reorder the user just made.
    ///
    /// True when tasks and statuses have to be written.
    pub fn save_destinations(&mut self, task_id: u128, destinations: Vec<Destination>) -> (r: bool)
        ensures
            match workspace::index_of(old(self)@.workspace.tasks, task_id) {
                Some(i) => {
                    &&& r == !old(self)@.workspace.config_unreadable
                    &&& final(self)@ == (MainModel {
                        workspace: old(self)@.workspace.upserted(
                            (TaskView {
                                destinations: model::destination_views(destinations@),
                                ..old(self)@.workspace.tasks[i]
                            }),
                        ).pruned(),
                        ..old(self)@
                    })
                },
                None => {
                    &&& !r
                    &&& *final(self) == *old(self)
                },
            },
    {
        let mut task = match self.workspace.task(task_id) {
            Some(task) => task.copy(),
            None => {
                return false;
            },
        };
        task.destinations = destinations;
        let _ = self.workspace.upsert_task(task);
        // Statuses of destinations that are gone go with them.
        self.workspace.persist_statuses()
    }

    /// Takes one destination out of a task. True when tasks and statuses have to be written.
    pub fn delete_destination(&mut self, task_id: u128, destination_id: u128) -> (r: bool)
        ensures
            match workspace::index_of(old(self)@.workspace.tasks, task_id) {
                Some(i) => {
                    &&& r == !old(self)@.workspace.config_unreadable
                    &&& final(self)@ == (MainModel {
                        workspace: old(self)@.workspace.upserted(
                            (TaskView {
                                destinations: main_view::other_destinations(
                                    old(self)@.workspace.tasks[i].destinations,
                                    destination_id,
                                ),
                                ..old(self)@.workspace.tasks[i]
                            }),
                        ).pruned(),
                        ..old(self)@
                    })
                },
                None => {
                    &&& !r
                    &&& *final(self) == *old(self)
                },
            },
    {
        let destinations = match self.workspace.task(task_id) {
            Some(task) => keep_others(&task.destinations, destination_id),
            None => {
                return false;
            },
        };
        self.save_destinations(task_id, destinations)
    }

    /// Takes a task out with everything that is keyed to it. Its gate has to be closed first: a
    /// task that is mid-run must not keep writing after it is gone.
    pub fn delete_task(&mut self, task_id: u128) -> (r: Deleted)
        ensures
            r.runner == old(self)@.triggers.contains_key(task_id),
            r.write == !old(self)@.workspace.config_unreadable,
            final(self)@ == (MainModel {
                workspace: old(self)@.workspace.removed(task_id).pruned(),
                triggers: old(self)@.triggers.remove(task_id),
                trigger_errors: old(self)@.trigger_errors.remove(task_id),
                next_runs: old(self)@.next_runs.remove(task_id),
                progress: old(self)@.progress,
            }),
    {
        broadcast use vstd::std_specs::hash::group_hash_axioms;

        let runner = self.triggers.stop(task_id);
        let _ = self.trigger_errors.remove(&task_id);
        let _ = self.next_runs.remove(&task_id);
        let write = self.workspace.remove_task(task_id);
        proof {
            assert(self@.trigger_errors =~= old(self)@.trigger_errors.remove(task_id));
        }
        Deleted { runner, write }
    }

    /// What to preview before a destination's deletions are reviewed: its task, and where in the
    /// task it stands. Nothing when either is gone.
    pub fn review_deletions(&self, task_id: u128, destination_id: u128) -> (r: Option<
        (SyncTask, usize),
    >)
        ensures
            match workspace::index_of(self@.workspace.tasks, task_id) {
                Some(i) => {
                    let task = self@.workspace.tasks[i];
                    match search::first(
                        task.destinations.len(),
                        is_destination(task.destinations, destination_id),
                    ) {
                        Some(d) => {
                            &&& r matches Some(found) && found.0@ == task && found.1 == d
                        },
                        None => r is None,
                    }
                },
                None => r is None,
            },
    {
        let task = match self.workspace.task(task_id) {
            Some(task) => task.copy(),
            None => {
                return None;
            },
        };
        let ghost holds = is_destination(task@.destinations, destination_id);
        let mut i: usize = 0;
        while i < task.destinations.len()
            invariant
                i <= task.destinations@.len(),
                holds == is_destination(task@.destinations, destination_id),
                workspace::index_of(self@.workspace.tasks, task_id) is Some,
                task@ == self@.workspace.tasks[workspace::index_of(
                    self@.workspace.tasks,
                    task_id,
                )->0],
                forall|k: int| 0 <= k < i ==> !(#[trigger] holds(k)),
            decreases task.destinations@.len() - i,
        {
            if task.destinations[i].id == destination_id {
                proof {
                    search::lemma_found(i as int, task@.destinations.len(), holds);
                }
                return Some((task, i));
            }
            i = i + 1;
        }
        proof {
            search::lemma_absent(task@.destinations.len(), holds);
        }
        None
    }

    /// Asks for a run. The rules about the task list are checked again here, because a list edited
    /// by hand never went through the editors: a task that shares an end with another is refused,
    /// and nothing is touched. `sources` says which tasks' sources overlap this one's, and
    /// `destinations`, for each of its destinations, which destinations of which tasks do.
    pub fn request_run(
        &mut self,
        task_id: u128,
        sources: &Vec<bool>,
        destinations: &Vec<Vec<Vec<bool>>>,
    ) -> (r: RunRequest)
        requires
            match workspace::index_of(old(self)@.workspace.tasks, task_id) {
                Some(i) => {
                    &&& sources@.len() == old(self).workspace.tasks@.len()
                    &&& overlap::covers_each(
                        destinations@,
                        old(self).workspace.tasks@,
                        old(self).workspace.tasks@[i],
                    )
                },
                None => true,
            },
        ensures
            match workspace::index_of(old(self)@.workspace.tasks, task_id) {
                Some(i) => match overlap::run_conflict_name(
                    old(self).workspace.tasks@,
                    old(self).workspace.tasks@[i],
                    sources@,
                    destinations@,
                ) {
                    Some(other) => {
                        &&& r matches RunRequest::Refused(conflict) && conflict.task_name@ == other
                        &&& *final(self) == *old(self)
                    },
                    None => r matches RunRequest::Begun(plan) && begun(
                        old(self)@,
                        i,
                        plan,
                        final(self)@,
                    ),
                },
                None => {
                    &&& r is Gone
                    &&& *final(self) == *old(self)
                },
            },
    {
        let index: usize = match self.workspace.position(task_id) {
            Some(index) => index,
            None => {
                return RunRequest::Gone;
            },
        };
        let conflict = run_conflict(
            &self.workspace.tasks,
            &self.workspace.tasks[index],
            sources,
            destinations,
        );
        if let Some(conflict) = conflict {
            return RunRequest::Refused(conflict);
        }
        match self.begin_run(task_id) {
            Some(plan) => RunRequest::Begun(plan),
            None => RunRequest::Gone,
        }
    }

    /// Begins a run: its rows read "running" from here on. Nothing when the task is gone.
    pub fn begin_run(&mut self, task_id: u128) -> (r: Option<RunPlan>)
        ensures
            match workspace::index_of(old(self)@.workspace.tasks, task_id) {
                Some(i) => r matches Some(plan) && begun(old(self)@, i, plan, final(self)@),
                None => {
                    &&& r is None
                    &&& *final(self) == *old(self)
                },
            },
    {
        let task = match self.workspace.task(task_id) {
            Some(task) => task.copy(),
            None => {
                return None;
            },
        };
        let before = self.workspace.status_snapshot(&task);
        self.workspace.mark_running(&task);
        Some(RunPlan { task, before })
    }

    /// Takes a run's outcome in. Cancellation is not a failure: what landed stays, and the rows go
    /// back to what they said before rather than inventing an outcome.
    pub fn finish_run(
        &mut self,
        plan: &RunPlan,
        outcome: Option<Vec<DestinationSyncStatus>>,
    ) -> (r: RunEnd)
        ensures
            match outcome {
                Some(statuses) => {
                    &&& r.write == !old(self)@.workspace.config_unreadable
                    &&& r.lines@.len() == statuses@.len()
                    &&& forall|i: int|
                        0 <= i < r.lines@.len() ==> (#[trigger] r.lines@[i]).0
                            == if logging::is_trouble(statuses@[i].outcome) {
                            Level::WARN
                        } else {
                            Level::INFO
                        } && r.lines@[i].1@ == logging::run_message(plan.task, statuses@[i])
                    &&& final(self)@ == (MainModel {
                        workspace: (WorkspaceView {
                            statuses: workspace::put(
                                old(self)@.workspace.statuses,
                                statuses@,
                            ),
                            ..old(self)@.workspace
                        }).pruned(),
                        progress: Map::empty(),
                        ..old(self)@
                    })
                },
                None => {
                    &&& !r.write
                    &&& r.lines@.len() == 0
                    &&& final(self)@ == (MainModel {
                        workspace: WorkspaceView {
                            statuses: workspace::put(
                                old(self)@.workspace.statuses,
                                plan.before@,
                            ),
                            ..old(self)@.workspace
                        },
                        progress: Map::empty(),
                        ..old(self)@
                    })
                },
            },
    {
        broadcast use vstd::std_specs::hash::group_hash_axioms;

        self.progress = HashMap::new();
        proof {
            assert(self@.progress =~= Map::empty());
        }
        let mut lines: Vec<(Level, String)> = Vec::new();
        match outcome {
            Some(statuses) => {
                let mut i: usize = 0;
                while i < statuses.len()
                    invariant
                        i <= statuses@.len(),
                        lines@.len() == i,
                        forall|k: int|
                            0 <= k < i ==> (#[trigger] lines@[k]).0 == if logging::is_trouble(
                                statuses@[k].outcome,
                            ) {
                                Level::WARN
                            } else {
                                Level::INFO
                            } && lines@[k].1@ == logging::run_message(plan.task, statuses@[k]),
                    decreases statuses@.len() - i,
                {
                    lines.push(log_destination(&plan.task, &statuses[i]));
                    i = i + 1;
                }
                let write = self.workspace.apply_statuses(statuses);
                RunEnd { write, lines }
            },
            None => {
                let mut before: Vec<DestinationSyncStatus> = Vec::new();
                let mut i: usize = 0;
                while i < plan.before.len()
                    invariant
                        i <= plan.before@.len(),
                        before@ == plan.before@.take(i as int),
                    decreases plan.before@.len() - i,
                {
                    before.push(plan.before[i].copy());
                    proof {
                        assert(plan.before@.take(i + 1) =~= plan.before@.take(i as int).push(
                            plan.before@[i as int],
                        ));
                    }
                    i = i + 1;
                }
                proof {
                    assert(plan.before@.take(plan.before@.len() as int) =~= plan.before@);
                }
                self.workspace.restore_statuses(before);
                RunEnd { write: false, lines }
            },
        }
    }

    /// A run reports how far it has come.
    pub fn note_progress(&mut self, words: &Language, report: &ProgressReport)
        requires
            words.wf(),
        ensures
            final(self)@ == (MainModel {
                progress: old(self)@.progress.insert(
                    report.destination_id,
                    task_card::progress_words(*words, *report),
                ),
                ..old(self)@
            }),
    {
        broadcast use vstd::std_specs::hash::group_hash_axioms;

        let line = describe_progress(words, report);
        let ghost said = line@;
        self.progress.insert(report.destination_id, line);
        proof {
            assert(self@.progress =~= old(self)@.progress.insert(report.destination_id, said));
        }
    }

    /// Selects a task, and says which card to bring into view. Scrolling keeps every card
    /// reachable; filtering the list to one would not.
    pub fn select_task(&mut self, task_id: u128) -> (r: Option<usize>)
        ensures
            search::place(r) == workspace::index_of(old(self)@.workspace.tasks, task_id),
            final(self)@ == (MainModel {
                workspace: WorkspaceView {
                    selected: Some(task_id),
                    expanded: old(self)@.workspace.expanded.insert(task_id),
                    ..old(self)@.workspace
                },
                ..old(self)@
            }),
    {
        self.workspace.select(task_id);
        self.workspace.position(task_id)
    }

    /// The tasks that "run all" runs: every one that has a destination. Each runs behind its own
    /// gate.
    pub fn runnable(&self) -> (r: Vec<u128>)
        ensures
            r@ == main_view::runnable_ids(self@.workspace.tasks),
    {
        let ghost tasks = self@.workspace.tasks;
        let mut out: Vec<u128> = Vec::new();
        let mut i: usize = 0;
        while i < self.workspace.tasks.len()
            invariant
                i <= self.workspace.tasks@.len(),
                tasks == self@.workspace.tasks,
                out@ == main_view::runnable_ids(tasks.take(i as int)),
            decreases self.workspace.tasks@.len() - i,
        {
            proof {
                assert(tasks.take(i + 1).drop_last() =~= tasks.take(i as int));
                assert(tasks.take(i + 1).last() == self.workspace.tasks@[i as int]@);
                assert(tasks[i as int].destinations.len()
                    == self.workspace.tasks@[i as int].destinations@.len());
            }
            if self.workspace.tasks[i].destinations.len() > 0 {
                out.push(self.workspace.tasks[i].id);
            }
            i = i + 1;
        }
        proof {
            assert(tasks.take(self.workspace.tasks@.len() as int) =~= tasks);
        }
        out
    }
}

/// A task's line in the sidebar.
#[derive(Debug, PartialEq, Eq)]
pub struct SidebarItem {
    pub id: u128,
    pub name: String,
    pub active: bool,
    /// Its health, as a dot.
    pub glyph: Glyph,
    pub tone: Tone,
}

/// What the sidebar shows. Collapsed, the rail holds its two sections and nothing else: the tasks
/// all draw the same glyph, so a rail of them would be a column of identical marks.
#[derive(Debug, PartialEq, Eq)]
pub struct SidebarFace {
    pub collapsed: bool,
    pub items: Vec<SidebarItem>,
}

/// What stands above the cards.
#[derive(Debug, PartialEq, Eq)]
pub struct HeaderFace {
    /// Whether pressing the toggle opens every card; otherwise it closes them.
    pub opens_all: bool,
    pub toggle: String,
    pub can_run_all: bool,
    /// Whether the config could not be read.
    pub config_unreadable: bool,
    /// What an empty list says.
    pub empty: Option<String>,
}

/// The line is a task's line in the sidebar.
pub open spec fn is_sidebar_item(
    task: SyncTask,
    statuses: Map<u128, DestinationSyncStatus>,
    selected: Option<u128>,
    item: SidebarItem,
) -> bool {
    &&& item.id == task.id
    &&& item.name@ == task.name@
    &&& item.active == (selected == Some(task.id))
    &&& (item.glyph, item.tone) == task_card::appearance(
        health::card_outcome(health::outcomes(task.destinations@, statuses)),
    )
}

impl MainView {
    /// What the sidebar shows.
    pub fn sidebar(&self) -> (r: SidebarFace)
        ensures
            r.collapsed == !self@.workspace.sidebar_visible,
            r.items@.len() == if r.collapsed {
                0
            } else {
                self.workspace.tasks@.len()
            },
            forall|i: int|
                0 <= i < r.items@.len() ==> is_sidebar_item(
                    self.workspace.tasks@[i],
                    self@.workspace.statuses,
                    self@.workspace.selected,
                    #[trigger] r.items@[i],
                ),
    {
        let collapsed = !self.workspace.sidebar_visible;
        let mut items: Vec<SidebarItem> = Vec::new();
        if !collapsed {
            let mut i: usize = 0;
            while i < self.workspace.tasks.len()
                invariant
                    i <= self.workspace.tasks@.len(),
                    items@.len() == i,
                    forall|k: int|
                        0 <= k < i ==> is_sidebar_item(
                            self.workspace.tasks@[k],
                            self@.workspace.statuses,
                            self@.workspace.selected,
                            #[trigger] items@[k],
                        ),
                decreases self.workspace.tasks@.len() - i,
            {
                let task = &self.workspace.tasks[i];
                let health = health_of(task, &self.workspace.statuses);
                let (glyph, tone) = outcome_appearance(health.outcome);
                let active = match self.workspace.selected {
                    Some(selected) => selected == task.id,
                    None => false,
                };
                items.push(
                    SidebarItem { id: task.id, name: task.name.clone(), active, glyph, tone },
                );
                i = i + 1;
            }
        }
        SidebarFace { collapsed, items }
    }

    /// What stands above the cards.
    pub fn header(&self, words: &Language) -> (r: HeaderFace)
        requires
            words.wf(),
        ensures
            r.opens_all == !self@.workspace.everything_open(),
            r.toggle@ == words.says(
                if r.opens_all {
                    strings::MAIN_EXPAND_ALL as int
                } else {
                    strings::MAIN_COLLAPSE_ALL as int
                },
            ),
            r.can_run_all == (main_view::runnable_ids(self@.workspace.tasks).len() > 0),
            r.config_unreadable == self@.workspace.config_unreadable,
            match r.empty {
                Some(said) => self@.workspace.tasks.len() == 0 && said@ == words.says(
                    strings::MAIN_EMPTY_STATE as int,
                ),
                None => self@.workspace.tasks.len() > 0,
            },
    {
        let opens_all = !self.workspace.all_expanded();
        let key: usize = if opens_all {
            strings::MAIN_EXPAND_ALL
        } else {
            strings::MAIN_COLLAPSE_ALL
        };
        HeaderFace {
            opens_all,
            toggle: owned(text(words, key)),
            can_run_all: self.runnable().len() > 0,
            config_unreadable: self.workspace.config_unreadable,
            empty: if self.workspace.tasks.len() == 0 {
                Some(owned(text(words, strings::MAIN_EMPTY_STATE)))
            } else {
                None
            },
        }
    }

    /// What a task's card shows.
    pub fn card(&self, words: &Language, index: usize, now: Moment) -> (r: TaskCard)
        requires
            words.wf(),
            index < self.workspace.tasks@.len(),
        ensures
            ({
                let task = self.workspace.tasks@[index as int];
                let errors = self.trigger_errors@;
                task_card::is_card(
                    *words,
                    task,
                    (CardFacts {
                        expanded: self@.workspace.expanded.contains(task.id),
                        statuses: &self.workspace.statuses,
                        progress: &self.progress,
                        trigger_error: if errors.contains_key(task.id) {
                            Some(&errors[task.id])
                        } else {
                            None
                        },
                        next_run: if self.next_runs@.contains_key(task.id) {
                            Some(self.next_runs@[task.id])
                        } else {
                            None
                        },
                        now,
                    }),
                    r,
                )
            }),
    {
        broadcast use vstd::std_specs::hash::group_hash_axioms;

        let task = &self.workspace.tasks[index];
        let facts = CardFacts {
            expanded: self.workspace.is_expanded(task.id),
            statuses: &self.workspace.statuses,
            progress: &self.progress,
            trigger_error: self.trigger_errors.get(&task.id),
            next_run: match self.next_runs.get(&task.id) {
                Some(next) => Some(*next),
                None => None,
            },
            now,
        };
        task_card(words, task, &facts)
    }
}

/// Deleting a task leaves nothing that is keyed to it.
pub proof fn law_a_deleted_task_leaves_nothing_behind(
    before: MainModel,
    after: MainModel,
    task_id: u128,
)
    requires
        after == (MainModel {
            workspace: before.workspace.removed(task_id).pruned(),
            triggers: before.triggers.remove(task_id),
            trigger_errors: before.trigger_errors.remove(task_id),
            next_runs: before.next_runs.remove(task_id),
            progress: before.progress,
        }),
    ensures
        !after.triggers.contains_key(task_id),
        !after.trigger_errors.contains_key(task_id),
        !after.next_runs.contains_key(task_id),
        !after.workspace.expanded.contains(task_id),
        after.workspace.selected != Some(task_id),
        workspace::index_of(after.workspace.tasks, task_id) is None,
{
    workspace::law_a_removed_task_is_gone(before.workspace.tasks, task_id);
}

/// What is left after a destination has been taken out is about others.
proof fn lemma_others(destinations: Seq<DestinationView>, id: u128)
    ensures
        forall|k: int|
            0 <= k < main_view::other_destinations(destinations, id).len() ==> (
            #[trigger] main_view::other_destinations(destinations, id)[k]).id != id,
    decreases destinations.len(),
{
    if destinations.len() > 0 {
        lemma_others(destinations.drop_last(), id);
    }
}

/// Deleting a destination leaves no status of it, unless another task has one of the same
/// identifier, and leaves the other tasks alone.
pub proof fn law_a_deleted_destination_leaves_no_status(
    before: WorkspaceView,
    task_id: u128,
    destination_id: u128,
)
    requires
        workspace::index_of(before.tasks, task_id) is Some,
        forall|j: int, d: int|
            0 <= j < before.tasks.len() && j != workspace::index_of(before.tasks, task_id)->0
                && 0 <= d < before.tasks[j].destinations.len() ==> (
            #[trigger] before.tasks[j].destinations[d]).id != destination_id,
    ensures
        ({
            let i = workspace::index_of(before.tasks, task_id)->0;
            let after = before.upserted(
                (TaskView {
                    destinations: main_view::other_destinations(
                        before.tasks[i].destinations,
                        destination_id,
                    ),
                    ..before.tasks[i]
                }),
            ).pruned();
            &&& !after.statuses.contains_key(destination_id)
            &&& after.tasks.len() == before.tasks.len()
            &&& forall|j: int|
                0 <= j < before.tasks.len() && j != i ==> #[trigger] after.tasks[j]
                    == before.tasks[j]
        }),
{
    let i = workspace::index_of(before.tasks, task_id)->0;
    let rest = main_view::other_destinations(before.tasks[i].destinations, destination_id);
    let task = TaskView { destinations: rest, ..before.tasks[i] };
    let after = before.upserted(task).pruned();
    search::lemma_first(before.tasks.len(), workspace::has_id(before.tasks, task_id));
    assert(before.tasks[i].id == task_id);
    lemma_others(before.tasks[i].destinations, destination_id);
    assert(after.tasks == before.tasks.update(i, task));
    assert(!workspace::is_destination(after.tasks, destination_id));
}

} // verus!
