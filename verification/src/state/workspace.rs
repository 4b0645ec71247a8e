//! Everything the main window is showing.
//!
//! Changes that have to reach the disk say so in what they return; writing is the caller's.

use crate::model;
use crate::model::{
    AppSettings, Destination, DestinationSyncStatus, SettingsModel, SyncOutcome, SyncTask, TaskView,
};
use crate::search;
use crate::state::health;
use std::collections::{HashMap, HashSet};
use vstd::prelude::*;

verus! {

/// The loaded tasks, their last outcomes, and what the window is doing with them.
#[derive(Debug)]
pub struct Workspace {
    pub tasks: Vec<SyncTask>,
    pub statuses: HashMap<u128, DestinationSyncStatus>,
    pub settings: AppSettings,
    /// Config is on disk but could not be read. Saving would rotate the last good copy away, so
    /// persistence is switched off and the window says why.
    pub config_unreadable: bool,
    pub sidebar_visible: bool,
    pub expanded: HashSet<u128>,
    pub selected: Option<u128>,
}

/// What a [`Workspace`] holds.
pub struct WorkspaceView {
    pub tasks: Seq<TaskView>,
    pub statuses: Map<u128, DestinationSyncStatus>,
    pub settings: SettingsModel,
    pub config_unreadable: bool,
    pub sidebar_visible: bool,
    pub expanded: Set<u128>,
    pub selected: Option<u128>,
}

impl View for Workspace {
    type V = WorkspaceView;

    open spec fn view(&self) -> WorkspaceView {
        WorkspaceView {
            tasks: model::task_views(self.tasks@),
            statuses: self.statuses@,
            settings: self.settings@,
            config_unreadable: self.config_unreadable,
            sidebar_visible: self.sidebar_visible,
            expanded: self.expanded@,
            selected: self.selected,
        }
    }
}

/// The identifiers of the tasks.
pub open spec fn task_ids(tasks: Seq<TaskView>) -> Set<u128> {
    Set::new(|id: u128| exists|i: int| 0 <= i < tasks.len() && (#[trigger] tasks[i]).id == id)
}

/// Some task has this destination.
pub open spec fn is_destination(tasks: Seq<TaskView>, id: u128) -> bool {
    exists|i: int, j: int|
        0 <= i < tasks.len() && 0 <= j < tasks[i].destinations.len()
            && (#[trigger] tasks[i].destinations[j]).id == id
}

/// The identifiers of every task's destinations.
pub open spec fn live_destinations(tasks: Seq<TaskView>) -> Set<u128> {
    Set::new(|id: u128| is_destination(tasks, id))
}

/// A task has this identifier.
pub open spec fn has_id(tasks: Seq<TaskView>, id: u128) -> spec_fn(int) -> bool {
    |i: int| tasks[i].id == id
}

/// The index of the first task with this identifier.
pub open spec fn index_of(tasks: Seq<TaskView>, id: u128) -> Option<int> {
    search::first(tasks.len(), has_id(tasks, id))
}

/// The tasks without those of one identifier, in order.
pub open spec fn without(tasks: Seq<TaskView>, id: u128) -> Seq<TaskView>
    decreases tasks.len(),
{
    if tasks.len() == 0 {
        Seq::empty()
    } else if tasks.last().id == id {
        without(tasks.drop_last(), id)
    } else {
        without(tasks.drop_last(), id).push(tasks.last())
    }
}

/// A destination of the task has this identifier.
pub open spec fn owns(destinations: Seq<Destination>, id: u128) -> bool {
    exists|i: int| 0 <= i < destinations.len() && (#[trigger] destinations[i]).id == id
}

/// What every destination of a task reads.
pub open spec fn snapshot(
    statuses: Map<u128, DestinationSyncStatus>,
    destinations: Seq<Destination>,
) -> Seq<DestinationSyncStatus> {
    Seq::new(
        destinations.len(),
        |i: int|
            if statuses.contains_key(destinations[i].id) {
                statuses[destinations[i].id]
            } else {
                DestinationSyncStatus::plain(destinations[i].id, SyncOutcome::Never)
            },
    )
}

/// The statuses with each of the list's in place of the destination's old one, the later of two
/// winning.
pub open spec fn put(
    statuses: Map<u128, DestinationSyncStatus>,
    list: Seq<DestinationSyncStatus>,
) -> Map<u128, DestinationSyncStatus>
    decreases list.len(),
{
    if list.len() == 0 {
        statuses
    } else {
        put(statuses, list.drop_last()).insert(list.last().destination_id, list.last())
    }
}

/// The statuses with every destination of a task running.
pub open spec fn running(
    statuses: Map<u128, DestinationSyncStatus>,
    destinations: Seq<Destination>,
) -> Map<u128, DestinationSyncStatus> {
    Map::new(
        |id: u128| statuses.contains_key(id) || owns(destinations, id),
        |id: u128|
            if owns(destinations, id) {
                DestinationSyncStatus::plain(id, SyncOutcome::Running)
            } else {
                statuses[id]
            },
    )
}

impl WorkspaceView {
    /// The workspace after a task was added, or put in place of the one with its identifier.
    pub open spec fn upserted(self, task: TaskView) -> WorkspaceView {
        match index_of(self.tasks, task.id) {
            Some(i) => WorkspaceView { tasks: self.tasks.update(i, task), ..self },
            None => WorkspaceView {
                tasks: self.tasks.push(task),
                expanded: self.expanded.insert(task.id),
                ..self
            },
        }
    }

    /// The workspace after a task and everything keyed to it was removed.
    pub open spec fn removed(self, id: u128) -> WorkspaceView {
        WorkspaceView {
            tasks: without(self.tasks, id),
            expanded: self.expanded.remove(id),
            selected: if self.selected == Some(id) {
                None
            } else {
                self.selected
            },
            ..self
        }
    }

    /// The workspace without the statuses of destinations that no longer exist.
    pub open spec fn pruned(self) -> WorkspaceView {
        WorkspaceView {
            statuses: self.statuses.restrict(live_destinations(self.tasks)),
            ..self
        }
    }

    /// Every task is open, and there is one.
    pub open spec fn everything_open(self) -> bool {
        self.tasks.len() > 0 && forall|i: int|
            0 <= i < self.tasks.len() ==> self.expanded.contains((#[trigger] self.tasks[i]).id)
    }
}

impl Workspace {
    /// A workspace showing what was loaded. Every task starts expanded.
    pub fn load(
        tasks: Vec<SyncTask>,
        config_unreadable: bool,
        statuses: HashMap<u128, DestinationSyncStatus>,
        settings: AppSettings,
    ) -> (r: Self)
        ensures
            r@ == (WorkspaceView {
                tasks: model::task_views(tasks@),
                statuses: statuses@,
                settings: settings@,
                config_unreadable,
                sidebar_visible: true,
                expanded: task_ids(model::task_views(tasks@)),
                selected: None,
            }),
    {
        let expanded = ids_of(&tasks);
        Workspace {
            tasks,
            statuses,
            settings,
            config_unreadable,
            sidebar_visible: true,
            expanded,
            selected: None,
        }
    }

    pub fn tasks(&self) -> (r: &Vec<SyncTask>)
        ensures
            *r == self.tasks,
    {
        &self.tasks
    }

    pub fn statuses(&self) -> (r: &HashMap<u128, DestinationSyncStatus>)
        ensures
            *r == self.statuses,
    {
        &self.statuses
    }

    pub fn settings(&self) -> (r: &AppSettings)
        ensures
            *r == self.settings,
    {
        &self.settings
    }

    pub fn config_unreadable(&self) -> (r: bool)
        ensures
            r == self@.config_unreadable,
    {
        self.config_unreadable
    }

    pub fn sidebar_visible(&self) -> (r: bool)
        ensures
            r == self@.sidebar_visible,
    {
        self.sidebar_visible
    }

    /// Folds the sidebar away, or brings it back.
    pub fn toggle_sidebar(&mut self)
        ensures
            final(self)@ == (WorkspaceView {
                sidebar_visible: !old(self)@.sidebar_visible,
                ..old(self)@
            }),
    {
        self.sidebar_visible = !self.sidebar_visible;
    }

    pub fn selected(&self) -> (r: Option<u128>)
        ensures
            r == self@.selected,
    {
        self.selected
    }

    /// Selecting a task also opens it, so the card the sidebar scrolls to is readable.
    pub fn select(&mut self, task_id: u128)
        ensures
            final(self)@ == (WorkspaceView {
                selected: Some(task_id),
                expanded: old(self)@.expanded.insert(task_id),
                ..old(self)@
            }),
    {
        broadcast use vstd::std_specs::hash::group_hash_axioms;

        self.selected = Some(task_id);
        self.expanded.insert(task_id);
    }

    pub fn is_expanded(&self, task_id: u128) -> (r: bool)
        ensures
            r == self@.expanded.contains(task_id),
    {
        broadcast use vstd::std_specs::hash::group_hash_axioms;

        self.expanded.contains(&task_id)
    }

    /// Opens a closed card, and closes an open one.
    pub fn toggle_expanded(&mut self, task_id: u128)
        ensures
            final(self)@ == (WorkspaceView {
                expanded: if old(self)@.expanded.contains(task_id) {
                    old(self)@.expanded.remove(task_id)
                } else {
                    old(self)@.expanded.insert(task_id)
                },
                ..old(self)@
            }),
    {
        broadcast use vstd::std_specs::hash::group_hash_axioms;

        if self.expanded.contains(&task_id) {
            self.expanded.remove(&task_id);
        } else {
            self.expanded.insert(task_id);
        }
    }

    /// True when every task is open and there is one, which is what the header button offers to
    /// change.
    pub fn all_expanded(&self) -> (r: bool)
        ensures
            r == self@.everything_open(),
    {
        broadcast use vstd::std_specs::hash::group_hash_axioms;

        let mut i: usize = 0;
        while i < self.tasks.len()
            invariant
                i <= self.tasks@.len(),
                forall|k: int|
                    0 <= k < i ==> self@.expanded.contains((#[trigger] self@.tasks[k]).id),
            decreases self.tasks@.len() - i,
        {
            proof {
                assert(self@.tasks[i as int].id == self.tasks@[i as int].id);
            }
            if !self.expanded.contains(&self.tasks[i].id) {
                return false;
            }
            i = i + 1;
        }
        self.tasks.len() > 0
    }

    /// Opens every card, or closes every card.
    pub fn set_all_expanded(&mut self, expanded: bool)
        ensures
            final(self)@ == (WorkspaceView {
                expanded: if expanded {
                    task_ids(old(self)@.tasks)
                } else {
                    Set::empty()
                },
                ..old(self)@
            }),
    {
        if expanded {
            self.expanded = ids_of(&self.tasks);
        } else {
            self.expanded.clear();
        }
    }

    /// The index of the task with this id, if it is still here.
    pub fn position(&self, task_id: u128) -> (r: Option<usize>)
        ensures
            search::place(r) == index_of(self@.tasks, task_id),
            r is Some ==> r->0 < self.tasks@.len() && self.tasks@[r->0 as int].id == task_id,
    {
        let ghost holds = has_id(self@.tasks, task_id);
        let mut i: usize = 0;
        while i < self.tasks.len()
            invariant
                i <= self.tasks@.len(),
                holds == has_id(self@.tasks, task_id),
                forall|k: int| 0 <= k < i ==> !(#[trigger] holds(k)),
            decreases self.tasks@.len() - i,
        {
            if self.tasks[i].id == task_id {
                proof {
                    search::lemma_found(i as int, self@.tasks.len(), holds);
                }
                return Some(i);
            }
            i = i + 1;
        }
        proof {
            search::lemma_absent(self@.tasks.len(), holds);
        }
        None
    }

    /// The task with this id, if it is still here.
    pub fn task(&self, task_id: u128) -> (r: Option<&SyncTask>)
        ensures
            match (r, index_of(self@.tasks, task_id)) {
                (Some(task), Some(i)) => task@ == self@.tasks[i] && task.id == task_id,
                (None, None) => true,
                _ => false,
            },
    {
        match self.position(task_id) {
            Some(i) => Some(&self.tasks[i]),
            None => None,
        }
    }

    /// Adds a task, or replaces the one with the same id. True when the list has to be written.
    pub fn upsert_task(&mut self, task: SyncTask) -> (r: bool)
        ensures
            final(self)@ == old(self)@.upserted(task@),
            r == !old(self)@.config_unreadable,
    {
        broadcast use vstd::std_specs::hash::group_hash_axioms;

        let ghost view = task@;
        match self.position(task.id) {
            Some(i) => {
                self.tasks.set(i, task);
                proof {
                    assert(self@.tasks =~= old(self)@.tasks.update(i as int, view));
                }
            },
            None => {
                self.expanded.insert(task.id);
                self.tasks.push(task);
                proof {
                    assert(self@.tasks =~= old(self)@.tasks.push(view));
                }
            },
        }
        self.persist_tasks()
    }

    /// Removes a task and everything keyed to it. True when tasks and statuses have to be
    /// written.
    pub fn remove_task(&mut self, task_id: u128) -> (r: bool)
        ensures
            final(self)@ == old(self)@.removed(task_id).pruned(),
            r == !old(self)@.config_unreadable,
    {
        broadcast use vstd::std_specs::hash::group_hash_axioms;

        let mut rest: Vec<SyncTask> = Vec::new();
        std::mem::swap(&mut rest, &mut self.tasks);
        self.tasks = remove_id(rest, task_id);
        self.expanded.remove(&task_id);
        if let Some(selected) = self.selected {
            if selected == task_id {
                self.selected = None;
            }
        }
        self.persist_statuses()
    }

    /// What every destination of `task` currently reads, so a cancelled run can put it back.
    ///
    /// A cancelled run is not a failure: the work that landed stays, and the rows go back to what
    /// they said before rather than reporting something that never finished.
    pub fn status_snapshot(&self, task: &SyncTask) -> (r: Vec<DestinationSyncStatus>)
        ensures
            r@ == snapshot(self@.statuses, task.destinations@),
    {
        broadcast use vstd::std_specs::hash::group_hash_axioms;

        let ghost whole = snapshot(self@.statuses, task.destinations@);
        let mut out: Vec<DestinationSyncStatus> = Vec::new();
        let mut i: usize = 0;
        while i < task.destinations.len()
            invariant
                i <= task.destinations@.len(),
                whole == snapshot(self@.statuses, task.destinations@),
                out@ == whole.take(i as int),
            decreases task.destinations@.len() - i,
        {
            let id: u128 = task.destinations[i].id;
            let status = match self.statuses.get(&id) {
                Some(status) => status.copy(),
                None => DestinationSyncStatus::never(id),
            };
            proof {
                assert(whole.take(i + 1) =~= whole.take(i as int).push(status));
            }
            out.push(status);
            i = i + 1;
        }
        proof {
            assert(whole.take(task.destinations@.len() as int) =~= whole);
        }
        out
    }

    /// Puts every destination of `task` into the running state. Nothing is to be written: running
    /// is transient.
    pub fn mark_running(&mut self, task: &SyncTask)
        ensures
            final(self)@ == (WorkspaceView {
                statuses: running(old(self)@.statuses, task.destinations@),
                ..old(self)@
            }),
    {
        broadcast use vstd::std_specs::hash::group_hash_axioms;

        let ghost before = self.statuses@;
        let mut i: usize = 0;
        proof {
            assert(self.statuses@ =~= running(before, task.destinations@.take(0)));
        }
        while i < task.destinations.len()
            invariant
                i <= task.destinations@.len(),
                self@ == (WorkspaceView { statuses: self.statuses@, ..old(self)@ }),
                before == old(self)@.statuses,
                self.statuses@ == running(before, task.destinations@.take(i as int)),
            decreases task.destinations@.len() - i,
        {
            let id: u128 = task.destinations[i].id;
            self.statuses.insert(id, DestinationSyncStatus::new(id, SyncOutcome::Running));
            proof {
                lemma_owns_next(task.destinations@, i as int);
                assert(self.statuses@ =~= running(before, task.destinations@.take(i + 1)));
            }
            i = i + 1;
        }
        proof {
            assert(task.destinations@.take(task.destinations@.len() as int)
                =~= task.destinations@);
        }
    }

    /// Puts statuses in place of the old ones.
    fn put_statuses(&mut self, list: Vec<DestinationSyncStatus>)
        ensures
            final(self)@ == (WorkspaceView {
                statuses: put(old(self)@.statuses, list@),
                ..old(self)@
            }),
    {
        broadcast use vstd::std_specs::hash::group_hash_axioms;

        let ghost before = self.statuses@;
        let mut i: usize = 0;
        proof {
            assert(list@.take(0) =~= Seq::empty());
        }
        while i < list.len()
            invariant
                i <= list@.len(),
                self@ == (WorkspaceView { statuses: self.statuses@, ..old(self)@ }),
                self.statuses@ == put(before, list@.take(i as int)),
            decreases list@.len() - i,
        {
            let status = list[i].copy();
            proof {
                assert(list@.take(i + 1).drop_last() =~= list@.take(i as int));
            }
            self.statuses.insert(status.destination_id, status);
            i = i + 1;
        }
        proof {
            assert(list@.take(list@.len() as int) =~= list@);
        }
    }

    /// Puts statuses back, for a run that was cancelled. Nothing is to be written.
    pub fn restore_statuses(&mut self, statuses: Vec<DestinationSyncStatus>)
        ensures
            final(self)@ == (WorkspaceView {
                statuses: put(old(self)@.statuses, statuses@),
                ..old(self)@
            }),
    {
        self.put_statuses(statuses);
    }

    /// Records a run's outcomes. True when the statuses have to be written.
    pub fn apply_statuses(&mut self, statuses: Vec<DestinationSyncStatus>) -> (r: bool)
        ensures
            final(self)@ == (WorkspaceView {
                statuses: put(old(self)@.statuses, statuses@),
                ..old(self)@
            }).pruned(),
            r == !old(self)@.config_unreadable,
    {
        self.put_statuses(statuses);
        self.persist_statuses()
    }

    /// Whether the tasks may be written: not while the config on disk could not be read, because
    /// writing then would replace a file we could not read with one we invented.
    pub fn persist_tasks(&self) -> (r: bool)
        ensures
            r == !self@.config_unreadable,
    {
        !self.config_unreadable
    }

    /// Drops statuses whose destination no longer exists. True when the rest may be written.
    pub fn persist_statuses(&mut self) -> (r: bool)
        ensures
            final(self)@ == old(self)@.pruned(),
            r == !old(self)@.config_unreadable,
    {
        broadcast use vstd::std_specs::hash::group_hash_axioms;

        let ghost before = self.statuses@;
        let ghost views = self@.tasks;
        let mut left: HashMap<u128, DestinationSyncStatus> = HashMap::new();
        std::mem::swap(&mut left, &mut self.statuses);
        let mut i: usize = 0;
        proof {
            assert(self.statuses@ =~= before.restrict(live_destinations(views.take(0))));
            assert(left@ =~= before.remove_keys(live_destinations(views.take(0))));
        }
        while i < self.tasks.len()
            invariant
                i <= self.tasks@.len(),
                self@ == (WorkspaceView { statuses: self.statuses@, ..old(self)@ }),
                views == self@.tasks,
                self.statuses@ == before.restrict(live_destinations(views.take(i as int))),
                left@ == before.remove_keys(live_destinations(views.take(i as int))),
            decreases self.tasks@.len() - i,
        {
            let mut j: usize = 0;
            let ghost done = live_destinations(views.take(i as int));
            let ghost own = views[i as int].destinations;
            proof {
                assert(done =~= done.union(first_ids(own, 0)));
            }
            while j < self.tasks[i].destinations.len()
                invariant
                    i < self.tasks@.len(),
                    j <= self.tasks@[i as int].destinations@.len(),
                    self@ == (WorkspaceView { statuses: self.statuses@, ..old(self)@ }),
                    views == self@.tasks,
                    own == views[i as int].destinations,
                    self.statuses@ == before.restrict(done.union(first_ids(own, j as int))),
                    left@ == before.remove_keys(done.union(first_ids(own, j as int))),
                decreases self.tasks@[i as int].destinations@.len() - j,
            {
                let id: u128 = self.tasks[i].destinations[j].id;
                proof {
                    assert(own[j as int].id == id);
                    assert(first_ids(own, j + 1) =~= first_ids(own, j as int).insert(id));
                }
                match left.remove(&id) {
                    Some(status) => {
                        self.statuses.insert(id, status);
                    },
                    None => {},
                }
                j = j + 1;
                proof {
                    let now = done.union(first_ids(own, j as int));
                    assert(self.statuses@ =~= before.restrict(now));
                    assert(left@ =~= before.remove_keys(now));
                }
            }
            proof {
                lemma_live_next(views, i as int);
            }
            i = i + 1;
        }
        proof {
            assert(views.take(views.len() as int) =~= views);
        }
        !self.config_unreadable
    }

    /// Applies a settings change. True when they have to be written: a change that changes
    /// nothing is not.
    pub fn update_settings(&mut self, updated: AppSettings) -> (r: bool)
        ensures
            final(self)@ == (WorkspaceView { settings: updated@, ..old(self)@ }),
            r == (updated@ != old(self)@.settings),
    {
        if updated.same(&self.settings) {
            return false;
        }
        self.settings = updated;
        true
    }
}

/// The identifiers of the first `n` destinations.
pub open spec fn first_ids(destinations: Seq<model::DestinationView>, n: int) -> Set<u128> {
    Set::new(
        |id: u128|
            exists|j: int| 0 <= j < n && (#[trigger] destinations[j]).id == id,
    )
}

/// One more task's destinations are live.
proof fn lemma_live_next(tasks: Seq<TaskView>, i: int)
    requires
        0 <= i < tasks.len(),
    ensures
        live_destinations(tasks.take(i + 1)) == live_destinations(tasks.take(i)).union(
            first_ids(tasks[i].destinations, tasks[i].destinations.len() as int),
        ),
{
    let now = tasks.take(i);
    let next = tasks.take(i + 1);
    let own = tasks[i].destinations;
    assert forall|id: u128| is_destination(next, id) <==> (is_destination(now, id) || first_ids(
        own,
        own.len() as int,
    ).contains(id)) by {
        if is_destination(now, id) {
            let (a, b) = choose|a: int, b: int|
                0 <= a < now.len() && 0 <= b < now[a].destinations.len()
                    && (#[trigger] now[a].destinations[b]).id == id;
            assert(next[a].destinations[b].id == id);
        }
        if first_ids(own, own.len() as int).contains(id) {
            let b = choose|b: int| 0 <= b < own.len() && (#[trigger] own[b]).id == id;
            assert(next[i].destinations[b].id == id);
        }
        if is_destination(next, id) {
            let (a, b) = choose|a: int, b: int|
                0 <= a < next.len() && 0 <= b < next[a].destinations.len()
                    && (#[trigger] next[a].destinations[b]).id == id;
            if a < i {
                assert(now[a].destinations[b].id == id);
            } else {
                assert(own[b].id == id);
            }
        }
    }
    assert(live_destinations(next) =~= live_destinations(now).union(
        first_ids(own, own.len() as int),
    ));
}

/// One more destination is owned.
proof fn lemma_owns_next(destinations: Seq<Destination>, i: int)
    requires
        0 <= i < destinations.len(),
    ensures
        forall|id: u128|
            #[trigger] owns(destinations.take(i + 1), id) <==> owns(destinations.take(i), id) || id
                == destinations[i].id,
{
    let now = destinations.take(i);
    let next = destinations.take(i + 1);
    assert forall|id: u128| #[trigger] owns(next, id) <==> owns(now, id) || id
        == destinations[i].id by {
        if owns(now, id) {
            let k = choose|k: int| 0 <= k < now.len() && (#[trigger] now[k]).id == id;
            assert(next[k].id == id);
        }
        if id == destinations[i].id {
            assert(next[i].id == id);
        }
        if owns(next, id) {
            let k = choose|k: int| 0 <= k < next.len() && (#[trigger] next[k]).id == id;
            if k < i {
                assert(now[k].id == id);
            }
        }
    }
}

/// The identifiers of the tasks.
fn ids_of(tasks: &Vec<SyncTask>) -> (r: HashSet<u128>)
    ensures
        r@ == task_ids(model::task_views(tasks@)),
{
    broadcast use vstd::std_specs::hash::group_hash_axioms;

    let ghost views = model::task_views(tasks@);
    let mut out: HashSet<u128> = HashSet::new();
    let mut i: usize = 0;
    proof {
        assert(out@ =~= task_ids(views.take(0)));
    }
    while i < tasks.len()
        invariant
            i <= tasks@.len(),
            views == model::task_views(tasks@),
            out@ == task_ids(views.take(i as int)),
        decreases tasks@.len() - i,
    {
        let id: u128 = tasks[i].id;
        out.insert(id);
        proof {
            let now = views.take(i as int);
            let next = views.take(i + 1);
            assert forall|x: u128| task_ids(next).contains(x) <==> (task_ids(now).contains(x) || x
                == id) by {
                if task_ids(now).contains(x) {
                    let k = choose|k: int| 0 <= k < now.len() && (#[trigger] now[k]).id == x;
                    assert(next[k].id == x);
                }
                if x == id {
                    assert(next[i as int].id == x);
                }
                if task_ids(next).contains(x) {
                    let k = choose|k: int| 0 <= k < next.len() && (#[trigger] next[k]).id == x;
                    if k < i {
                        assert(now[k].id == x);
                    }
                }
            }
            assert(out@ =~= task_ids(next));
        }
        i = i + 1;
    }
    proof {
        assert(views.take(views.len() as int) =~= views);
    }
    out
}

/// The tasks without those of one identifier, in order.
fn remove_id(tasks: Vec<SyncTask>, id: u128) -> (r: Vec<SyncTask>)
    ensures
        model::task_views(r@) == without(model::task_views(tasks@), id),
{
    let ghost views = model::task_views(tasks@);
    let mut rest = tasks;
    let mut out: Vec<SyncTask> = Vec::new();
    let ghost mut done: int = 0;
    proof {
        assert(model::task_views(out@) =~= without(views.take(0), id));
        assert(model::task_views(rest@) =~= views.skip(0));
    }
    while rest.len() > 0
        invariant
            0 <= done <= views.len(),
            model::task_views(rest@) == views.skip(done),
            rest@.len() == views.len() - done,
            model::task_views(out@) == without(views.take(done), id),
        decreases rest@.len(),
    {
        let ghost held = rest@;
        let task = rest.remove(0);
        proof {
            assert(views.skip(done)[0] == held[0]@);
            assert(task@ == views[done]);
            assert(views.take(done + 1).drop_last() =~= views.take(done));
            assert(model::task_views(rest@) =~= views.skip(done + 1)) by {
                assert forall|k: int| 0 <= k < rest@.len() implies #[trigger] rest@[k]@
                    == views.skip(done + 1)[k] by {
                    assert(held[k + 1]@ == views.skip(done)[k + 1]);
                }
            }
            done = done + 1;
        }
        if task.id != id {
            proof {
                assert(model::task_views(out@.push(task)) =~= model::task_views(out@).push(task@));
            }
            out.push(task);
        }
    }
    proof {
        assert(views.take(done) =~= views);
    }
    out
}

/// The last of the list's statuses for a destination, or the old one.
proof fn lemma_put(
    statuses: Map<u128, DestinationSyncStatus>,
    list: Seq<DestinationSyncStatus>,
    id: u128,
)
    ensures
        put(statuses, list).contains_key(id) <==> statuses.contains_key(id) || exists|i: int|
            0 <= i < list.len() && (#[trigger] list[i]).destination_id == id,
        (exists|i: int| 0 <= i < list.len() && (#[trigger] list[i]).destination_id == id)
            ==> exists|i: int|
            0 <= i < list.len() && (#[trigger] list[i]).destination_id == id && put(
                statuses,
                list,
            )[id] == list[i],
        !(exists|i: int| 0 <= i < list.len() && (#[trigger] list[i]).destination_id == id) ==> put(
            statuses,
            list,
        )[id] == statuses[id],
    decreases list.len(),
{
    if list.len() > 0 {
        let front = list.drop_last();
        lemma_put(statuses, front, id);
        assert(list[list.len() - 1] == list.last());
        if exists|i: int| 0 <= i < front.len() && (#[trigger] front[i]).destination_id == id {
            let i = choose|i: int|
                0 <= i < front.len() && (#[trigger] front[i]).destination_id == id && put(
                    statuses,
                    front,
                )[id] == front[i];
            assert(list[i] == front[i]);
        }
        if exists|i: int| 0 <= i < list.len() && (#[trigger] list[i]).destination_id == id {
            let i = choose|i: int| 0 <= i < list.len() && (#[trigger] list[i]).destination_id == id;
            if i < front.len() {
                assert(front[i].destination_id == id);
            }
        }
    }
}

/// Every status is filed under the destination it is about.
pub open spec fn is_filed(statuses: Map<u128, DestinationSyncStatus>) -> bool {
    forall|k: u128| #[trigger] statuses.contains_key(k) ==> statuses[k].destination_id == k
}

/// Statuses stay filed under the destinations they are about, through every change the workspace
/// makes to them: marking a task running, recording or restoring statuses, and dropping those of
/// destinations that are gone.
pub proof fn law_statuses_stay_filed(
    view: WorkspaceView,
    destinations: Seq<Destination>,
    list: Seq<DestinationSyncStatus>,
)
    requires
        is_filed(view.statuses),
    ensures
        is_filed(running(view.statuses, destinations)),
        is_filed(put(view.statuses, list)),
        is_filed(view.pruned().statuses),
{
    assert forall|k: u128| #[trigger]
        put(view.statuses, list).contains_key(k) implies put(view.statuses, list)[k].destination_id
        == k by {
        lemma_put(view.statuses, list, k);
    }
}

/// A cancelled run puts every row back: after marking a task running and restoring what was
/// recorded before, every destination reads what it read. One that had no status yet is recorded
/// as never run.
pub proof fn law_a_cancelled_run_puts_the_rows_back(
    statuses: Map<u128, DestinationSyncStatus>,
    destinations: Seq<Destination>,
    id: u128,
)
    requires
        forall|k: u128| #[trigger]
            owns(destinations, k) && statuses.contains_key(k) ==> statuses[k].destination_id == k,
    ensures
        ({
            let restored = put(
                running(statuses, destinations),
                snapshot(statuses, destinations),
            );
            &&& health::outcome_of(restored, id) == health::outcome_of(statuses, id)
            &&& statuses.contains_key(id) ==> restored.contains_key(id) && restored[id]
                == statuses[id]
            &&& owns(destinations, id) && !statuses.contains_key(id) ==> restored.contains_key(id)
                && restored[id] == DestinationSyncStatus::plain(id, SyncOutcome::Never)
            &&& !owns(destinations, id) ==> restored.contains_key(id) == statuses.contains_key(id)
        }),
{
    let list = snapshot(statuses, destinations);
    let base = running(statuses, destinations);
    lemma_put(base, list, id);
    assert forall|i: int| 0 <= i < list.len() implies (#[trigger] list[i]).destination_id
        == destinations[i].id by {
        assert(owns(destinations, destinations[i].id));
    }
    if owns(destinations, id) {
        let i = choose|i: int| 0 <= i < destinations.len() && (#[trigger] destinations[i]).id == id;
        assert(list[i].destination_id == id);
        let k = choose|k: int|
            0 <= k < list.len() && (#[trigger] list[k]).destination_id == id && put(base, list)[id]
                == list[k];
        assert(destinations[k].id == id);
    } else {
        assert forall|i: int| 0 <= i < list.len() implies (#[trigger] list[i]).destination_id
            != id by {
            assert(destinations[i].id != id);
        }
    }
}

/// Opening every card leaves none closed, where there is a card at all.
pub proof fn law_opening_all_opens_everything(view: WorkspaceView)
    requires
        view.tasks.len() > 0,
    ensures
        (WorkspaceView { expanded: task_ids(view.tasks), ..view }).everything_open(),
        !(WorkspaceView { expanded: Set::empty(), ..view }).everything_open(),
{
    let none = WorkspaceView { expanded: Set::empty(), ..view };
    assert(!none.expanded.contains(none.tasks[0].id));
}

/// A removed task is gone, and the others keep their order.
pub proof fn law_a_removed_task_is_gone(tasks: Seq<TaskView>, id: u128)
    ensures
        index_of(without(tasks, id), id) is None,
        without(tasks, id).len() <= tasks.len(),
        forall|i: int|
            0 <= i < tasks.len() && (#[trigger] tasks[i]).id != id ==> without(tasks, id).contains(
                tasks[i],
            ),
    decreases tasks.len(),
{
    lemma_without(tasks, id);
    let rest = without(tasks, id);
    let holds = has_id(rest, id);
    assert forall|k: int| 0 <= k < rest.len() implies !(#[trigger] holds(k)) by {
        assert(rest[k].id != id);
    }
    search::lemma_absent(rest.len(), holds);
}

proof fn lemma_without(tasks: Seq<TaskView>, id: u128)
    ensures
        without(tasks, id).len() <= tasks.len(),
        forall|k: int| 0 <= k < without(tasks, id).len() ==> (#[trigger] without(tasks, id)[k]).id != id,
        forall|i: int|
            0 <= i < tasks.len() && (#[trigger] tasks[i]).id != id ==> without(tasks, id).contains(
                tasks[i],
            ),
    decreases tasks.len(),
{
    if tasks.len() > 0 {
        let front = tasks.drop_last();
        lemma_without(front, id);
        assert forall|i: int| 0 <= i < tasks.len() && (#[trigger] tasks[i]).id
            != id implies without(tasks, id).contains(tasks[i]) by {
            let rest = without(tasks, id);
            if i < front.len() {
                assert(front[i] == tasks[i]);
                let k = choose|k: int|
                    0 <= k < without(front, id).len() && without(front, id)[k] == front[i];
                assert(rest[k] == tasks[i]);
            } else {
                assert(rest[rest.len() - 1] == tasks[i]);
            }
        }
    }
}

} // verus!
