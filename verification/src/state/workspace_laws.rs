//! What each change to the workspace does to its tasks and statuses, and what it leaves alone.

use crate::model::{Destination, DestinationSyncStatus, SyncOutcome, TaskView};
use crate::search;
use crate::state::workspace;
use crate::state::workspace::WorkspaceView;
use vstd::prelude::*;

verus! {

/// A task is found by its identifier: the first that has it, or none where none has.
pub proof fn law_a_task_is_found_by_its_identifier(tasks: Seq<TaskView>, id: u128)
    ensures
        match workspace::index_of(tasks, id) {
            Some(i) => 0 <= i < tasks.len() && tasks[i].id == id && forall|k: int|
                0 <= k < i ==> (#[trigger] tasks[k]).id != id,
            None => forall|k: int| 0 <= k < tasks.len() ==> (#[trigger] tasks[k]).id != id,
        },
{
    let holds = workspace::has_id(tasks, id);
    search::lemma_first(tasks.len(), holds);
    assert forall|k: int| 0 <= k < tasks.len() implies (#[trigger] tasks[k]).id == id
        <==> holds(k) by {}
}

/// Saving a task replaces the one with its identifier in place, or puts it at the end, open. Every
/// other task stays as it is and where it is, and so does all else.
pub proof fn law_saving_a_task_puts_it_in_its_place(view: WorkspaceView, task: TaskView)
    ensures
        ({
            let after = view.upserted(task);
            let known = exists|i: int| 0 <= i < view.tasks.len() && (#[trigger] view.tasks[i]).id
                == task.id;
            &&& after.tasks.len() == view.tasks.len() + if known {
                0int
            } else {
                1int
            }
            &&& after.tasks.contains(task)
            &&& forall|i: int|
                0 <= i < view.tasks.len() && (#[trigger] view.tasks[i]).id != task.id
                    ==> after.tasks[i] == view.tasks[i]
            &&& !known ==> after.tasks.last() == task && after.expanded.contains(task.id)
            &&& forall|id: u128|
                id != task.id || known ==> (#[trigger] after.expanded.contains(id)
                    <==> view.expanded.contains(id))
            &&& after.statuses == view.statuses
            &&& after.settings == view.settings
            &&& after.selected == view.selected
            &&& after.config_unreadable == view.config_unreadable
            &&& after.sidebar_visible == view.sidebar_visible
        }),
{
    law_a_task_is_found_by_its_identifier(view.tasks, task.id);
    let after = view.upserted(task);
    match workspace::index_of(view.tasks, task.id) {
        Some(i) => {
            assert(view.tasks[i].id == task.id);
            assert(after.tasks[i] == task);
        },
        None => {
            assert(after.tasks[view.tasks.len() as int] == task);
        },
    }
}

/// The tasks that stay when some are removed.
proof fn lemma_without_keeps_order(tasks: Seq<TaskView>, id: u128)
    ensures
        workspace::without(tasks, id) == tasks.filter(|task: TaskView| task.id != id),
    decreases tasks.len(),
{
    reveal(Seq::filter);
    if tasks.len() > 0 {
        lemma_without_keeps_order(tasks.drop_last(), id);
    }
    assert(workspace::without(tasks, id) =~= tasks.filter(|task: TaskView| task.id != id));
}

/// Removing a task takes it out of the list, the open cards and the selection; every other task
/// keeps its place in the order, its card and the selection.
pub proof fn law_removing_a_task_takes_it_out_everywhere(view: WorkspaceView, id: u128)
    ensures
        ({
            let after = view.removed(id);
            &&& after.tasks == view.tasks.filter(|task: TaskView| task.id != id)
            &&& !after.expanded.contains(id)
            &&& forall|other: u128|
                other != id ==> (#[trigger] after.expanded.contains(other)
                    <==> view.expanded.contains(other))
            &&& after.selected != Some(id)
            &&& view.selected != Some(id) ==> after.selected == view.selected
            &&& after.statuses == view.statuses
            &&& after.settings == view.settings
            &&& after.config_unreadable == view.config_unreadable
            &&& after.sidebar_visible == view.sidebar_visible
        }),
{
    lemma_without_keeps_order(view.tasks, id);
}

/// A status is kept exactly as long as some task has its destination; kept statuses are unchanged.
pub proof fn law_a_status_lives_as_long_as_its_destination(view: WorkspaceView, id: u128)
    ensures
        view.pruned().statuses.contains_key(id) <==> view.statuses.contains_key(id) && exists|
            i: int,
            j: int,
        |
            0 <= i < view.tasks.len() && 0 <= j < view.tasks[i].destinations.len() && (
            #[trigger] view.tasks[i].destinations[j]).id == id,
        view.pruned().statuses.contains_key(id) ==> view.pruned().statuses[id]
            == view.statuses[id],
        view.pruned().tasks == view.tasks,
        view.pruned().expanded == view.expanded,
        view.pruned().selected == view.selected,
        view.pruned().settings == view.settings,
        view.pruned().config_unreadable == view.config_unreadable,
        view.pruned().sidebar_visible == view.sidebar_visible,
{
    assert(workspace::live_destinations(view.tasks).contains(id)
        == workspace::is_destination(view.tasks, id));
}

/// Recording statuses files each under its destination, the last one for a destination counting;
/// destinations that none is about keep what they had.
pub proof fn law_the_last_status_for_a_destination_counts(
    statuses: Map<u128, DestinationSyncStatus>,
    list: Seq<DestinationSyncStatus>,
    id: u128,
)
    ensures
        ({
            let after = workspace::put(statuses, list);
            &&& forall|i: int|
                0 <= i < list.len() && (#[trigger] list[i]).destination_id == id && (forall|k: int|
                    i < k < list.len() ==> (#[trigger] list[k]).destination_id != id)
                    ==> after.contains_key(id) && after[id] == list[i]
            &&& (forall|k: int|
                0 <= k < list.len() ==> (#[trigger] list[k]).destination_id != id) ==> (
            after.contains_key(id) <==> statuses.contains_key(id)) && (after.contains_key(id)
                ==> after[id] == statuses[id])
        }),
    decreases list.len(),
{
    if list.len() > 0 {
        let front = list.drop_last();
        let after = workspace::put(statuses, list);
        law_the_last_status_for_a_destination_counts(statuses, front, id);
        assert(list.last() == list[list.len() - 1]);
        assert forall|i: int| 0 <= i < front.len() implies #[trigger] front[i] == list[i] by {}
        assert forall|i: int|
            0 <= i < list.len() && (#[trigger] list[i]).destination_id == id && (forall|k: int|
                i < k < list.len() ==> (
                #[trigger] list[k]).destination_id != id) implies after.contains_key(id)
            && after[id] == list[i] by {
            if i < front.len() {
                assert(list[list.len() - 1].destination_id != id);
                assert(front[i].destination_id == id);
                assert forall|k: int| i < k < front.len() implies (
                #[trigger] front[k]).destination_id != id by {
                    assert(list[k].destination_id != id);
                }
            }
        }
        if forall|k: int| 0 <= k < list.len() ==> (#[trigger] list[k]).destination_id != id {
            assert(list[list.len() - 1].destination_id != id);
            assert forall|k: int| 0 <= k < front.len() implies (
            #[trigger] front[k]).destination_id != id by {
                assert(list[k].destination_id != id);
            }
        }
    }
}

/// Marking a task running shows every destination of it as running, with nothing to report yet,
/// and no other destination differently.
pub proof fn law_marking_a_task_running_marks_its_destinations(
    statuses: Map<u128, DestinationSyncStatus>,
    destinations: Seq<Destination>,
    id: u128,
)
    ensures
        ({
            let after = workspace::running(statuses, destinations);
            let own = exists|i: int| 0 <= i < destinations.len() && (
            #[trigger] destinations[i]).id == id;
            if own {
                &&& after.contains_key(id)
                &&& after[id].outcome is Running
                &&& after[id].destination_id == id
                &&& after[id].error is None
                &&& after[id].files_copied == 0
                &&& after[id].files_deferred == 0
                &&& after[id].last_run is None
            } else {
                &&& after.contains_key(id) <==> statuses.contains_key(id)
                &&& after.contains_key(id) ==> after[id] == statuses[id]
            }
        }),
{
}

/// A snapshot holds what each destination reads, in order: its status, or that it never ran.
pub proof fn law_a_snapshot_holds_what_each_destination_reads(
    statuses: Map<u128, DestinationSyncStatus>,
    destinations: Seq<Destination>,
    i: int,
)
    requires
        0 <= i < destinations.len(),
    ensures
        ({
            let taken = workspace::snapshot(statuses, destinations);
            let id = destinations[i].id;
            &&& taken.len() == destinations.len()
            &&& statuses.contains_key(id) ==> taken[i] == statuses[id]
            &&& !statuses.contains_key(id) ==> taken[i].destination_id == id && taken[i].outcome
                == SyncOutcome::Never && taken[i].error is None && taken[i].last_run is None
        }),
{
}

/// "Everything is open" says that there is a task and that the card of each is open.
pub proof fn law_everything_is_open_when_every_card_is(view: WorkspaceView)
    ensures
        view.everything_open() <==> view.tasks.len() > 0 && forall|i: int|
            0 <= i < view.tasks.len() ==> view.expanded.contains((#[trigger] view.tasks[i]).id),
        forall|id: u128| #[trigger]
            workspace::task_ids(view.tasks).contains(id) <==> exists|i: int|
                0 <= i < view.tasks.len() && (#[trigger] view.tasks[i]).id == id,
{
}

} // verus!
