//! What the main window keeps and asks for.

use crate::i18n;
use crate::model::{
    DestinationSyncStatus, DestinationView, Moment, SyncStrategy, SyncTask, TaskView, TriggerView,
};
use crate::search;
use crate::state::health;
use crate::state::triggers;
use crate::state::triggers::RunningView;
use crate::state::workspace;
use crate::strings;
use crate::strings::Language;
use crate::text;
use crate::views::confirm;
use crate::views::main_actions;
use crate::views::main_actions::SidebarItem;
use crate::views::main_view;
use crate::views::main_view::{DialogRequest, MainModel, MainView, RunPlan};
use crate::views::mirror_delete;
use crate::views::mirror_delete::MirrorDeleteDecision;
use crate::views::task_card;
use vstd::prelude::*;

verus! {

/// What is said of the window is what it holds.
pub proof fn law_the_window_says_what_it_holds(window: MainView, id: u128)
    ensures
        window@.workspace == window.workspace@,
        window@.triggers == window.triggers@,
        window@.next_runs == window.next_runs@,
        window@.progress.contains_key(id) <==> window.progress@.contains_key(id),
        window.progress@.contains_key(id) ==> window@.progress[id] == window.progress@[id]@,
        window@.trigger_errors.contains_key(id) <==> window.trigger_errors@.contains_key(id),
        window.trigger_errors@.contains_key(id) ==> window@.trigger_errors[id]
            == window.trigger_errors@[id]@,
{
}

/// Each start is reported of the task it was for, with the failure it met.
pub proof fn law_each_start_is_reported_of_its_task(
    host: Map<u128, RunningView>,
    tasks: Seq<SyncTask>,
    failures: Seq<Option<String>>,
    k: int,
)
    requires
        0 <= k < failures.len(),
    ensures
        main_view::reported(host, tasks, failures).len() == failures.len(),
        main_view::reported(host, tasks, failures)[k].task_id == tasks[triggers::restarts(
            host,
            tasks,
            tasks.len() as int,
        )[k]].id,
        main_view::reported(host, tasks, failures)[k].error == failures[k],
{
}

/// The task at an index runs on a schedule that comes again.
pub open spec fn comes_again(
    tasks: Seq<TaskView>,
    upcoming: Seq<Option<Moment>>,
    n: int,
    id: u128,
    i: int,
) -> bool {
    &&& 0 <= i < n
    &&& tasks[i].id == id
    &&& tasks[i].trigger matches TriggerView::Scheduled(_)
    &&& upcoming[i] is Some
}

/// A next run is known of exactly the tasks on a schedule that comes again, and is when it comes;
/// the last counts where two tasks share an identifier.
pub proof fn law_a_next_run_is_known_of_what_is_scheduled(
    tasks: Seq<TaskView>,
    upcoming: Seq<Option<Moment>>,
    n: int,
    id: u128,
)
    requires
        0 <= n,
    ensures
        ({
            let runs = main_view::scheduled_runs(tasks, upcoming, n);
            &&& runs.contains_key(id) <==> exists|i: int| #[trigger]
                comes_again(tasks, upcoming, n, id, i)
            &&& runs.contains_key(id) ==> exists|i: int|
                {
                    &&& #[trigger] comes_again(tasks, upcoming, n, id, i)
                    &&& upcoming[i] == Some(runs[id])
                    &&& forall|k: int|
                        i < k ==> !(#[trigger] comes_again(tasks, upcoming, n, id, k))
                }
        }),
    decreases n,
{
    if n > 0 {
        law_a_next_run_is_known_of_what_is_scheduled(tasks, upcoming, n - 1, id);
        let before = main_view::scheduled_runs(tasks, upcoming, n - 1);
        let runs = main_view::scheduled_runs(tasks, upcoming, n);
        assert forall|k: int| k != n - 1 implies #[trigger] comes_again(tasks, upcoming, n, id, k)
            == comes_again(tasks, upcoming, n - 1, id, k) by {}
        if comes_again(tasks, upcoming, n, id, n - 1) {
            assert(upcoming[n - 1] == Some(runs[id]));
        } else {
            assert(runs.contains_key(id) == before.contains_key(id));
            if before.contains_key(id) {
                let i = choose|i: int|
                    {
                        &&& #[trigger] comes_again(tasks, upcoming, n - 1, id, i)
                        &&& upcoming[i] == Some(before[id])
                        &&& forall|k: int|
                            i < k ==> !(#[trigger] comes_again(tasks, upcoming, n - 1, id, k))
                    };
                assert(comes_again(tasks, upcoming, n, id, i));
                assert(upcoming[i] == Some(runs[id]));
            }
            if exists|i: int| #[trigger] comes_again(tasks, upcoming, n, id, i) {
                let i = choose|i: int| #[trigger] comes_again(tasks, upcoming, n, id, i);
                assert(comes_again(tasks, upcoming, n - 1, id, i));
            }
        }
    }
}

/// A destination that mirrors, by its task and its place in it.
pub open spec fn is_mirror(tasks: Seq<TaskView>, n: int, pair: (int, int)) -> bool {
    &&& 0 <= pair.0 < n
    &&& 0 <= pair.1 < tasks[pair.0].destinations.len()
    &&& tasks[pair.0].destinations[pair.1].strategy == SyncStrategy::Mirror
}

/// One pair comes before another.
pub open spec fn comes_before(one: (int, int), other: (int, int)) -> bool {
    one.0 < other.0 || (one.0 == other.0 && one.1 < other.1)
}

proof fn lemma_mirrors_of(task: int, destinations: Seq<DestinationView>, n: int)
    requires
        0 <= n,
    ensures
        ({
            let found = main_view::mirrors_of(task, destinations, n);
            &&& forall|k: int|
                0 <= k < found.len() ==> {
                    &&& (#[trigger] found[k]).0 == task
                    &&& 0 <= found[k].1 < n
                    &&& destinations[found[k].1].strategy == SyncStrategy::Mirror
                }
            &&& forall|d: int|
                0 <= d < n && (#[trigger] destinations[d]).strategy == SyncStrategy::Mirror
                    ==> found.contains((task, d))
            &&& forall|a: int, b: int|
                0 <= a < b < found.len() ==> comes_before(#[trigger] found[a], #[trigger] found[b])
        }),
    decreases n,
{
    if n > 0 {
        lemma_mirrors_of(task, destinations, n - 1);
        let before = main_view::mirrors_of(task, destinations, n - 1);
        let found = main_view::mirrors_of(task, destinations, n);
        assert forall|d: int|
            0 <= d < n && (#[trigger] destinations[d]).strategy
                == SyncStrategy::Mirror implies found.contains((task, d)) by {
            if d == n - 1 {
                assert(found[found.len() - 1] == (task, d));
            } else {
                let k = choose|k: int| 0 <= k < before.len() && before[k] == (task, d);
                assert(found[k] == (task, d));
            }
        }
    }
}

/// The mirrors are found in order, each once, and nothing else is.
pub proof fn law_every_mirror_is_found_in_order(tasks: Seq<TaskView>, n: int)
    requires
        0 <= n,
    ensures
        ({
            let found = main_view::mirrors(tasks, n);
            &&& forall|k: int| 0 <= k < found.len() ==> is_mirror(tasks, n, #[trigger] found[k])
            &&& forall|pair: (int, int)| #[trigger]
                is_mirror(tasks, n, pair) ==> found.contains(pair)
            &&& forall|a: int, b: int|
                0 <= a < b < found.len() ==> comes_before(#[trigger] found[a], #[trigger] found[b])
        }),
    decreases n,
{
    if n > 0 {
        let destinations = tasks[n - 1].destinations;
        law_every_mirror_is_found_in_order(tasks, n - 1);
        lemma_mirrors_of(n - 1, destinations, destinations.len() as int);
        let before = main_view::mirrors(tasks, n - 1);
        let last = main_view::mirrors_of(n - 1, destinations, destinations.len() as int);
        let found = main_view::mirrors(tasks, n);
        assert(found == before + last);
        assert forall|k: int| 0 <= k < found.len() implies is_mirror(
            tasks,
            n,
            #[trigger] found[k],
        ) by {
            if k < before.len() {
                assert(found[k] == before[k]);
                assert(is_mirror(tasks, n - 1, before[k]));
            } else {
                assert(found[k] == last[k - before.len()]);
            }
        }
        assert forall|pair: (int, int)| #[trigger] is_mirror(
            tasks,
            n,
            pair,
        ) implies found.contains(pair) by {
            if pair.0 == n - 1 {
                assert(destinations[pair.1].strategy == SyncStrategy::Mirror);
                let k = choose|k: int| 0 <= k < last.len() && last[k] == (n - 1, pair.1);
                assert(found[before.len() + k] == pair);
            } else {
                assert(is_mirror(tasks, n - 1, pair));
                let k = choose|k: int| 0 <= k < before.len() && before[k] == pair;
                assert(found[k] == pair);
            }
        }
        assert forall|a: int, b: int| 0 <= a < b < found.len() implies comes_before(
            #[trigger] found[a],
            #[trigger] found[b],
        ) by {
            if b < before.len() {
                assert(found[a] == before[a] && found[b] == before[b]);
            } else if a >= before.len() {
                assert(found[a] == last[a - before.len()] && found[b] == last[b - before.len()]);
            } else {
                assert(found[a] == before[a] && found[b] == last[b - before.len()]);
                assert(is_mirror(tasks, n - 1, before[a]));
            }
        }
    }
}

/// Taking a destination out leaves the others in order.
pub proof fn law_the_other_destinations_are_left(destinations: Seq<DestinationView>, id: u128)
    ensures
        main_view::other_destinations(destinations, id) == destinations.filter(
            |d: DestinationView| d.id != id,
        ),
    decreases destinations.len(),
{
    reveal(Seq::filter);
    if destinations.len() > 0 {
        law_the_other_destinations_are_left(destinations.drop_last(), id);
    }
    assert(main_view::other_destinations(destinations, id) =~= destinations.filter(
        |d: DestinationView| d.id != id,
    ));
}

/// Running everything runs each task that has somewhere to go, in order.
pub proof fn law_every_task_with_a_destination_is_run(tasks: Seq<TaskView>)
    ensures
        main_view::runnable_ids(tasks) == tasks.filter(
            |task: TaskView| task.destinations.len() > 0,
        ).map_values(|task: TaskView| task.id),
    decreases tasks.len(),
{
    reveal(Seq::filter);
    let runs = |task: TaskView| task.destinations.len() > 0;
    let id = |task: TaskView| task.id;
    if tasks.len() > 0 {
        law_every_task_with_a_destination_is_run(tasks.drop_last());
    }
    assert(main_view::runnable_ids(tasks) =~= tasks.filter(runs).map_values(id));
}

proof fn lemma_names_differ()
    ensures
        "task"@ != "task-edit"@,
        "task"@ != "destination"@,
        "task"@ != "destination-edit"@,
        "task"@ != "workspace"@,
        "task"@ != "routing"@,
        "task"@ != "log"@,
        "task"@ != "confirm"@,
        "task-edit"@ != "destination"@,
        "task-edit"@ != "destination-edit"@,
        "task-edit"@ != "workspace"@,
        "task-edit"@ != "routing"@,
        "task-edit"@ != "log"@,
        "task-edit"@ != "confirm"@,
        "destination"@ != "destination-edit"@,
        "destination"@ != "workspace"@,
        "destination"@ != "routing"@,
        "destination"@ != "log"@,
        "destination"@ != "confirm"@,
        "destination-edit"@ != "workspace"@,
        "destination-edit"@ != "routing"@,
        "destination-edit"@ != "log"@,
        "destination-edit"@ != "confirm"@,
        "workspace"@ != "routing"@,
        "workspace"@ != "log"@,
        "workspace"@ != "confirm"@,
        "routing"@ != "log"@,
        "routing"@ != "confirm"@,
        "mirror-delete"@ != "task"@,
        "mirror-delete"@ != "task-edit"@,
        "mirror-delete"@ != "destination"@,
        "mirror-delete"@ != "destination-edit"@,
        "mirror-delete"@ != "workspace"@,
        "mirror-delete"@ != "routing"@,
        "mirror-delete"@ != "log"@,
        "mirror-delete"@ != "confirm"@,
        "settings"@ != "task"@,
        "settings"@ != "task-edit"@,
        "settings"@ != "destination"@,
        "settings"@ != "destination-edit"@,
        "settings"@ != "workspace"@,
        "settings"@ != "routing"@,
        "settings"@ != "mirror-delete"@,
        "settings"@ != "log"@,
        "settings"@ != "confirm"@,
        "log"@ != "confirm"@,
{
    reveal_strlit("task");
    reveal_strlit("task-edit");
    reveal_strlit("destination");
    reveal_strlit("destination-edit");
    reveal_strlit("workspace");
    reveal_strlit("routing");
    reveal_strlit("mirror-delete");
    reveal_strlit("settings");
    reveal_strlit("log");
    reveal_strlit("confirm");
    assert("task"@.len() == 4);
    assert("task-edit"@.len() == 9);
    assert("destination"@.len() == 11);
    assert("destination-edit"@.len() == 16);
    assert("workspace"@.len() == 9);
    assert("routing"@.len() == 7);
    assert("mirror-delete"@.len() == 13);
    assert("settings"@.len() == 8);
    assert("log"@.len() == 3);
    assert("confirm"@.len() == 7);
    assert("task-edit"@[0] == 't' && "workspace"@[0] == 'w');
    assert("routing"@[0] == 'r' && "confirm"@[0] == 'c');
}

/// A dialog that needs a task opens on the first, one that needs a destination on its first, and
/// where that is missing nothing opens.
pub proof fn law_a_dialog_opens_on_the_first_task(tasks: Seq<TaskView>)
    ensures
        main_view::dialog_for(tasks, "task"@) == DialogRequest::Task(None),
        main_view::dialog_for(tasks, "settings"@) is Settings,
        main_view::dialog_for(tasks, "mirror-delete"@) is MirrorDelete,
        tasks.len() == 0 ==> {
            &&& main_view::dialog_for(tasks, "task-edit"@) is Nothing
            &&& main_view::dialog_for(tasks, "destination"@) is Nothing
            &&& main_view::dialog_for(tasks, "destination-edit"@) is Nothing
            &&& main_view::dialog_for(tasks, "workspace"@) is Nothing
            &&& main_view::dialog_for(tasks, "log"@) is Nothing
            &&& main_view::dialog_for(tasks, "confirm"@) is Nothing
        },
        tasks.len() > 0 ==> {
            let id = tasks[0].id;
            &&& main_view::dialog_for(tasks, "task-edit"@) == DialogRequest::Task(Some(id))
            &&& main_view::dialog_for(tasks, "confirm"@) == DialogRequest::Confirm(id)
            &&& main_view::dialog_for(tasks, "destination"@) == (DialogRequest::Workspace {
                task: id,
                expand: None,
                start_with_new_rule: true,
            })
            &&& main_view::dialog_for(tasks, "workspace"@) == (DialogRequest::Workspace {
                task: id,
                expand: None,
                start_with_new_rule: false,
            })
        },
        tasks.len() > 0 && tasks[0].destinations.len() == 0 ==> {
            &&& main_view::dialog_for(tasks, "destination-edit"@) is Nothing
            &&& main_view::dialog_for(tasks, "log"@) is Nothing
        },
        tasks.len() > 0 && tasks[0].destinations.len() > 0 ==> {
            let id = tasks[0].id;
            let place = tasks[0].destinations[0].id;
            &&& main_view::dialog_for(tasks, "destination-edit"@) == (DialogRequest::Workspace {
                task: id,
                expand: Some(place),
                start_with_new_rule: false,
            })
            &&& main_view::dialog_for(tasks, "log"@) == (DialogRequest::Log {
                task: id,
                destination: place,
            })
        },
{
    lemma_names_differ();
}

/// The routing dialog opens on the first task that moves, and on nothing where none does.
pub proof fn law_routing_opens_on_the_first_task_that_moves(tasks: Seq<TaskView>)
    ensures
        (exists|i: int|
            {
                &&& 0 <= i < tasks.len()
                &&& (#[trigger] tasks[i]).kind is Move
                &&& forall|k: int| 0 <= k < i ==> !((#[trigger] tasks[k]).kind is Move)
                &&& main_view::dialog_for(tasks, "routing"@) == (DialogRequest::Workspace {
                    task: tasks[i].id,
                    expand: None,
                    start_with_new_rule: false,
                })
            }) || (main_view::dialog_for(tasks, "routing"@) is Nothing && forall|k: int|
            0 <= k < tasks.len() ==> !((#[trigger] tasks[k]).kind is Move)),
{
    lemma_names_differ();
    let holds = main_view::is_move(tasks);
    search::lemma_first(tasks.len(), holds);
    assert forall|k: int| 0 <= k < tasks.len() implies holds(k) == (
    #[trigger] tasks[k]).kind is Move by {}
    match search::first(tasks.len(), holds) {
        Some(i) => {
            assert(holds(i));
            assert(tasks[i].kind is Move);
        },
        None => {},
    }
}

/// Any other name opens nothing that is known.
pub proof fn law_another_name_opens_nothing_known(tasks: Seq<TaskView>, name: Seq<char>)
    requires
        name != "task"@,
        name != "task-edit"@,
        name != "destination"@,
        name != "destination-edit"@,
        name != "workspace"@,
        name != "routing"@,
        name != "mirror-delete"@,
        name != "settings"@,
        name != "log"@,
        name != "confirm"@,
    ensures
        main_view::dialog_for(tasks, name) is Unknown,
{
}

/// An answer approves the deletions of the destination it was about and of no other, and only
/// where it says to delete.
pub proof fn law_an_answer_approves_its_own_destination_alone(
    decision: MirrorDeleteDecision,
    destination: u128,
    other: u128,
)
    ensures
        main_actions::approval(decision, destination) is Some <==> decision is Delete,
        main_actions::approval(decision, destination) matches Some(ids) ==> (ids.contains(other)
            <==> other == destination),
{
}

/// A run that has begun is of the task as it was, remembers how its destinations stood, marks them
/// as running and changes nothing else.
pub proof fn law_a_run_that_has_begun_remembers_how_things_stood(
    before: MainModel,
    index: int,
    plan: RunPlan,
    after: MainModel,
)
    requires
        main_actions::begun(before, index, plan, after),
    ensures
        plan.task@ == before.workspace.tasks[index],
        plan.before@ == workspace::snapshot(before.workspace.statuses, plan.task.destinations@),
        after.workspace.statuses == workspace::running(
            before.workspace.statuses,
            plan.task.destinations@,
        ),
        after.workspace.tasks == before.workspace.tasks,
        after.workspace.selected == before.workspace.selected,
        after.workspace.expanded == before.workspace.expanded,
        after.workspace.sidebar_visible == before.workspace.sidebar_visible,
        after.workspace.config_unreadable == before.workspace.config_unreadable,
        after.progress == before.progress,
        after.triggers == before.triggers,
        after.trigger_errors == before.trigger_errors,
        after.next_runs == before.next_runs,
{
}

/// A task in the sidebar shows its name and how it is doing, and is active where it is selected.
pub proof fn law_a_sidebar_item_shows_its_task(
    task: SyncTask,
    statuses: Map<u128, DestinationSyncStatus>,
    selected: Option<u128>,
    item: SidebarItem,
)
    requires
        main_actions::is_sidebar_item(task, statuses, selected, item),
    ensures
        item.id == task.id,
        item.name@ == task.name@,
        item.active <==> (selected matches Some(id) && id == task.id),
        (item.glyph, item.tone) == task_card::appearance(
            health::card_outcome(health::outcomes(task.destinations@, statuses)),
        ),
{
}

/// Deleting a task asks by its name and by how many destinations go with it.
pub proof fn law_deleting_a_task_says_what_goes_with_it(
    words: Language,
    name: Seq<char>,
    destinations: usize,
)
    requires
        destinations <= 0x7fff_ffff_ffff_ffff,
    ensures
        confirm::delete_task_words(words, name, destinations) == i18n::said2(
            words,
            strings::MAIN_DELETE_TASK_MESSAGE_FORMAT as int,
            name,
            if destinations == 1 {
                i18n::said1(
                    words,
                    strings::MAIN_DELETE_TASK_SUFFIX_ONE as int,
                    text::signed_decimal(1),
                )
            } else {
                i18n::said1(
                    words,
                    strings::MAIN_DELETE_TASK_SUFFIX_OTHER as int,
                    text::signed_decimal(destinations as int),
                )
            },
        ),
{
}

/// Files to delete are counted, one of them in the singular.
pub proof fn law_files_to_delete_are_counted(count: nat)
    ensures
        count == 1 ==> mirror_delete::files_words(count) == text::decimal(1) + " file"@,
        count != 1 ==> mirror_delete::files_words(count) == text::decimal(count) + " files"@,
{
    reveal_strlit("1 file");
    reveal_strlit(" file");
    assert("1 file"@ =~= text::decimal(1) + " file"@);
}

/// A destination of a task is found by its identifier, the first where two share it.
pub proof fn law_a_destination_is_found_by_its_identifier(
    destinations: Seq<DestinationView>,
    id: u128,
)
    ensures
        match search::first(destinations.len(), main_actions::is_destination(destinations, id)) {
            Some(d) => 0 <= d < destinations.len() && destinations[d].id == id && forall|k: int|
                0 <= k < d ==> (#[trigger] destinations[k]).id != id,
            None => forall|k: int|
                0 <= k < destinations.len() ==> (#[trigger] destinations[k]).id != id,
        },
{
    let holds = main_actions::is_destination(destinations, id);
    search::lemma_first(destinations.len(), holds);
    assert forall|k: int| 0 <= k < destinations.len() implies holds(k) == ((
    #[trigger] destinations[k]).id == id) by {}
}

} // verus!
