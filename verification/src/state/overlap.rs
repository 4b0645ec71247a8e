//! The task-shape rules that need to see more than one task at a time.
//!
//! Whether two folders overlap is a question for the file system; what follows from the answers
//! is decided here. Every function takes the answers beside the list they are about: one for
//! each task's source, or one for each destination of each task.
//!
//! Chaining is deliberately allowed: one task's destination may be another task's source, so no
//! answer here is ever about a source and a destination.

use crate::model::{Destination, SyncTask};
use crate::search;
use vstd::prelude::*;

verus! {

/// Which task a path collides with.
#[derive(Debug, PartialEq, Eq)]
pub struct Conflict {
    /// The other task's name, for the sentence shown to the user.
    pub task_name: String,
}

/// What a conflict names.
pub open spec fn named(conflict: Option<Conflict>) -> Option<Seq<char>> {
    match conflict {
        Some(c) => Some(c.task_name@),
        None => None,
    }
}

/// The name of the task that was found.
pub open spec fn name_at(tasks: Seq<SyncTask>, found: Option<int>) -> Option<Seq<char>> {
    match found {
        Some(i) => Some(tasks[i].name@),
        None => None,
    }
}

/// There is one answer for each destination of each task.
pub open spec fn covers_destinations(answers: Seq<Vec<bool>>, tasks: Seq<SyncTask>) -> bool {
    &&& answers.len() == tasks.len()
    &&& forall|i: int|
        0 <= i < tasks.len() ==> (#[trigger] answers[i])@.len() == tasks[i].destinations@.len()
}

/// Another task's source overlaps.
pub open spec fn source_clash(
    tasks: Seq<SyncTask>,
    editing: Option<u128>,
    answers: Seq<bool>,
) -> spec_fn(int) -> bool {
    |i: int| Some(tasks[i].id) != editing && answers[i]
}

/// A destination takes part in the comparison: it is not the one being edited, and its task is
/// not set aside as a whole.
pub open spec fn compared(
    task: SyncTask,
    destination: Destination,
    editing_task: Option<u128>,
    editing_destination: Option<u128>,
) -> bool {
    &&& Some(destination.id) != editing_destination
    &&& !(Some(task.id) == editing_task && editing_destination is None)
}

/// One of a task's destinations that takes part overlaps.
pub open spec fn task_clashes(
    task: SyncTask,
    editing_task: Option<u128>,
    editing_destination: Option<u128>,
    answers: Seq<bool>,
) -> bool {
    exists|j: int|
        0 <= j < task.destinations@.len() && compared(
            task,
            #[trigger] task.destinations@[j],
            editing_task,
            editing_destination,
        ) && answers[j]
}

/// One of another task's destinations overlaps.
pub open spec fn destination_clash(
    tasks: Seq<SyncTask>,
    editing_task: Option<u128>,
    editing_destination: Option<u128>,
    answers: Seq<Vec<bool>>,
) -> spec_fn(int) -> bool {
    |i: int| task_clashes(tasks[i], editing_task, editing_destination, answers[i]@)
}

/// The name of the first task whose source clashes.
pub open spec fn source_conflict_name(
    tasks: Seq<SyncTask>,
    editing: Option<u128>,
    answers: Seq<bool>,
) -> Option<Seq<char>> {
    name_at(tasks, search::first(tasks.len(), source_clash(tasks, editing, answers)))
}

/// The name of the first task with a destination that clashes.
pub open spec fn destination_conflict_name(
    tasks: Seq<SyncTask>,
    editing_task: Option<u128>,
    editing_destination: Option<u128>,
    answers: Seq<Vec<bool>>,
) -> Option<Seq<char>> {
    name_at(
        tasks,
        search::first(
            tasks.len(),
            destination_clash(tasks, editing_task, editing_destination, answers),
        ),
    )
}

/// The task, if any, whose source overlaps a path. `overlaps` answers that for each task.
///
/// Overlapping sources double-process the same input, which is fatal the moment one of them is a
/// Move: the second run finds the files already gone.
pub fn source_conflict(
    tasks: &Vec<SyncTask>,
    editing: Option<u128>,
    overlaps: &Vec<bool>,
) -> (r: Option<Conflict>)
    requires
        overlaps@.len() == tasks@.len(),
    ensures
        named(r) == source_conflict_name(tasks@, editing, overlaps@),
{
    let ghost holds = source_clash(tasks@, editing, overlaps@);
    let mut i: usize = 0;
    while i < tasks.len()
        invariant
            i <= tasks@.len(),
            overlaps@.len() == tasks@.len(),
            holds == source_clash(tasks@, editing, overlaps@),
            forall|k: int| 0 <= k < i ==> !(#[trigger] holds(k)),
        decreases tasks@.len() - i,
    {
        let own = match editing {
            Some(id) => tasks[i].id == id,
            None => false,
        };
        if !own && overlaps[i] {
            proof {
                search::lemma_found(i as int, tasks@.len(), holds);
            }
            return Some(Conflict { task_name: tasks[i].name.clone() });
        }
        i = i + 1;
    }
    proof {
        search::lemma_absent(tasks@.len(), holds);
    }
    None
}

/// Whether one of a task's destinations overlaps.
fn clashes(
    task: &SyncTask,
    editing_task: Option<u128>,
    editing_destination: Option<u128>,
    overlaps: &Vec<bool>,
) -> (r: bool)
    requires
        overlaps@.len() == task.destinations@.len(),
    ensures
        r == task_clashes(*task, editing_task, editing_destination, overlaps@),
{
    let set_aside = match (editing_task, editing_destination) {
        (Some(id), None) => task.id == id,
        _ => false,
    };
    let mut j: usize = 0;
    while j < task.destinations.len()
        invariant
            j <= task.destinations@.len(),
            overlaps@.len() == task.destinations@.len(),
            set_aside == (Some(task.id) == editing_task && editing_destination is None),
            forall|k: int|
                0 <= k < j ==> !(compared(
                    *task,
                    #[trigger] task.destinations@[k],
                    editing_task,
                    editing_destination,
                ) && overlaps@[k]),
        decreases task.destinations@.len() - j,
    {
        // The destination being edited is not its own conflict.
        let own = match editing_destination {
            Some(id) => task.destinations[j].id == id,
            None => false,
        };
        if !own && !set_aside && overlaps[j] {
            proof {
                assert(compared(
                    *task,
                    task.destinations@[j as int],
                    editing_task,
                    editing_destination,
                ));
            }
            return true;
        }
        j = j + 1;
    }
    false
}

/// The task, if any, one of whose destinations overlaps a path. `overlaps` answers that for each
/// destination of each task.
///
/// A whole task can be set aside when its own editor is checking its siblings separately.
pub fn destination_conflict(
    tasks: &Vec<SyncTask>,
    editing_task: Option<u128>,
    editing_destination: Option<u128>,
    overlaps: &Vec<Vec<bool>>,
) -> (r: Option<Conflict>)
    requires
        covers_destinations(overlaps@, tasks@),
    ensures
        named(r) == destination_conflict_name(
            tasks@,
            editing_task,
            editing_destination,
            overlaps@,
        ),
{
    let ghost holds = destination_clash(tasks@, editing_task, editing_destination, overlaps@);
    let mut i: usize = 0;
    while i < tasks.len()
        invariant
            i <= tasks@.len(),
            covers_destinations(overlaps@, tasks@),
            holds == destination_clash(tasks@, editing_task, editing_destination, overlaps@),
            forall|k: int| 0 <= k < i ==> !(#[trigger] holds(k)),
        decreases tasks@.len() - i,
    {
        proof {
            assert(overlaps@[i as int]@.len() == tasks@[i as int].destinations@.len());
        }
        if clashes(&tasks[i], editing_task, editing_destination, &overlaps[i]) {
            proof {
                search::lemma_found(i as int, tasks@.len(), holds);
            }
            return Some(Conflict { task_name: tasks[i].name.clone() });
        }
        i = i + 1;
    }
    proof {
        search::lemma_absent(tasks@.len(), holds);
    }
    None
}

/// A later destination overlaps the one at `i`.
pub open spec fn later_overlap(overlaps: Seq<Vec<bool>>, i: int) -> spec_fn(int) -> bool {
    |j: int| i < j && overlaps[i]@[j]
}

/// The destination at an index overlaps a later one.
pub open spec fn has_later_overlap(overlaps: Seq<Vec<bool>>, n: nat) -> spec_fn(int) -> bool {
    |i: int| search::first(n, later_overlap(overlaps, i)) is Some
}

/// The first pair of destinations of one task that overlap, by the earlier and then by the later
/// one. `overlaps` answers for each pair.
pub open spec fn sibling_pair(overlaps: Seq<Vec<bool>>, n: nat) -> Option<(int, int)> {
    match search::first(n, has_later_overlap(overlaps, n)) {
        Some(i) => Some((i, search::first(n, later_overlap(overlaps, i))->0)),
        None => None,
    }
}

/// The first pair of destinations within one task that overlap. `overlaps` answers for each pair.
///
/// A Mirror destination deletes as orphans whatever the sibling writing into its subtree just put
/// there.
pub fn sibling_conflict(task: &SyncTask, overlaps: &Vec<Vec<bool>>) -> (r: Option<
    (String, String),
>)
    requires
        overlaps@.len() == task.destinations@.len(),
        forall|i: int|
            0 <= i < overlaps@.len() ==> (#[trigger] overlaps@[i])@.len()
                == task.destinations@.len(),
    ensures
        match (r, sibling_pair(overlaps@, task.destinations@.len())) {
            (Some(names), Some(pair)) => names.0@ == task.destinations@[pair.0].name@ && names.1@
                == task.destinations@[pair.1].name@,
            (None, None) => true,
            _ => false,
        },
{
    let ghost n = task.destinations@.len();
    let ghost holds = has_later_overlap(overlaps@, n);
    let mut i: usize = 0;
    while i < task.destinations.len()
        invariant
            i <= task.destinations@.len(),
            n == task.destinations@.len(),
            overlaps@.len() == task.destinations@.len(),
            forall|i: int|
                0 <= i < overlaps@.len() ==> (#[trigger] overlaps@[i])@.len()
                    == task.destinations@.len(),
            holds == has_later_overlap(overlaps@, n),
            forall|k: int| 0 <= k < i ==> !(#[trigger] holds(k)),
        decreases task.destinations@.len() - i,
    {
        let ghost later = later_overlap(overlaps@, i as int);
        let mut j: usize = i + 1;
        while j < task.destinations.len()
            invariant
                i < task.destinations@.len(),
                i < j <= task.destinations@.len(),
                n == task.destinations@.len(),
                overlaps@.len() == task.destinations@.len(),
                overlaps@[i as int]@.len() == task.destinations@.len(),
                holds == has_later_overlap(overlaps@, n),
                later == later_overlap(overlaps@, i as int),
                forall|k: int| 0 <= k < i ==> !(#[trigger] holds(k)),
                forall|k: int| 0 <= k < j ==> !(#[trigger] later(k)),
            decreases task.destinations@.len() - j,
        {
            if overlaps[i][j] {
                proof {
                    search::lemma_found(j as int, n, later);
                    search::lemma_found(i as int, n, holds);
                }
                return Some((task.destinations[i].name.clone(), task.destinations[j].name.clone()));
            }
            j = j + 1;
        }
        proof {
            search::lemma_absent(n, later);
        }
        i = i + 1;
    }
    proof {
        search::lemma_absent(n, holds);
    }
    None
}

/// There is a full set of answers for each of a task's destinations.
pub open spec fn covers_each(
    answers: Seq<Vec<Vec<bool>>>,
    tasks: Seq<SyncTask>,
    task: SyncTask,
) -> bool {
    &&& answers.len() == task.destinations@.len()
    &&& forall|i: int| 0 <= i < answers.len() ==> covers_destinations(#[trigger] answers[i]@, tasks)
}

/// A destination of a task overlaps one of another task.
pub open spec fn run_clash(
    tasks: Seq<SyncTask>,
    task: SyncTask,
    answers: Seq<Vec<Vec<bool>>>,
) -> spec_fn(int) -> bool {
    |i: int| destination_conflict_name(tasks, Some(task.id), None, answers[i]@) is Some
}

/// The name of the task whose paths mean `task` must not run: one that shares its source, else
/// one that shares a destination.
pub open spec fn run_conflict_name(
    tasks: Seq<SyncTask>,
    task: SyncTask,
    sources: Seq<bool>,
    destinations: Seq<Vec<Vec<bool>>>,
) -> Option<Seq<char>> {
    match source_conflict_name(tasks, Some(task.id), sources) {
        Some(name) => Some(name),
        None => match search::first(
            task.destinations@.len(),
            run_clash(tasks, task, destinations),
        ) {
            Some(i) => destination_conflict_name(tasks, Some(task.id), None, destinations[i]@),
            None => None,
        },
    }
}

/// The other task, if any, whose paths mean `task` must not run. `sources` answers for each
/// task's source against this one's; `destinations`, for each of its destinations,
/// against each destination of each task.
///
/// Two destinations of the one task that overlap are not looked at here.
pub fn run_conflict(
    tasks: &Vec<SyncTask>,
    task: &SyncTask,
    sources: &Vec<bool>,
    destinations: &Vec<Vec<Vec<bool>>>,
) -> (r: Option<Conflict>)
    requires
        sources@.len() == tasks@.len(),
        covers_each(destinations@, tasks@, *task),
    ensures
        named(r) == run_conflict_name(tasks@, *task, sources@, destinations@),
{
    if let Some(conflict) = source_conflict(tasks, Some(task.id), sources) {
        return Some(conflict);
    }
    let ghost holds = run_clash(tasks@, *task, destinations@);
    let mut i: usize = 0;
    while i < task.destinations.len()
        invariant
            i <= task.destinations@.len(),
            covers_each(destinations@, tasks@, *task),
            source_conflict_name(tasks@, Some(task.id), sources@) is None,
            holds == run_clash(tasks@, *task, destinations@),
            forall|k: int| 0 <= k < i ==> !(#[trigger] holds(k)),
        decreases task.destinations@.len() - i,
    {
        proof {
            assert(covers_destinations(destinations@[i as int]@, tasks@));
        }
        if let Some(conflict) = destination_conflict(
            tasks,
            Some(task.id),
            None,
            &destinations[i],
        ) {
            proof {
                search::lemma_found(i as int, task.destinations@.len(), holds);
            }
            return Some(conflict);
        }
        i = i + 1;
    }
    proof {
        search::lemma_absent(task.destinations@.len(), holds);
    }
    None
}

/// A task in the list it is checked against is not its own conflict: where every answer that is
/// not about `task` itself is no, it may run.
pub proof fn law_a_task_is_not_its_own_conflict(
    tasks: Seq<SyncTask>,
    task: SyncTask,
    sources: Seq<bool>,
    destinations: Seq<Vec<Vec<bool>>>,
)
    requires
        sources.len() == tasks.len(),
        covers_each(destinations, tasks, task),
        forall|i: int|
            0 <= i < tasks.len() && (#[trigger] tasks[i]).id != task.id ==> !sources[i],
        forall|d: int, i: int, j: int|
            0 <= d < destinations.len() && 0 <= i < tasks.len() && tasks[i].id != task.id && 0 <= j
                < tasks[i].destinations@.len() ==> !(#[trigger] destinations[d]@[i]@[j]),
    ensures
        run_conflict_name(tasks, task, sources, destinations) is None,
{
    search::lemma_absent(tasks.len(), source_clash(tasks, Some(task.id), sources));
    let holds = run_clash(tasks, task, destinations);
    assert forall|d: int| 0 <= d < task.destinations@.len() implies !(#[trigger] holds(d)) by {
        let clash = destination_clash(tasks, Some(task.id), None, destinations[d]@);
        assert forall|i: int| 0 <= i < tasks.len() implies !(#[trigger] clash(i)) by {
            if clash(i) {
                let j = choose|j: int|
                    0 <= j < tasks[i].destinations@.len() && compared(
                        tasks[i],
                        #[trigger] tasks[i].destinations@[j],
                        Some(task.id),
                        None,
                    ) && destinations[d]@[i]@[j];
                assert(!destinations[d]@[i]@[j]);
            }
        }
        search::lemma_absent(tasks.len(), clash);
    }
    search::lemma_absent(task.destinations@.len(), holds);
}

/// A run is refused exactly when another task shares its source or one of its destinations.
pub proof fn law_a_run_is_refused_exactly_on_a_shared_end(
    tasks: Seq<SyncTask>,
    task: SyncTask,
    sources: Seq<bool>,
    destinations: Seq<Vec<Vec<bool>>>,
)
    requires
        sources.len() == tasks.len(),
        covers_each(destinations, tasks, task),
    ensures
        run_conflict_name(tasks, task, sources, destinations) is Some <==> {
            ||| exists|i: int|
                0 <= i < tasks.len() && (#[trigger] tasks[i]).id != task.id && sources[i]
            ||| exists|d: int, i: int, j: int|
                0 <= d < destinations.len() && 0 <= i < tasks.len() && tasks[i].id != task.id && 0
                    <= j < tasks[i].destinations@.len() && #[trigger] destinations[d]@[i]@[j]
        },
{
    let source = source_clash(tasks, Some(task.id), sources);
    search::lemma_first(tasks.len(), source);
    let holds = run_clash(tasks, task, destinations);
    search::lemma_first(task.destinations@.len(), holds);
    if run_conflict_name(tasks, task, sources, destinations) is Some {
        match search::first(tasks.len(), source) {
            Some(i) => {
                assert(tasks[i].id != task.id && sources[i]);
            },
            None => {
                let d = search::first(task.destinations@.len(), holds)->0;
                let clash = destination_clash(tasks, Some(task.id), None, destinations[d]@);
                search::lemma_first(tasks.len(), clash);
                let i = search::first(tasks.len(), clash)->0;
                let j = choose|j: int|
                    0 <= j < tasks[i].destinations@.len() && compared(
                        tasks[i],
                        #[trigger] tasks[i].destinations@[j],
                        Some(task.id),
                        None,
                    ) && destinations[d]@[i]@[j];
                assert(destinations[d]@[i]@[j]);
            },
        }
    } else {
        assert forall|i: int| 0 <= i < tasks.len() && (#[trigger] tasks[i]).id != task.id implies
            !sources[i] by {
            assert(!source(i));
        }
        assert forall|d: int, i: int, j: int|
            0 <= d < destinations.len() && 0 <= i < tasks.len() && tasks[i].id != task.id && 0 <= j
                < tasks[i].destinations@.len() implies !(#[trigger] destinations[d]@[i]@[j]) by {
            assert(!holds(d));
            let clash = destination_clash(tasks, Some(task.id), None, destinations[d]@);
            search::lemma_first(tasks.len(), clash);
            assert(!clash(i));
            assert(compared(tasks[i], tasks[i].destinations@[j], Some(task.id), None));
        }
    }
}

} // verus!
