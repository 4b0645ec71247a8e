//! Which answers make a conflict, and whose name it carries.

use crate::model::SyncTask;
use crate::search;
use crate::state::overlap;
use vstd::prelude::*;

verus! {

/// Another task's source overlaps: the task at an index is not the one being edited, and its
/// answer is yes.
pub open spec fn other_source(
    tasks: Seq<SyncTask>,
    editing: Option<u128>,
    answers: Seq<bool>,
    i: int,
) -> bool {
    &&& 0 <= i < tasks.len()
    &&& answers[i]
    &&& editing is None || tasks[i].id != editing->0
}

/// A source conflict is named exactly when another task's source overlaps, and it names the first
/// such task.
pub proof fn law_a_source_conflict_names_the_first_task_that_shares_the_source(
    tasks: Seq<SyncTask>,
    editing: Option<u128>,
    answers: Seq<bool>,
)
    ensures
        match overlap::source_conflict_name(tasks, editing, answers) {
            Some(name) => exists|i: int|
                {
                    &&& #[trigger] other_source(tasks, editing, answers, i)
                    &&& name == tasks[i].name@
                    &&& forall|k: int|
                        0 <= k < i ==> !(#[trigger] other_source(tasks, editing, answers, k))
                },
            None => forall|i: int| !(#[trigger] other_source(tasks, editing, answers, i)),
        },
{
    let holds = overlap::source_clash(tasks, editing, answers);
    search::lemma_first(tasks.len(), holds);
    assert forall|i: int| 0 <= i < tasks.len() implies (#[trigger] holds(i) <==> other_source(
        tasks,
        editing,
        answers,
        i,
    )) by {}
    match search::first(tasks.len(), holds) {
        Some(i) => {
            assert(holds(i));
            assert(other_source(tasks, editing, answers, i));
            assert forall|k: int| 0 <= k < i implies !(#[trigger] other_source(
                tasks,
                editing,
                answers,
                k,
            )) by {
                assert(!holds(k));
            }
        },
        None => {
            assert forall|i: int| !(#[trigger] other_source(tasks, editing, answers, i)) by {
                if 0 <= i < tasks.len() {
                    assert(!holds(i));
                }
            }
        },
    }
}

/// The destination at two indices overlaps, and is one to compare with. While a destination is
/// edited that is every other destination of every task; while only a task is named, every
/// destination of every other task; else every destination there is.
pub open spec fn other_destination(
    tasks: Seq<SyncTask>,
    editing_task: Option<u128>,
    editing_destination: Option<u128>,
    answers: Seq<Vec<bool>>,
    i: int,
    j: int,
) -> bool {
    &&& 0 <= i < tasks.len()
    &&& 0 <= j < tasks[i].destinations@.len()
    &&& answers[i]@[j]
    &&& match (editing_task, editing_destination) {
        (_, Some(id)) => tasks[i].destinations@[j].id != id,
        (Some(id), None) => tasks[i].id != id,
        (None, None) => true,
    }
}

/// A destination conflict is named exactly when some destination to compare with overlaps, and it
/// names the first task that has one.
pub proof fn law_a_destination_conflict_names_the_first_task_that_shares_the_folder(
    tasks: Seq<SyncTask>,
    editing_task: Option<u128>,
    editing_destination: Option<u128>,
    answers: Seq<Vec<bool>>,
)
    ensures
        match overlap::destination_conflict_name(
            tasks,
            editing_task,
            editing_destination,
            answers,
        ) {
            Some(name) => exists|i: int, j: int|
                {
                    &&& #[trigger] other_destination(
                        tasks,
                        editing_task,
                        editing_destination,
                        answers,
                        i,
                        j,
                    )
                    &&& name == tasks[i].name@
                    &&& forall|k: int, m: int|
                        k < i ==> !(#[trigger] other_destination(
                            tasks,
                            editing_task,
                            editing_destination,
                            answers,
                            k,
                            m,
                        ))
                },
            None => forall|i: int, j: int|
                !(#[trigger] other_destination(
                    tasks,
                    editing_task,
                    editing_destination,
                    answers,
                    i,
                    j,
                )),
        },
{
    let holds = overlap::destination_clash(tasks, editing_task, editing_destination, answers);
    search::lemma_first(tasks.len(), holds);
    assert forall|i: int, j: int|
        0 <= i < tasks.len() && #[trigger] other_destination(
            tasks,
            editing_task,
            editing_destination,
            answers,
            i,
            j,
        ) implies holds(i) by {
        assert(overlap::compared(
            tasks[i],
            tasks[i].destinations@[j],
            editing_task,
            editing_destination,
        ));
    }
    match search::first(tasks.len(), holds) {
        Some(i) => {
            assert(overlap::task_clashes(
                tasks[i],
                editing_task,
                editing_destination,
                answers[i]@,
            ));
            let j = choose|j: int|
                0 <= j < tasks[i].destinations@.len() && overlap::compared(
                    tasks[i],
                    #[trigger] tasks[i].destinations@[j],
                    editing_task,
                    editing_destination,
                ) && answers[i]@[j];
            assert(other_destination(
                tasks,
                editing_task,
                editing_destination,
                answers,
                i,
                j,
            ));
            assert forall|k: int, m: int| k < i implies !(#[trigger] other_destination(
                tasks,
                editing_task,
                editing_destination,
                answers,
                k,
                m,
            )) by {
                if 0 <= k {
                    assert(!holds(k));
                }
            }
        },
        None => {
            assert forall|i: int, j: int| !(#[trigger] other_destination(
                tasks,
                editing_task,
                editing_destination,
                answers,
                i,
                j,
            )) by {
                if 0 <= i < tasks.len() {
                    assert(!holds(i));
                }
            }
        },
    }
}

/// Two destinations of one task that overlap, the earlier one first.
pub open spec fn overlapping_pair(overlaps: Seq<Vec<bool>>, n: nat, i: int, j: int) -> bool {
    0 <= i < j < n && overlaps[i]@[j]
}

/// Siblings conflict exactly when two of them overlap, and the pair named is the first: no pair
/// begins earlier, and none that begins there ends earlier.
pub proof fn law_a_sibling_conflict_is_the_first_pair_that_overlaps(
    overlaps: Seq<Vec<bool>>,
    n: nat,
)
    ensures
        match overlap::sibling_pair(overlaps, n) {
            Some((i, j)) => {
                &&& overlapping_pair(overlaps, n, i, j)
                &&& forall|k: int, m: int| #[trigger]
                    overlapping_pair(overlaps, n, k, m) ==> i < k || (i == k && j <= m)
            },
            None => forall|k: int, m: int| !(#[trigger] overlapping_pair(overlaps, n, k, m)),
        },
{
    let holds = overlap::has_later_overlap(overlaps, n);
    search::lemma_first(n, holds);
    assert forall|k: int, m: int| #[trigger] overlapping_pair(overlaps, n, k, m) implies holds(k)
        && search::first(n, overlap::later_overlap(overlaps, k)) is Some && search::first(
        n,
        overlap::later_overlap(overlaps, k),
    )->0 <= m by {
        let later = overlap::later_overlap(overlaps, k);
        search::lemma_first(n, later);
        assert(later(m));
    }
    match search::first(n, holds) {
        Some(i) => {
            assert(holds(i));
            let later = overlap::later_overlap(overlaps, i);
            search::lemma_first(n, later);
            let j = search::first(n, later)->0;
            assert(later(j));
            assert(overlapping_pair(overlaps, n, i, j));
            assert forall|k: int, m: int| #[trigger] overlapping_pair(overlaps, n, k, m) implies i < k
                || (i == k && j <= m) by {
                assert(holds(k));
            }
        },
        None => {
            assert forall|k: int, m: int| !(#[trigger] overlapping_pair(overlaps, n, k, m)) by {
                if overlapping_pair(overlaps, n, k, m) {
                    assert(holds(k));
                }
            }
        },
    }
}

} // verus!
