//! What saving a task workspace promises about the rules that were being edited.

use crate::search;
use crate::strings::Language;
use crate::views::rule_list;
use crate::views::task_workspace;
use crate::views::task_workspace::{Answers, RowModel};
use crate::views::workspace_save;
use vstd::prelude::*;

verus! {

/// No two rows are about the same destination.
pub open spec fn distinct(rows: Seq<RowModel>) -> bool {
    forall|i: int, j: int|
        0 <= i < j < rows.len() ==> (#[trigger] rows[i]).destination.id != (
        #[trigger] rows[j]).destination.id
}

/// Every editor edits the destination of its row.
pub open spec fn edits_its_own(rows: Seq<RowModel>) -> bool {
    forall|i: int|
        0 <= i < rows.len() && (#[trigger] rows[i]).editor is Some
            ==> rows[i].editor->0.destination_id == rows[i].destination.id
}

/// A row once the editors of these destinations have been accepted.
pub open spec fn kept(row: RowModel, open: Seq<u128>, answer: Option<Answers>) -> RowModel {
    if row.editor is Some && open.contains(row.destination.id) {
        rule_list::finished(row, answer->0)
    } else {
        row
    }
}

/// Where a row stood before the one at `index` sank to the end.
spec fn stood(n: int, index: int, sinks: bool, now: int) -> int {
    if !sinks || index == n - 1 || now < index {
        now
    } else if now == n - 1 {
        index
    } else {
        now + 1
    }
}

/// Where a row stands after the one at `index` sank to the end.
spec fn stands(n: int, index: int, sinks: bool, before: int) -> int {
    if !sinks || index == n - 1 || before < index {
        before
    } else if before == index {
        n - 1
    } else {
        before - 1
    }
}

/// Sinking moves the list about and changes none of it.
proof fn lemma_sunk<A>(list: Seq<A>, index: int, sinks: bool)
    requires
        0 <= index < list.len(),
    ensures
        rule_list::sunk(list, index, sinks).len() == list.len(),
        forall|k: int|
            0 <= k < list.len() ==> {
                let from = stood(list.len() as int, index, sinks, k);
                &&& 0 <= from < list.len()
                &&& stands(list.len() as int, index, sinks, from) == k
                &&& #[trigger] rule_list::sunk(list, index, sinks)[k] == list[from]
            },
        forall|k: int|
            0 <= k < list.len() ==> {
                let to = #[trigger] stands(list.len() as int, index, sinks, k);
                &&& 0 <= to < list.len()
                &&& rule_list::sunk(list, index, sinks)[to] == list[k]
            },
{
}

/// Accepting editors one after the other keeps every row: as it was, or as its editor had it.
proof fn lemma_kept(
    words: Language,
    rows: Seq<RowModel>,
    places: Seq<int>,
    open: Seq<u128>,
    answers: Seq<Option<Answers>>,
    any: bool,
)
    requires
        places.len() == rows.len(),
        distinct(rows),
        edits_its_own(rows),
        workspace_save::committed(words, rows, places, open, answers, any).blocked is None,
    ensures
        ({
            let after = workspace_save::committed(words, rows, places, open, answers, any).rows;
            &&& after.len() == rows.len()
            &&& forall|i: int|
                0 <= i < rows.len() ==> after.contains(
                    #[trigger] kept(rows[i], open, answers[places[i]]),
                )
            &&& forall|k: int|
                0 <= k < after.len() && (#[trigger] after[k]).editor is Some ==> {
                    &&& rows.contains(after[k])
                    &&& !open.contains(after[k].destination.id)
                }
        }),
    decreases open.len(),
{
    let after = workspace_save::committed(words, rows, places, open, answers, any).rows;
    if open.len() == 0 {
        assert forall|i: int| 0 <= i < rows.len() implies after.contains(
            #[trigger] kept(rows[i], open, answers[places[i]]),
        ) by {
            assert(after[i] == rows[i]);
        }
    } else {
        let rest = open.skip(1);
        let id = open[0];
        assert forall|x: u128| open.contains(x) == (x == id || rest.contains(x)) by {
            if open.contains(x) && x != id {
                let at = choose|at: int| 0 <= at < open.len() && open[at] == x;
                assert(rest[at - 1] == x);
            }
            if rest.contains(x) {
                let at = choose|at: int| 0 <= at < rest.len() && rest[at] == x;
                assert(open[at + 1] == x);
            }
        }
        search::lemma_first(rows.len(), task_workspace::is_about(rows, id));
        let found = task_workspace::index_of_row(rows, id);
        if found is None || rows[found->0].editor is None {
            lemma_kept(words, rows, places, rest, answers, any);
            assert forall|i: int| 0 <= i < rows.len() && rows[i].editor is Some implies
                rows[i].destination.id != id by {
                if found is None {
                    assert(!task_workspace::is_about(rows, id)(i));
                } else {
                    assert(rows[found->0].destination.id == id);
                }
            }
            assert forall|i: int| 0 <= i < rows.len() implies after.contains(
                #[trigger] kept(rows[i], open, answers[places[i]]),
            ) by {
                assert(kept(rows[i], open, answers[places[i]]) == kept(
                    rows[i],
                    rest,
                    answers[places[i]],
                ));
            }
        } else {
            let at = found->0;
            let answer = answers[places[at]]->0;
            let done = rule_list::finished(rows[at], answer);
            let n = rows.len() as int;
            let sinks = done.is_catch_all();
            let updated = rows.update(at, done);
            assert(updated[at] == done);
            let next = rule_list::settled(updated, at);
            let next_places = rule_list::sunk(places, at, sinks);
            lemma_sunk(updated, at, sinks);
            lemma_sunk(places, at, sinks);
            assert(done.destination.id == rows[at].destination.id);
            assert forall|i: int, j: int| 0 <= i < j < next.len() implies (
            #[trigger] next[i]).destination.id != (#[trigger] next[j]).destination.id by {
                let a = stood(n, at, sinks, i);
                let b = stood(n, at, sinks, j);
                assert(next[i] == updated[a] && next[j] == updated[b]);
                assert(rows[a].destination.id != rows[b].destination.id);
            }
            assert forall|i: int| 0 <= i < next.len() && (
            #[trigger] next[i]).editor is Some implies next[i].editor->0.destination_id
                == next[i].destination.id by {
                let a = stood(n, at, sinks, i);
                assert(next[i] == updated[a]);
                assert(updated[a] == rows[a]);
            }
            lemma_kept(words, next, next_places, rest, answers, true);
            assert forall|i: int| 0 <= i < rows.len() implies after.contains(
                #[trigger] kept(rows[i], open, answers[places[i]]),
            ) by {
                let to = stands(n, at, sinks, i);
                assert(next[to] == updated[i]);
                assert(next_places[to] == places[i]);
                assert(after.contains(kept(next[to], rest, answers[next_places[to]])));
                if i != at {
                    assert(rows[i].destination.id != rows[at].destination.id);
                }
            }
            assert forall|k: int| 0 <= k < after.len() && (
            #[trigger] after[k]).editor is Some implies rows.contains(after[k])
                && !open.contains(after[k].destination.id) by {
                let i = choose|i: int| 0 <= i < next.len() && next[i] == after[k];
                let from = stood(n, at, sinks, i);
                assert(next[i] == updated[from]);
                assert(from != at);
                assert(updated[from] == rows[from]);
                assert(rows[from].destination.id != rows[at].destination.id);
            }
        }
    }
}

/// Every open row is committed.
proof fn lemma_open_ids(rows: Seq<RowModel>, index: int)
    requires
        0 <= index < rows.len(),
        rows[index].editor is Some,
    ensures
        workspace_save::open_ids(rows).contains(rows[index].destination.id),
    decreases rows.len(),
{
    let ids = workspace_save::open_ids(rows);
    let before = workspace_save::open_ids(rows.drop_last());
    if index == rows.len() - 1 {
        assert(ids.last() == rows[index].destination.id);
    } else {
        lemma_open_ids(rows.drop_last(), index);
        let id = rows[index].destination.id;
        let at = choose|at: int| 0 <= at < before.len() && before[at] == id;
        assert(ids[at] == id);
    }
}

/// What is saved holds the destination of every row that is not a draft.
proof fn lemma_saved(rows: Seq<RowModel>, index: int)
    requires
        0 <= index < rows.len(),
        !rows[index].draft,
    ensures
        task_workspace::saved_destinations(rows).contains(rows[index].destination),
    decreases rows.len(),
{
    let saved = task_workspace::saved_destinations(rows);
    let before = task_workspace::saved_destinations(rows.drop_last());
    if index == rows.len() - 1 {
        assert(saved.last() == rows[index].destination);
    } else {
        lemma_saved(rows.drop_last(), index);
        let at = choose|at: int|
            0 <= at < before.len() && before[at] == rows[index].destination;
        assert(saved[at] == rows[index].destination);
    }
}

/// A save that goes through loses nothing that was typed: no editor is left open, every rule that
/// was being edited is saved as its editor described it, every other rule is saved as it was, and
/// no row comes or goes.
pub proof fn law_a_save_keeps_every_edit(
    words: Language,
    rows: Seq<RowModel>,
    answers: Seq<Option<Answers>>,
)
    requires
        distinct(rows),
        edits_its_own(rows),
        workspace_save::committed(
            words,
            rows,
            workspace_save::in_place(rows.len()),
            workspace_save::open_ids(rows),
            answers,
            false,
        ).blocked is None,
    ensures
        ({
            let after = workspace_save::committed(
                words,
                rows,
                workspace_save::in_place(rows.len()),
                workspace_save::open_ids(rows),
                answers,
                false,
            ).rows;
            let saved = task_workspace::saved_destinations(after);
            &&& after.len() == rows.len()
            &&& forall|k: int| 0 <= k < after.len() ==> (#[trigger] after[k]).editor is None
            &&& forall|i: int|
                0 <= i < rows.len() ==> match (#[trigger] rows[i]).editor {
                    Some(editor) => saved.contains(
                        editor.described(answers[i]->0.leaf_name(), answers[i]->0.threshold),
                    ),
                    None => after.contains(rows[i]) && (!rows[i].draft ==> saved.contains(
                        rows[i].destination,
                    )),
                }
        }),
{
    let places = workspace_save::in_place(rows.len());
    let open = workspace_save::open_ids(rows);
    let after = workspace_save::committed(words, rows, places, open, answers, false).rows;
    let saved = task_workspace::saved_destinations(after);
    lemma_kept(words, rows, places, open, answers, false);
    assert forall|k: int| 0 <= k < after.len() implies (#[trigger] after[k]).editor is None by {
        if after[k].editor is Some {
            let i = choose|i: int| 0 <= i < rows.len() && rows[i] == after[k];
            lemma_open_ids(rows, i);
        }
    }
    assert forall|i: int| 0 <= i < rows.len() implies match (#[trigger] rows[i]).editor {
        Some(editor) => saved.contains(
            editor.described(answers[i]->0.leaf_name(), answers[i]->0.threshold),
        ),
        None => after.contains(rows[i]) && (!rows[i].draft ==> saved.contains(
            rows[i].destination,
        )),
    } by {
        let row = kept(rows[i], open, answers[places[i]]);
        assert(after.contains(row));
        let k = choose|k: int| 0 <= k < after.len() && after[k] == row;
        if rows[i].editor is Some {
            lemma_open_ids(rows, i);
            lemma_saved(after, k);
        } else if !rows[i].draft {
            lemma_saved(after, k);
        }
    }
}

/// The row at an index is open, and this is why it cannot be accepted.
pub open spec fn holds_up(
    words: Language,
    rows: Seq<RowModel>,
    index: int,
    answer: Option<Answers>,
    why: Seq<char>,
) -> bool {
    &&& 0 <= index < rows.len()
    &&& rows[index].editor is Some
    &&& rows[index].editor->0.reason(words, answer->0.probe) == Some(why)
}

/// A save that is refused drops no row, and the rule that holds it up stays open.
pub proof fn law_a_refused_save_leaves_the_rule_open(
    words: Language,
    rows: Seq<RowModel>,
    places: Seq<int>,
    open: Seq<u128>,
    answers: Seq<Option<Answers>>,
    any: bool,
)
    requires
        places.len() == rows.len(),
        workspace_save::committed(words, rows, places, open, answers, any).blocked is Some,
    ensures
        ({
            let commit = workspace_save::committed(words, rows, places, open, answers, any);
            &&& commit.rows.len() == rows.len()
            &&& exists|k: int, a: int|
                #[trigger] holds_up(words, commit.rows, k, answers[a], commit.blocked->0)
        }),
    decreases open.len(),
{
    if open.len() > 0 {
        let rest = open.skip(1);
        search::lemma_first(rows.len(), task_workspace::is_about(rows, open[0]));
        match task_workspace::index_of_row(rows, open[0]) {
            None => {
                law_a_refused_save_leaves_the_rule_open(words, rows, places, rest, answers, any);
            },
            Some(i) => match rows[i].editor {
                None => {
                    law_a_refused_save_leaves_the_rule_open(
                        words,
                        rows,
                        places,
                        rest,
                        answers,
                        any,
                    );
                },
                Some(editor) => {
                    let answer = answers[places[i]]->0;
                    let done = rule_list::finished(rows[i], answer);
                    match editor.reason(words, answer.probe) {
                        Some(why) => {
                            assert(holds_up(words, rows, i, answers[places[i]], why));
                        },
                        None => {
                            law_a_refused_save_leaves_the_rule_open(
                                words,
                                rule_list::settled(rows.update(i, done), i),
                                rule_list::sunk(places, i, done.is_catch_all()),
                                rest,
                                answers,
                                true,
                            );
                        },
                    }
                },
            },
        }
    }
}

} // verus!
