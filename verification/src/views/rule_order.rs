//! What holds of the order of the rules whatever is done to them.
//!
//! Under first-match-wins a rule below "everything else" could never match, so the catch-all is
//! kept last by every way the list can change.

use crate::model::DestinationDefaults;
use crate::search;
use crate::strings::Language;
use crate::views::rule_list;
use crate::views::task_workspace;
use crate::views::task_workspace::{Answers, Limit, RowModel, TaskWorkspace};
use vstd::prelude::*;

verus! {

/// Nothing but an "everything else" rule stands below one.
pub open spec fn catch_all_last(rows: Seq<RowModel>) -> bool {
    forall|i: int, j: int|
        0 <= i < j < rows.len() && (#[trigger] rows[i]).is_catch_all() ==> (
        #[trigger] rows[j]).is_catch_all()
}

/// A new rule goes above "everything else", and the catch-all stays last.
pub proof fn law_a_new_rule_goes_above_everything_else(
    workspace: TaskWorkspace,
    id: u128,
    defaults: DestinationDefaults,
)
    requires
        catch_all_last(workspace.held()),
    ensures
        catch_all_last(
            workspace.held().insert(
                task_workspace::insertion_point(workspace.held()),
                RowModel::fresh(workspace.new_rule(id, defaults)),
            ),
        ),
{
    let rows = workspace.held();
    search::lemma_first(rows.len(), task_workspace::takes_the_rest(rows));
    let at = task_workspace::insertion_point(rows);
    let row = RowModel::fresh(workspace.new_rule(id, defaults));
    let after = rows.insert(at, row);
    assert(!row.is_catch_all());
    let holds = task_workspace::takes_the_rest(rows);
    assert forall|k: int| 0 <= k < at implies !(#[trigger] rows[k]).is_catch_all() by {
        assert(!holds(k));
    }
    assert forall|i: int, j: int|
        0 <= i < j < after.len() && (#[trigger] after[i]).is_catch_all() implies (
    #[trigger] after[j]).is_catch_all() by {
        assert(i > at);
        assert(after[i] == rows[i - 1]);
        assert(after[j] == rows[j - 1]);
    }
}

/// An "everything else" rule that is added goes last.
pub proof fn law_an_added_catch_all_goes_last(
    words: Language,
    rows: Seq<RowModel>,
    id: u128,
    defaults: DestinationDefaults,
)
    requires
        catch_all_last(rows),
    ensures
        RowModel::fresh(TaskWorkspace::new_catch_all(words, id, defaults)).is_catch_all(),
        catch_all_last(
            rows.insert(
                rows.len() as int,
                RowModel::fresh(TaskWorkspace::new_catch_all(words, id, defaults)),
            ),
        ),
{
    let row = RowModel::fresh(TaskWorkspace::new_catch_all(words, id, defaults));
    let after = rows.insert(rows.len() as int, row);
    assert(row.destination.filters[0] is AllFiles);
    assert forall|i: int, j: int|
        0 <= i < j < after.len() && (#[trigger] after[i]).is_catch_all() implies (
    #[trigger] after[j]).is_catch_all() by {
        if j < rows.len() {
            assert(after[i] == rows[i] && after[j] == rows[j]);
        }
    }
}

/// Copying a row keeps the catch-all last: the copy is one exactly if the row is.
pub proof fn law_a_copy_keeps_the_catch_all_last(rows: Seq<RowModel>, index: int, id: u128)
    requires
        catch_all_last(rows),
        0 <= index < rows.len(),
    ensures
        catch_all_last(rows.insert(index + 1, TaskWorkspace::twin(rows[index], id))),
{
    let twin = TaskWorkspace::twin(rows[index], id);
    let after = rows.insert(index + 1, twin);
    assert(twin.is_catch_all() == rows[index].is_catch_all());
    assert forall|i: int, j: int|
        0 <= i < j < after.len() && (#[trigger] after[i]).is_catch_all() implies (
    #[trigger] after[j]).is_catch_all() by {
        let from = if i <= index {
            i
        } else {
            i - 1
        };
        let to = if j <= index {
            j
        } else {
            j - 1
        };
        assert(rows[from].is_catch_all());
        assert(from <= to);
        assert(rows[to].is_catch_all());
    }
}

/// What is left after rows are taken out stands in the order it stood in.
proof fn lemma_without_keeps_order(rows: Seq<RowModel>, id: u128)
    requires
        catch_all_last(rows),
    ensures
        catch_all_last(rule_list::without(rows, id)),
        forall|i: int|
            0 <= i < rule_list::without(rows, id).len() ==> exists|k: int|
                0 <= k < rows.len() && rows[k] == #[trigger] rule_list::without(rows, id)[i],
    decreases rows.len(),
{
    if rows.len() > 0 {
        let front = rows.drop_last();
        assert forall|i: int, j: int|
            0 <= i < j < front.len() && (#[trigger] front[i]).is_catch_all() implies (
        #[trigger] front[j]).is_catch_all() by {
            assert(rows[i] == front[i] && rows[j] == front[j]);
        }
        lemma_without_keeps_order(front, id);
        let left = rule_list::without(front, id);
        let after = rule_list::without(rows, id);
        assert forall|i: int| 0 <= i < after.len() implies exists|k: int|
            0 <= k < rows.len() && rows[k] == #[trigger] after[i] by {
            if i < left.len() {
                assert(after[i] == left[i]);
                let k = choose|k: int| 0 <= k < front.len() && front[k] == left[i];
                assert(rows[k] == front[k]);
            } else {
                assert(rows[rows.len() - 1] == after[i]);
            }
        }
        assert forall|i: int, j: int|
            0 <= i < j < after.len() && (#[trigger] after[i]).is_catch_all() implies (
        #[trigger] after[j]).is_catch_all() by {
            assert(after[i] == left[i]);
            if j < left.len() {
                assert(after[j] == left[j]);
            } else {
                let k = choose|k: int| 0 <= k < front.len() && front[k] == left[i];
                assert(rows[k] == front[k]);
                assert(rows[k].is_catch_all());
                assert(rows[rows.len() - 1].is_catch_all());
            }
        }
    }
}

/// Taking rows out keeps the catch-all last.
pub proof fn law_removing_keeps_the_catch_all_last(rows: Seq<RowModel>, id: u128)
    requires
        catch_all_last(rows),
    ensures
        catch_all_last(rule_list::without(rows, id)),
{
    lemma_without_keeps_order(rows, id);
}

/// Backing out of an edit keeps the catch-all last.
pub proof fn law_backing_out_keeps_the_catch_all_last(rows: Seq<RowModel>, index: int)
    requires
        catch_all_last(rows),
        0 <= index < rows.len(),
    ensures
        catch_all_last(rule_list::dropped(rows, index)),
{
    let after = rule_list::dropped(rows, index);
    assert forall|i: int, j: int|
        0 <= i < j < after.len() && (#[trigger] after[i]).is_catch_all() implies (
    #[trigger] after[j]).is_catch_all() by {
        if rows[index].draft {
            let from = if i < index {
                i
            } else {
                i + 1
            };
            let to = if j < index {
                j
            } else {
                j + 1
            };
            assert(after[i] == rows[from] && after[j] == rows[to]);
        } else {
            assert(rows[i].is_catch_all());
            assert(rows[j].is_catch_all());
        }
    }
}

/// Reordering keeps the catch-all last.
pub proof fn law_reordering_keeps_the_catch_all_last(rows: Seq<RowModel>, index: int)
    requires
        catch_all_last(rows),
        0 <= index < rows.len(),
    ensures
        catch_all_last(rule_list::raised(rows, index)),
        catch_all_last(rule_list::lowered(rows, index)),
{
    let up = rule_list::raised(rows, index);
    if index > 0 && !rows[index].is_catch_all() {
        assert(!rows[index - 1].is_catch_all());
        assert forall|i: int, j: int|
            0 <= i < j < up.len() && (#[trigger] up[i]).is_catch_all() implies (
        #[trigger] up[j]).is_catch_all() by {
            assert(up[i] == rows[i]);
            if i < index {
                assert(rows[index].is_catch_all());
            }
            assert(up[j] == rows[j]);
        }
    }
    let down = rule_list::lowered(rows, index);
    if index + 1 < rows.len() && !rows[index].is_catch_all() && !rows[index + 1].is_catch_all() {
        assert forall|i: int, j: int|
            0 <= i < j < down.len() && (#[trigger] down[i]).is_catch_all() implies (
        #[trigger] down[j]).is_catch_all() by {
            assert(down[i] == rows[i]);
            if i < index + 1 {
                assert(rows[index + 1].is_catch_all());
            }
            assert(down[j] == rows[j]);
        }
    }
}

/// Moving a rule down and then the same rule up again puts the list back.
pub proof fn law_moving_down_and_up_puts_the_list_back(rows: Seq<RowModel>, index: int)
    requires
        0 <= index,
        index + 1 < rows.len(),
        !rows[index].is_catch_all(),
        !rows[index + 1].is_catch_all(),
    ensures
        rule_list::raised(rule_list::lowered(rows, index), index + 1) == rows,
{
    assert(rule_list::raised(rule_list::lowered(rows, index), index + 1) =~= rows);
}

/// An accepted rule that takes everything else has gone to the end, and the catch-all stays last.
/// Only a row that stops being one below another could stay in between.
pub proof fn law_accepting_keeps_the_catch_all_last(
    rows: Seq<RowModel>,
    index: int,
    answers: Answers,
)
    requires
        catch_all_last(rows),
        0 <= index < rows.len(),
        rows[index].editor is Some,
        rows[index].is_catch_all() && index > 0 && rows[index - 1].is_catch_all()
            ==> rule_list::finished(rows[index], answers).is_catch_all(),
    ensures
        catch_all_last(rule_list::taken_in(rows, index, answers)),
{
    let done = rule_list::finished(rows[index], answers);
    let updated = rows.update(index, done);
    let after = rule_list::taken_in(rows, index, answers);
    assert(updated[index] == done);
    assert forall|i: int, j: int|
        0 <= i < j < after.len() && (#[trigger] after[i]).is_catch_all() implies (
    #[trigger] after[j]).is_catch_all() by {
        if done.is_catch_all() {
            if j < after.len() - 1 {
                let from = if i < index {
                    i
                } else {
                    i + 1
                };
                let to = if j < index {
                    j
                } else {
                    j + 1
                };
                assert(after[i] == rows[from] && after[j] == rows[to]);
            } else {
                assert(after[j] == done);
            }
        } else {
            assert(after[i] == rows[i]);
            assert(rows[j].is_catch_all());
            if j == index {
                // Everything between the two takes the rest, the row above this one too.
                if i < index - 1 {
                    assert(rows[index - 1].is_catch_all());
                }
            }
        }
    }
}

/// Opening a row changes no destination, so it moves nothing.
pub proof fn law_opening_a_row_keeps_the_rules(
    before: TaskWorkspace,
    id: u128,
    limit: Limit,
    after: TaskWorkspace,
)
    requires
        before.expanded(id, limit, after),
    ensures
        after.rows@.len() == before.rows@.len(),
        forall|i: int|
            0 <= i < after.rows@.len() ==> (#[trigger] after.held()[i]).destination
                == before.held()[i].destination && after.held()[i].draft == before.held()[i].draft,
        task_workspace::saved_destinations(after.held()) == task_workspace::saved_destinations(
            before.held(),
        ),
{
    search::lemma_first(before.held().len(), task_workspace::is_about(before.held(), id));
    assert forall|i: int| 0 <= i < after.rows@.len() implies (
    #[trigger] after.held()[i]).destination == before.held()[i].destination
        && after.held()[i].draft == before.held()[i].draft by {
        assert(after.held()[i] == after.rows@[i]@);
        assert(before.held()[i] == before.rows@[i]@);
    }
    lemma_same_saved(before.held(), after.held());
}

/// What is saved depends on the destinations and on which rows are drafts alone.
proof fn lemma_same_saved(one: Seq<RowModel>, other: Seq<RowModel>)
    requires
        one.len() == other.len(),
        forall|i: int|
            0 <= i < one.len() ==> (#[trigger] other[i]).destination == one[i].destination
                && other[i].draft == one[i].draft,
    ensures
        task_workspace::saved_destinations(one) == task_workspace::saved_destinations(other),
    decreases one.len(),
{
    if one.len() > 0 {
        assert forall|i: int| 0 <= i < one.len() - 1 implies (
        #[trigger] other.drop_last()[i]).destination == one.drop_last()[i].destination
            && other.drop_last()[i].draft == one.drop_last()[i].draft by {
            assert(other.drop_last()[i] == other[i]);
        }
        lemma_same_saved(one.drop_last(), other.drop_last());
        assert(other[other.len() - 1].destination == one[one.len() - 1].destination);
    }
}

/// Backing out of a rule that was never saved leaves what would be saved as it was.
pub proof fn law_backing_out_saves_what_was_there(rows: Seq<RowModel>, index: int)
    requires
        0 <= index < rows.len(),
    ensures
        task_workspace::saved_destinations(rule_list::dropped(rows, index))
            == task_workspace::saved_destinations(rows),
    decreases rows.len(),
{
    let after = rule_list::dropped(rows, index);
    if !rows[index].draft {
        assert forall|i: int| 0 <= i < rows.len() implies (#[trigger] after[i]).destination
            == rows[i].destination && after[i].draft == rows[i].draft by {}
        lemma_same_saved(rows, after);
    } else if index == rows.len() - 1 {
        assert(after =~= rows.drop_last());
    } else {
        law_backing_out_saves_what_was_there(rows.drop_last(), index);
        assert(rows.drop_last()[index] == rows[index]);
        assert(after.drop_last() =~= rule_list::dropped(rows.drop_last(), index));
        assert(after.last() == rows.last());
    }
}

} // verus!
