//! What editing the list of rules does to the rows in it.

use crate::i18n;
use crate::model;
use crate::model::{DestinationDefaults, DestinationView, SyncStrategy, SyncTask};
use crate::rules::RuleView;
use crate::search;
use crate::state::filters::ModelView;
use crate::state::routing;
use crate::strings;
use crate::strings::Language;
use crate::text;
use crate::views::destination_editor::DestinationEditor;
use crate::views::rule_list;
use crate::views::task_workspace;
use crate::views::task_workspace::{Answers, Limit, Row, RowModel, TaskWorkspace};
use crate::views::workspace_save;
use vstd::prelude::*;

verus! {

/// A row takes everything else exactly when it moves files and every file is all it selects.
pub proof fn law_everything_else_is_a_move_of_every_file(row: RowModel)
    ensures
        row.is_catch_all() <==> row.destination.strategy == SyncStrategy::Move
            && row.destination.filters == seq![RuleView::AllFiles],
{
    if row.is_catch_all() {
        assert(row.destination.filters =~= seq![RuleView::AllFiles]);
    }
}

/// A row made from a destination holds it, is closed, and is a draft exactly when the destination
/// has no folder yet.
pub proof fn law_a_row_without_a_folder_is_a_draft(destination: DestinationView)
    ensures
        RowModel::fresh(destination).destination == destination,
        RowModel::fresh(destination).editor is None,
        RowModel::fresh(destination).draft <==> destination.path.len() == 0,
{
}

/// What is said of a row is what it holds.
pub proof fn law_a_row_says_what_it_holds(rows: Seq<Row>, i: int)
    requires
        0 <= i < rows.len(),
    ensures
        task_workspace::row_models(rows).len() == rows.len(),
        task_workspace::row_models(rows)[i].destination == rows[i].destination@,
        task_workspace::row_models(rows)[i].draft == rows[i].draft,
        task_workspace::row_models(rows)[i].editor == rows[i].editor,
{
}

/// A row is found by the identifier of its destination, the first where two share it.
pub proof fn law_a_row_is_found_by_its_identifier(rows: Seq<RowModel>, id: u128)
    ensures
        match task_workspace::index_of_row(rows, id) {
            Some(i) => 0 <= i < rows.len() && rows[i].destination.id == id && forall|k: int|
                0 <= k < i ==> (#[trigger] rows[k]).destination.id != id,
            None => forall|k: int|
                0 <= k < rows.len() ==> (#[trigger] rows[k]).destination.id != id,
        },
{
    let holds = task_workspace::is_about(rows, id);
    search::lemma_first(rows.len(), holds);
    assert forall|k: int| 0 <= k < rows.len() implies holds(k) == ((
    #[trigger] rows[k]).destination.id == id) by {}
}

/// A new rule goes right above the first that takes everything else, and last where there is none.
pub proof fn law_a_new_rule_goes_right_above_everything_else(rows: Seq<RowModel>)
    ensures
        ({
            let at = task_workspace::insertion_point(rows);
            &&& 0 <= at <= rows.len()
            &&& at < rows.len() ==> rows[at].is_catch_all()
            &&& forall|k: int| 0 <= k < at ==> !(#[trigger] rows[k]).is_catch_all()
        }),
{
    let holds = task_workspace::takes_the_rest(rows);
    search::lemma_first(rows.len(), holds);
    assert forall|k: int| 0 <= k < rows.len() implies holds(k) == (
    #[trigger] rows[k]).is_catch_all() by {}
}

/// A list takes everything else exactly when one of its rows does.
pub proof fn law_one_row_is_enough_for_everything_else(rows: Seq<RowModel>)
    ensures
        task_workspace::has_catch_all(rows) <==> exists|i: int|
            0 <= i < rows.len() && (#[trigger] rows[i]).destination.strategy == SyncStrategy::Move
                && rows[i].destination.filters == seq![RuleView::AllFiles],
{
    assert forall|i: int| 0 <= i < rows.len() implies (#[trigger] rows[i]).is_catch_all() == (
    rows[i].destination.strategy == SyncStrategy::Move && rows[i].destination.filters
        == seq![RuleView::AllFiles]) by {
        law_everything_else_is_a_move_of_every_file(rows[i]);
    }
}

/// What is saved is the destinations of the rows that are no drafts, in order.
pub proof fn law_every_row_but_the_drafts_is_saved(rows: Seq<RowModel>)
    ensures
        task_workspace::saved_destinations(rows) == rows.filter(
            |row: RowModel| !row.draft,
        ).map_values(|row: RowModel| row.destination),
    decreases rows.len(),
{
    reveal(Seq::filter);
    let is_saved = |row: RowModel| !row.draft;
    let destination = |row: RowModel| row.destination;
    if rows.len() > 0 {
        law_every_row_but_the_drafts_is_saved(rows.drop_last());
    }
    assert(task_workspace::saved_destinations(rows) =~= rows.filter(is_saved).map_values(
        destination,
    ));
}

/// A row is said to be hidden exactly when a row above it takes all that it would, and the first
/// such row is named, by its place counted from one and by its name.
pub proof fn law_a_hidden_rule_names_the_first_that_hides_it(
    words: Language,
    rows: Seq<RowModel>,
    index: int,
)
    requires
        0 <= index < rows.len(),
    ensures
        match task_workspace::hidden_words(words, rows, index) {
            Some(said) => exists|earlier: int|
                {
                    &&& 0 <= earlier < index
                    &&& routing::takes_all_of(
                        (#[trigger] rows[earlier]).destination,
                        rows[index].destination,
                    )
                    &&& forall|k: int|
                        0 <= k < earlier ==> !routing::takes_all_of(
                            (#[trigger] rows[k]).destination,
                            rows[index].destination,
                        )
                    &&& said == i18n::said2(
                        words,
                        strings::WORKSPACE_SHADOWED_BY_FORMAT as int,
                        text::decimal((1 + earlier) as nat),
                        rows[earlier].destination.name,
                    )
                },
            None => forall|k: int|
                0 <= k < index ==> !routing::takes_all_of(
                    (#[trigger] rows[k]).destination,
                    rows[index].destination,
                ),
        },
{
    let holds = task_workspace::hides(rows, index);
    search::lemma_first(index as nat, holds);
    assert forall|k: int| 0 <= k < index implies holds(k) == routing::takes_all_of(
        (#[trigger] rows[k]).destination,
        rows[index].destination,
    ) by {}
    match search::first(index as nat, holds) {
        Some(earlier) => {
            assert(holds(earlier));
            assert(routing::takes_all_of(rows[earlier].destination, rows[index].destination));
        },
        None => {},
    }
}

/// A row is headed by what it selects; one that takes everything else says so, and one that
/// selects nothing says that.
pub proof fn law_a_row_is_headed_by_what_it_selects(words: Language, row: RowModel)
    ensures
        row.destination.strategy == SyncStrategy::Move && row.destination.filters
            == seq![RuleView::AllFiles] ==> task_workspace::row_summary(words, row) == words.says(
            strings::WORKSPACE_EVERYTHING_ELSE as int,
        ),
        !row.is_catch_all() ==> (ModelView::of(
            row.destination.filters,
        ).selection_words() matches Some(said) ==> task_workspace::row_summary(words, row)
            == said),
        !row.is_catch_all() && ModelView::of(row.destination.filters).selection_words() is None
            ==> task_workspace::row_summary(words, row) == words.says(
            strings::WORKSPACE_NOTHING_YET as int,
        ),
{
    law_everything_else_is_a_move_of_every_file(row);
}

/// Only rules that route are marked as hidden.
pub proof fn law_only_rules_that_route_are_marked(workspace: TaskWorkspace, words: Language, i: int)
    requires
        workspace.marks_hidden_rules(words),
        0 <= i < workspace.rows@.len(),
    ensures
        !workspace.routes() ==> workspace.rows@[i].shadowed_by is None,
        workspace.routes() ==> task_workspace::reads(
            workspace.rows@[i].shadowed_by,
            task_workspace::hidden_words(words, workspace.held(), i),
        ),
        workspace.routes() <==> workspace.task.kind is Move,
{
    assert(workspace.rows@[i].shadowed_by is None || workspace.rows@[i].shadowed_by is Some);
}

/// What is shown is what was expected, nothing for nothing.
pub proof fn law_what_is_shown_is_what_was_expected(
    shown: Option<String>,
    expected: Option<Seq<char>>,
)
    ensures
        task_workspace::reads(shown, expected) <==> match shown {
            Some(said) => expected == Some(said@),
            None => expected is None,
        },
{
}

/// A list that has just changed shows its rows, their marks, and nothing of an earlier preview.
pub proof fn law_a_changed_list_forgets_its_preview(
    workspace: TaskWorkspace,
    words: Language,
    held: Seq<RowModel>,
)
    requires
        workspace.lists(words, held),
    ensures
        workspace.held() == held,
        workspace.marks_hidden_rules(words),
        workspace.preview_summary is None,
        workspace.preview_unmatched is None,
        workspace.contested@.len() == 0,
        workspace.extensions@.len() == 0,
        forall|i: int|
            0 <= i < workspace.rows@.len() ==> (#[trigger] workspace.rows@[i]).preview is None,
{
}

/// Moving a rule up exchanges it with the one above; the first, and one that takes everything
/// else, stay.
pub proof fn law_moving_up_changes_places_with_the_one_above(rows: Seq<RowModel>, index: int)
    requires
        0 <= index < rows.len(),
    ensures
        ({
            let after = rule_list::raised(rows, index);
            &&& after.len() == rows.len()
            &&& index == 0 || rows[index].is_catch_all() ==> after == rows
            &&& index > 0 && !rows[index].is_catch_all() ==> {
                &&& after[index - 1] == rows[index]
                &&& after[index] == rows[index - 1]
                &&& forall|k: int|
                    0 <= k < rows.len() && k != index && k != index - 1 ==> #[trigger] after[k]
                        == rows[k]
            }
        }),
{
}

/// Moving a rule down exchanges it with the one below; the last stays, and nothing goes below what
/// takes everything else.
pub proof fn law_moving_down_changes_places_with_the_one_below(rows: Seq<RowModel>, index: int)
    requires
        0 <= index < rows.len(),
    ensures
        ({
            let after = rule_list::lowered(rows, index);
            &&& after.len() == rows.len()
            &&& index == rows.len() - 1 || rows[index].is_catch_all() ==> after == rows
            &&& index < rows.len() - 1 && rows[index + 1].is_catch_all() ==> after == rows
            &&& index < rows.len() - 1 && !rows[index].is_catch_all() && !rows[index
                + 1].is_catch_all() ==> {
                &&& after[index] == rows[index + 1]
                &&& after[index + 1] == rows[index]
                &&& forall|k: int|
                    0 <= k < rows.len() && k != index && k != index + 1 ==> #[trigger] after[k]
                        == rows[k]
            }
        }),
{
}

/// Deleting a rule takes out the rows of that identifier and leaves the others in order.
pub proof fn law_a_deleted_rule_is_taken_out(rows: Seq<RowModel>, id: u128)
    ensures
        rule_list::without(rows, id) == rows.filter(|row: RowModel| row.destination.id != id),
    decreases rows.len(),
{
    reveal(Seq::filter);
    if rows.len() > 0 {
        law_a_deleted_rule_is_taken_out(rows.drop_last(), id);
    }
    assert(rule_list::without(rows, id) =~= rows.filter(
        |row: RowModel| row.destination.id != id,
    ));
}

/// Backing out takes a draft out of the list; any other row is closed and otherwise left as it
/// was.
pub proof fn law_backing_out_closes_a_row_or_drops_a_draft(rows: Seq<RowModel>, index: int)
    requires
        0 <= index < rows.len(),
    ensures
        ({
            let after = rule_list::dropped(rows, index);
            &&& rows[index].draft ==> after == rows.take(index) + rows.skip(index + 1)
            &&& !rows[index].draft ==> {
                &&& after.len() == rows.len()
                &&& after[index].editor is None
                &&& after[index].destination == rows[index].destination
                &&& !after[index].draft
                &&& forall|k: int|
                    0 <= k < rows.len() && k != index ==> #[trigger] after[k] == rows[k]
            }
        }),
{
    assert(rows.remove(index) =~= rows.take(index) + rows.skip(index + 1));
}

/// A row that comes to take everything else goes last, and the rest close up; any other stays
/// where it is.
pub proof fn law_only_everything_else_sinks(rows: Seq<RowModel>, index: int)
    requires
        0 <= index < rows.len(),
    ensures
        ({
            let after = rule_list::settled(rows, index);
            &&& after.len() == rows.len()
            &&& !rows[index].is_catch_all() ==> after == rows
            &&& rows[index].is_catch_all() ==> {
                &&& after.last() == rows[index]
                &&& forall|k: int| 0 <= k < index ==> #[trigger] after[k] == rows[k]
                &&& forall|k: int|
                    index <= k < rows.len() - 1 ==> #[trigger] after[k] == rows[k + 1]
            }
        }),
{
}

/// A row that was accepted holds what its editor describes, is closed and is no draft.
pub proof fn law_an_accepted_row_holds_what_was_edited(row: RowModel, answers: Answers)
    requires
        row.editor is Some,
    ensures
        rule_list::finished(row, answers).destination == row.editor->0.described(
            answers.leaf_name(),
            answers.threshold,
        ),
        !rule_list::finished(row, answers).draft,
        rule_list::finished(row, answers).editor is None,
        answers.leaf is None <==> answers.leaf_name() is None,
        answers.leaf matches Some(name) ==> answers.leaf_name() == Some(name@),
{
}

/// Accepting a row changes that row alone: it is where it was, or last where it now takes
/// everything else, and every other row is still there.
pub proof fn law_accepting_changes_one_row(rows: Seq<RowModel>, index: int, answers: Answers)
    requires
        0 <= index < rows.len(),
        rows[index].editor is Some,
    ensures
        ({
            let done = rule_list::finished(rows[index], answers);
            let after = rule_list::taken_in(rows, index, answers);
            &&& after.len() == rows.len()
            &&& !done.is_catch_all() ==> after == rows.update(index, done)
            &&& done.is_catch_all() ==> after == rows.take(index) + rows.skip(index + 1) + seq![
                done,
            ]
        }),
{
    let done = rule_list::finished(rows[index], answers);
    let after = rule_list::taken_in(rows, index, answers);
    if done.is_catch_all() {
        assert(after =~= rows.take(index) + rows.skip(index + 1) + seq![done]);
    }
}

/// A new rule has neither a name nor a folder. In a list that routes it moves and selects nothing
/// yet; in any other it adds every file.
pub proof fn law_a_new_rule_is_empty(
    workspace: TaskWorkspace,
    id: u128,
    defaults: DestinationDefaults,
)
    ensures
        ({
            let new = workspace.new_rule(id, defaults);
            &&& new.id == id
            &&& new.name.len() == 0
            &&& new.path.len() == 0
            &&& workspace.task.kind is Move ==> new.strategy == SyncStrategy::Move
                && new.filters.len() == 0
            &&& !(workspace.task.kind is Move) ==> new.strategy == SyncStrategy::AddOnly
                && new.filters == seq![RuleView::AllFiles]
            &&& new.verify_contents == defaults.verify_contents
            &&& new.delete_mode == defaults.delete_mode
            &&& new.flatten_structure == defaults.flatten_structure
            &&& new.collision_policy == defaults.collision_policy
            &&& new.mass_delete_threshold == defaults.mass_delete_threshold
        }),
{
}

/// What is added for everything else is named so, moves every file, and has no folder yet.
pub proof fn law_a_new_everything_else_moves_every_file(
    words: Language,
    id: u128,
    defaults: DestinationDefaults,
)
    ensures
        ({
            let new = TaskWorkspace::new_catch_all(words, id, defaults);
            &&& new.id == id
            &&& new.name == words.says(strings::WORKSPACE_EVERYTHING_ELSE as int)
            &&& new.path.len() == 0
            &&& new.strategy == SyncStrategy::Move
            &&& new.filters == seq![RuleView::AllFiles]
        }),
{
}

/// A copy of a rule is that rule under an identifier of its own, closed and still a draft.
pub proof fn law_a_copy_differs_in_its_identifier(row: RowModel, id: u128)
    ensures
        ({
            let twin = TaskWorkspace::twin(row, id);
            &&& twin.destination.id == id
            &&& twin.destination == (DestinationView { id, ..row.destination })
            &&& twin.destination.name == row.destination.name
            &&& twin.destination.path == row.destination.path
            &&& twin.destination.filters == row.destination.filters
            &&& twin.destination.strategy == row.destination.strategy
            &&& twin.draft
            &&& twin.editor is None
        }),
{
}

/// An editor that opens on a row shows that row's rule, with the rules that are saved as its
/// siblings.
pub proof fn law_an_editor_opens_on_its_row(
    workspace: TaskWorkspace,
    index: int,
    limit: Limit,
    editor: DestinationEditor,
)
    requires
        0 <= index < workspace.rows@.len(),
        workspace.opens(index, limit, editor),
    ensures
        ({
            let rule = workspace.rows@[index].destination@;
            &&& editor.destination_id == rule.id
            &&& editor.task_id == workspace.task.id
            &&& editor.task_kind == workspace.task.kind
            &&& editor.source_path@ == workspace.task.source_path@
            &&& editor.name@ == rule.name
            &&& editor.path@ == rule.path
            &&& editor.strategy == rule.strategy
            &&& editor.verify_contents == rule.verify_contents
            &&& editor.delete_mode == rule.delete_mode
            &&& editor.flatten == rule.flatten_structure
            &&& editor.collision == rule.collision_policy
            &&& editor.threshold@ == limit.percent@
            &&& editor.confirm_large_deletions == limit.guarded
            &&& editor.catch_all <==> rule.strategy == SyncStrategy::Move && rule.filters
                == seq![RuleView::AllFiles]
            &&& !editor.catch_all ==> editor.filters@ == ModelView::of(rule.filters)
            &&& model::destination_views(editor.siblings@) == task_workspace::saved_destinations(
                workspace.held(),
            )
            &&& model::task_views(editor.tasks@) == model::task_views(workspace.tasks@)
        }),
{
    law_everything_else_is_a_move_of_every_file(workspace.held()[index]);
}

/// Opening a row opens it and no other, and takes back an earlier refusal to save; a row that is
/// open already, or is not there, changes nothing.
pub proof fn law_opening_a_row_opens_it_alone(
    before: TaskWorkspace,
    id: u128,
    limit: Limit,
    after: TaskWorkspace,
)
    requires
        before.expanded(id, limit, after),
    ensures
        match task_workspace::index_of_row(before.held(), id) {
            None => after == before,
            Some(i) => {
                &&& before.rows@[i].editor is Some ==> after == before
                &&& before.rows@[i].editor is None ==> {
                    &&& after.save_blocked is None
                    &&& after.rows@.len() == before.rows@.len()
                    &&& after.rows@[i].editor matches Some(editor) && before.opens(
                        i,
                        limit,
                        editor,
                    )
                    &&& after.rows@[i].destination == before.rows@[i].destination
                    &&& after.rows@[i].draft == before.rows@[i].draft
                    &&& after.rows@[i].preview == before.rows@[i].preview
                    &&& after.rows@[i].shadowed_by == before.rows@[i].shadowed_by
                    &&& forall|k: int|
                        0 <= k < before.rows@.len() && k != i ==> #[trigger] after.rows@[k]
                            == before.rows@[k]
                    &&& after.task == before.task
                    &&& after.tasks == before.tasks
                    &&& after.scanning == before.scanning
                    &&& after.preview_summary == before.preview_summary
                    &&& after.preview_unmatched == before.preview_unmatched
                    &&& after.contested == before.contested
                    &&& after.extensions == before.extensions
                }
            },
        },
{
    law_a_row_is_found_by_its_identifier(before.held(), id);
    match task_workspace::index_of_row(before.held(), id) {
        Some(i) => {
            if before.rows@[i].editor is None {
                let row = (Row { editor: after.rows@[i].editor, ..before.rows@[i] });
                assert(after.rows@ == before.rows@.update(i, row));
                assert(after.rows@[i] == row);
            }
        },
        None => {},
    }
}

/// An inserted row stands where it was put, with the rows before and after it as they were, and is
/// open.
pub proof fn law_an_inserted_row_stands_where_it_was_put(
    before: TaskWorkspace,
    words: Language,
    at: int,
    row: RowModel,
    limit: Limit,
    after: TaskWorkspace,
)
    requires
        0 <= at <= before.rows@.len(),
        row.editor is None,
        forall|k: int|
            0 <= k < before.rows@.len() ==> (#[trigger] before.held()[k]).destination.id
                != row.destination.id,
        before.inserted(words, at, row, limit, after),
    ensures
        after.rows@.len() == before.rows@.len() + 1,
        after.held()[at].destination == row.destination,
        after.held()[at].draft == row.draft,
        after.held()[at].editor is Some,
        forall|k: int| 0 <= k < at ==> #[trigger] after.held()[k] == before.held()[k],
        forall|k: int|
            at < k < after.rows@.len() ==> #[trigger] after.held()[k] == before.held()[k - 1],
        after.task == before.task,
        after.tasks == before.tasks,
{
    let held = before.held().insert(at, row);
    let between = choose|between: TaskWorkspace|
        #[trigger] before.relisted(words, held)(between) && between.expanded(
            row.destination.id,
            limit,
            after,
        );
    assert(between.held() == held);
    assert(between.rows@.len() == between.held().len());
    law_a_row_is_found_by_its_identifier(held, row.destination.id);
    assert(held[at].destination.id == row.destination.id);
    assert forall|k: int| 0 <= k < at implies (#[trigger] held[k]).destination.id
        != row.destination.id by {
        assert(held[k] == before.held()[k]);
    }
    law_opening_a_row_opens_it_alone(between, row.destination.id, limit, after);
    assert(task_workspace::index_of_row(held, row.destination.id) == Some(at)) by {
        let found = task_workspace::index_of_row(held, row.destination.id);
        if found is None {
            assert(held[at].destination.id != row.destination.id);
        } else if found->0 > at {
            assert(held[at].destination.id != row.destination.id);
        } else if found->0 < at {
            assert(held[found->0].destination.id != row.destination.id);
        }
    }
    assert(between.held()[at].editor is None);
    assert forall|k: int| 0 <= k < at implies #[trigger] after.held()[k] == before.held()[k] by {
        assert(after.rows@[k] == between.rows@[k]);
        assert(between.held()[k] == held[k]);
    }
    assert forall|k: int| at < k < after.rows@.len() implies #[trigger] after.held()[k]
        == before.held()[k - 1] by {
        assert(after.rows@[k] == between.rows@[k]);
        assert(between.held()[k] == held[k]);
    }
    assert(between.held()[at] == row);
}

/// The rules to take in are the rows that are open, in order.
pub proof fn law_every_open_row_is_to_be_taken_in(rows: Seq<RowModel>)
    ensures
        workspace_save::open_ids(rows) == rows.filter(
            |row: RowModel| row.editor is Some,
        ).map_values(|row: RowModel| row.destination.id),
    decreases rows.len(),
{
    reveal(Seq::filter);
    let is_open = |row: RowModel| row.editor is Some;
    let id = |row: RowModel| row.destination.id;
    if rows.len() > 0 {
        law_every_open_row_is_to_be_taken_in(rows.drop_last());
    }
    assert(workspace_save::open_ids(rows) =~= rows.filter(is_open).map_values(id));
}

/// Where nothing is to be taken in, nothing changes and nothing stands in the way.
pub proof fn law_with_nothing_open_nothing_changes(
    words: Language,
    rows: Seq<RowModel>,
    places: Seq<int>,
    answers: Seq<Option<Answers>>,
    any: bool,
)
    ensures
        workspace_save::committed(words, rows, places, Seq::empty(), answers, any).rows == rows,
        workspace_save::committed(words, rows, places, Seq::empty(), answers, any).any == any,
        workspace_save::committed(
            words,
            rows,
            places,
            Seq::empty(),
            answers,
            any,
        ).blocked is None,
{
}

/// The first open rule that has something wrong stops the save there: nothing after it is taken
/// in, and the reason is the one its editor gives.
pub proof fn law_the_first_rule_in_the_way_stops_the_save(
    words: Language,
    rows: Seq<RowModel>,
    places: Seq<int>,
    id: u128,
    rest: Seq<u128>,
    answers: Seq<Option<Answers>>,
    any: bool,
    i: int,
)
    requires
        places.len() == rows.len(),
        0 <= i < rows.len(),
        rows[i].destination.id == id,
        forall|k: int| 0 <= k < i ==> (#[trigger] rows[k]).destination.id != id,
        rows[i].editor is Some,
    ensures
        ({
            let answer = answers[places[i]]->0;
            let done = rule_list::finished(rows[i], answer);
            let whole = workspace_save::committed(
                words,
                rows,
                places,
                seq![id] + rest,
                answers,
                any,
            );
            match rows[i].editor->0.reason(words, answer.probe) {
                Some(why) => whole.rows == rows && whole.any == any && whole.blocked == Some(why),
                None => whole == workspace_save::committed(
                    words,
                    rule_list::taken_in(rows, i, answer),
                    if done.is_catch_all() {
                        places.remove(i).push(places[i])
                    } else {
                        places
                    },
                    rest,
                    answers,
                    true,
                ),
            }
        }),
{
    let open = seq![id] + rest;
    law_a_row_is_found_by_its_identifier(rows, id);
    assert(open.skip(1) =~= rest);
    assert(open[0] == id);
    if i == places.len() - 1 {
        assert(places.remove(i).push(places[i]) =~= places);
    }
    assert(task_workspace::index_of_row(rows, id) == Some(i)) by {
        let found = task_workspace::index_of_row(rows, id);
        if found is None {
            assert(rows[i].destination.id != id);
        } else if found->0 > i {
            assert(rows[i].destination.id != id);
        } else if found->0 < i {
            assert(rows[found->0].destination.id != id);
        }
    }
}

/// Once a rule has been taken in, the save says so to its end.
pub proof fn law_a_rule_taken_in_is_reported(
    words: Language,
    rows: Seq<RowModel>,
    places: Seq<int>,
    open: Seq<u128>,
    answers: Seq<Option<Answers>>,
)
    ensures
        workspace_save::committed(words, rows, places, open, answers, true).any,
    decreases open.len(),
{
    if open.len() > 0 {
        let rest = open.skip(1);
        match task_workspace::index_of_row(rows, open[0]) {
            None => {
                law_a_rule_taken_in_is_reported(words, rows, places, rest, answers);
            },
            Some(i) => {
                if rows[i].editor is None {
                    law_a_rule_taken_in_is_reported(words, rows, places, rest, answers);
                } else {
                    let done = rule_list::finished(rows[i], answers[places[i]]->0);
                    law_a_rule_taken_in_is_reported(
                        words,
                        rule_list::settled(rows.update(i, done), i),
                        rule_list::sunk(places, i, done.is_catch_all()),
                        rest,
                        answers,
                    );
                }
            },
        }
    }
}

/// Before anything moves each row stands in its own place.
pub proof fn law_each_row_stands_in_its_own_place(n: nat, i: int)
    requires
        0 <= i < n,
    ensures
        workspace_save::in_place(n).len() == n,
        workspace_save::in_place(n)[i] == i,
{
}

/// A refused save says why; one that was not refused says nothing.
pub proof fn law_a_refused_save_says_why(words: Language, why: Seq<char>)
    ensures
        workspace_save::refusal(words, Some(why)) == Some(
            i18n::said1(words, strings::WORKSPACE_SAVE_BLOCKED_FORMAT as int, why),
        ),
        workspace_save::refusal(words, None) is None,
{
}

/// A workspace that was just opened lists the task's destinations in order, all of them closed.
pub proof fn law_a_workspace_lists_the_tasks_destinations(
    words: Language,
    task: SyncTask,
    tasks: Seq<SyncTask>,
    workspace: TaskWorkspace,
    i: int,
)
    requires
        workspace_save::is_closed_workspace(words, task, tasks, workspace),
        0 <= i < task.destinations@.len(),
    ensures
        workspace.rows@.len() == task.destinations@.len(),
        workspace.rows@[i].destination@ == task.destinations@[i]@,
        workspace.rows@[i].draft <==> task.destinations@[i].path@.len() == 0,
        workspace.rows@[i].editor is None,
        workspace.task@ == task@,
        model::task_views(workspace.tasks@) == model::task_views(tasks),
        workspace.save_blocked is None,
        !workspace.scanning,
{
    assert(workspace.held().len() == workspace.rows@.len());
    assert(workspace.held()[i] == RowModel::fresh(task.destinations@[i]@));
}

/// A workspace opens on the row that was asked for, and on none where none was.
pub proof fn law_a_workspace_opens_on_the_row_that_was_asked_for(
    closed: TaskWorkspace,
    id: u128,
    limit: Limit,
    opened: TaskWorkspace,
)
    ensures
        workspace_save::is_opened_workspace(closed, None, limit, opened) <==> opened == closed,
        workspace_save::is_opened_workspace(closed, Some(id), limit, opened) <==> closed.expanded(
            id,
            limit,
            opened,
        ),
{
}

/// A list that was put in another order, or had a row put in or taken out, is still of the same
/// task, and still says what stood in the way of the last save.
pub proof fn law_a_relisted_workspace_is_of_the_same_task(
    before: TaskWorkspace,
    words: Language,
    held: Seq<RowModel>,
    after: TaskWorkspace,
)
    requires
        before.relisted(words, held)(after),
    ensures
        after.held() == held,
        after.task == before.task,
        after.tasks == before.tasks,
        after.scanning == before.scanning,
        after.save_blocked == before.save_blocked,
        after.preview_summary is None,
        after.preview_unmatched is None,
{
}

} // verus!
