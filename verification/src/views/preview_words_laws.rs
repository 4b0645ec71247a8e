//! What a preview of the routing says of the files it found.

use crate::i18n;
use crate::state::preview::{ContestedFile, DestinationPreview, Scan};
use crate::strings;
use crate::strings::Language;
use crate::text;
use crate::views::routing_preview;
use crate::views::routing_preview::RowActions;
use crate::views::rule_laws;
use crate::views::task_workspace;
use crate::views::task_workspace::{Row, RowModel, TaskWorkspace};
use vstd::prelude::*;

verus! {

/// One file is counted in the singular, and any other number in the plural.
pub proof fn law_files_are_counted(words: Language, count: usize)
    requires
        count <= 0x7fff_ffff_ffff_ffff,
    ensures
        count == 1 ==> routing_preview::files_words(words, count) == i18n::said1(
            words,
            strings::COMMON_FILES_COUNT_ONE as int,
            text::signed_decimal(1),
        ),
        count != 1 ==> routing_preview::files_words(words, count) == i18n::said1(
            words,
            strings::COMMON_FILES_COUNT_OTHER as int,
            text::signed_decimal(count as int),
        ),
{
}

/// Rules are numbered from one.
pub proof fn law_rules_are_numbered_from_one(rules: Seq<usize>, i: int)
    requires
        0 <= i < rules.len(),
    ensures
        routing_preview::positions(rules).len() == rules.len(),
        routing_preview::positions(rules)[i] == text::decimal((1 + rules[i]) as nat),
{
}

/// The first of the rules that want a file wins it, by its place among the rules that are saved.
pub proof fn law_the_first_rule_wins(rows: Seq<RowModel>, rules: Seq<usize>)
    ensures
        ({
            let saved = rows.filter(|row: RowModel| !row.draft);
            &&& rules.len() > 0 && rules[0] < saved.len() ==> routing_preview::winner(rows, rules)
                == saved[rules[0] as int].destination.name
            &&& rules.len() == 0 || rules[0] >= saved.len() ==> routing_preview::winner(
                rows,
                rules,
            ).len() == 0
        }),
{
    rule_laws::law_every_row_but_the_drafts_is_saved(rows);
}

/// A contested file is named, then the numbers of all the rules that want it, then the one that
/// wins.
pub proof fn law_a_contested_file_says_who_wants_it_and_who_wins(
    words: Language,
    rows: Seq<RowModel>,
    file: ContestedFile,
)
    ensures
        routing_preview::contested_words(words, rows, file) == i18n::said3(
            words,
            strings::WORKSPACE_PREVIEW_CONTESTED_FORMAT as int,
            file.relative_path@,
            text::joined(routing_preview::positions(file.rules@), ", "@),
            routing_preview::winner(rows, file.rules@),
        ),
{
}

/// Files that nobody wants are counted and some of them named; where there are none, nothing is
/// said.
pub proof fn law_files_that_nobody_wants_are_named(
    words: Language,
    unmatched: DestinationPreview,
)
    ensures
        unmatched.count == 0 <==> routing_preview::unmatched_words(words, unmatched) is None,
        unmatched.count > 0 ==> routing_preview::unmatched_words(words, unmatched) == Some(
            i18n::said2(
                words,
                strings::WORKSPACE_PREVIEW_UNMATCHED_FORMAT as int,
                routing_preview::files_words(words, unmatched.count),
                text::joined(unmatched@.sample, ", "@),
            ),
        ),
{
}

/// A row shows the share that was found for its destination, and none where none was.
pub proof fn law_a_row_shows_its_own_share(row: Row, scan: Scan)
    requires
        routing_preview::shows_share(row, scan),
    ensures
        row.preview is Some <==> scan.per_destination@.contains_key(row.destination.id),
        row.preview matches Some(share) ==> share@
            == scan.per_destination@[row.destination.id]@,
{
}

/// A preview counts the files found, names those that nobody wants, shows each row its share, and
/// lists the contested files and the types in order.
pub proof fn law_a_preview_says_what_was_found(
    workspace: TaskWorkspace,
    words: Language,
    scan: Scan,
)
    requires
        workspace.previews(words, scan),
    ensures
        workspace.preview_summary matches Some(said) && said@ == i18n::said1(
            words,
            strings::WORKSPACE_PREVIEW_SOURCE_FORMAT as int,
            routing_preview::files_words(words, scan.file_count),
        ),
        workspace.preview_unmatched is Some <==> scan.unmatched.count > 0,
        task_workspace::reads(
            workspace.preview_unmatched,
            routing_preview::unmatched_words(words, scan.unmatched),
        ),
        forall|i: int|
            0 <= i < workspace.rows@.len() ==> ((#[trigger] workspace.rows@[i]).preview is Some
                <==> scan.per_destination@.contains_key(workspace.rows@[i].destination.id)),
        workspace.contested@.len() == scan.contested@.len(),
        forall|i: int|
            0 <= i < scan.contested@.len() ==> (#[trigger] workspace.contested@[i])@
                == routing_preview::contested_words(words, workspace.held(), scan.contested@[i]),
        workspace.extensions == scan.extensions,
{
}

/// A preview leaves the marks of hidden rules as they are.
pub proof fn law_a_preview_leaves_the_marks(
    after: TaskWorkspace,
    before: TaskWorkspace,
    i: int,
)
    requires
        after.same_marks(before),
        0 <= i < after.rows@.len(),
    ensures
        after.rows@[i].shadowed_by == before.rows@[i].shadowed_by,
{
}

/// A row can be edited or finished, never both. Rows move only where rules route; the first not
/// up, the last not down, and what takes everything else not at all.
pub proof fn law_a_row_moves_only_where_rules_route(
    workspace: TaskWorkspace,
    words: Language,
    index: int,
    actions: RowActions,
)
    requires
        0 <= index < workspace.rows@.len(),
        workspace.row_actions(words, index, actions),
    ensures
        actions.edit <==> workspace.rows@[index].editor is None,
        actions.finish <==> workspace.rows@[index].editor is Some,
        actions.reorders <==> workspace.task.kind is Move,
        actions.can_move_up <==> workspace.task.kind is Move && index >= 1
            && !workspace.held()[index].is_catch_all(),
        actions.can_move_down <==> workspace.task.kind is Move && index < workspace.rows@.len() - 1
            && !workspace.held()[index].is_catch_all(),
        workspace.rows@[index].preview is None ==> actions.taken is None && actions.sample is None,
        workspace.rows@[index].preview matches Some(share) ==> {
            &&& actions.taken matches Some(taken)
            &&& taken@ == routing_preview::files_words(words, share.count)
            &&& actions.sample matches Some(sample)
            &&& sample@ == text::joined(share@.sample, ", "@)
        },
{
}

} // verus!
