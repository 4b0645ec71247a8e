//! What the editor of a destination refuses, and what it hands back.

use crate::components::choice_card::ChoiceCard;
use crate::components::icon::Glyph;
use crate::components::segment::SegmentOption;
use crate::i18n;
use crate::model::{DestinationView, SyncStrategy, SyncTask};
use crate::rules::RuleView;
use crate::search;
use crate::state::filters::{EntryView, FilterKind, ModelView};
use crate::state::overlap_laws;
use crate::strings;
use crate::strings::Language;
use crate::text;
use crate::views::choices;
use crate::views::destination_editor;
use crate::views::destination_editor::{DestinationEditor, OverlapProbe};
use crate::views::filter_section;
use crate::views::filter_section::GroupFace;
use vstd::prelude::*;

verus! {

/// A destination keeps the name that was typed; where none was, it is called after its folder's
/// last part, and after the whole folder where that has none.
pub proof fn law_a_destination_is_named_as_typed_or_after_its_folder(
    editor: DestinationEditor,
    leaf: Seq<char>,
)
    ensures
        text::trimmed(editor.name@).len() > 0 ==> editor.saved_name(Some(leaf)) == text::trimmed(
            editor.name@,
        ) && editor.saved_name(None) == text::trimmed(editor.name@),
        text::trimmed(editor.name@).len() == 0 ==> editor.saved_name(Some(leaf)) == leaf
            && editor.saved_name(None) == text::trimmed(editor.path@),
{
}

/// What is handed back is what the form holds, field by field. Only a move can flatten, and
/// without the guard no number of deletions is too large.
pub proof fn law_an_edit_hands_back_what_the_form_holds(
    editor: DestinationEditor,
    leaf: Option<Seq<char>>,
    threshold: u64,
)
    ensures
        ({
            let made = editor.described(leaf, threshold);
            &&& made.id == editor.destination_id
            &&& made.name == editor.saved_name(leaf)
            &&& made.path == text::trimmed(editor.path@)
            &&& made.strategy == editor.strategy
            &&& made.verify_contents == editor.verify_contents
            &&& made.delete_mode == editor.delete_mode
            &&& made.collision_policy == editor.collision
            &&& made.flatten_structure <==> editor.flatten && editor.strategy == SyncStrategy::Move
            &&& editor.confirm_large_deletions ==> made.mass_delete_threshold == threshold
            &&& !editor.confirm_large_deletions ==> made.mass_delete_threshold == 0
            &&& editor.strategy == SyncStrategy::Mirror ==> made.filters
                == seq![RuleView::AllFiles]
            &&& editor.strategy != SyncStrategy::Mirror ==> made.filters
                == editor.filters@.stored()
        }),
{
}

/// Files are selected unless the destination mirrors or takes everything else.
pub proof fn law_a_mirror_and_everything_else_select_no_files(editor: DestinationEditor)
    ensures
        editor.selects_files() <==> editor.strategy != SyncStrategy::Mirror && !editor.catch_all,
{
}

/// Another destination of the same task shares the folder.
pub open spec fn other_sibling(editor: DestinationEditor, probe: OverlapProbe, i: int) -> bool {
    &&& 0 <= i < editor.siblings@.len()
    &&& editor.siblings@[i].id != editor.destination_id
    &&& probe.siblings@[i]
}

/// A destination of some task shares the folder. A form that knows its siblings leaves its own
/// task to them; one that knows none leaves out itself alone.
pub open spec fn other_place(
    editor: DestinationEditor,
    probe: OverlapProbe,
    i: int,
    j: int,
) -> bool {
    &&& 0 <= i < editor.tasks@.len()
    &&& 0 <= j < editor.tasks@[i].destinations@.len()
    &&& probe.destinations@[i]@[j]
    &&& if editor.siblings@.len() == 0 {
        editor.tasks@[i].destinations@[j].id != editor.destination_id
    } else {
        editor.tasks@[i].id != editor.task_id
    }
}

proof fn lemma_clash(editor: DestinationEditor, words: Language, probe: OverlapProbe)
    ensures
        match editor.clash(words, probe) {
            Some(said) => (exists|i: int|
                {
                    &&& #[trigger] other_sibling(editor, probe, i)
                    &&& forall|k: int| 0 <= k < i ==> !(#[trigger] other_sibling(editor, probe, k))
                    &&& said == i18n::said1(
                        words,
                        strings::DEST_EDITOR_SIBLING_OVERLAP_HINT_FORMAT as int,
                        editor.siblings@[i].name@,
                    )
                }) || ((forall|i: int| !(#[trigger] other_sibling(editor, probe, i))) && exists|
                i: int,
                j: int,
            |
                {
                    &&& #[trigger] other_place(editor, probe, i, j)
                    &&& forall|k: int, m: int|
                        k < i ==> !(#[trigger] other_place(editor, probe, k, m))
                    &&& said == i18n::said1(
                        words,
                        strings::DEST_EDITOR_DESTINATION_OVERLAP_HINT_FORMAT as int,
                        editor.tasks@[i].name@,
                    )
                }),
            None => {
                &&& forall|i: int| !(#[trigger] other_sibling(editor, probe, i))
                &&& forall|i: int, j: int| !(#[trigger] other_place(editor, probe, i, j))
            },
        },
{
    let holds = destination_editor::sibling_clash(editor, probe);
    let n = editor.siblings@.len();
    search::lemma_first(n, holds);
    assert forall|i: int| 0 <= i < n implies #[trigger] other_sibling(editor, probe, i) == holds(
        i,
    ) by {}
    match search::first(n, holds) {
        Some(i) => {
            assert(other_sibling(editor, probe, i));
            assert forall|k: int| 0 <= k < i implies !(#[trigger] other_sibling(
                editor,
                probe,
                k,
            )) by {
                assert(!holds(k));
            }
        },
        None => {
            assert forall|i: int| !(#[trigger] other_sibling(editor, probe, i)) by {
                if 0 <= i < n {
                    assert(!holds(i));
                }
            }
            let task = if n == 0 {
                None
            } else {
                Some(editor.task_id)
            };
            let destination = if n == 0 {
                Some(editor.destination_id)
            } else {
                None
            };
            let tasks = editor.tasks@;
            let answers = probe.destinations@;
            overlap_laws::law_a_destination_conflict_names_the_first_task_that_shares_the_folder(
                tasks,
                task,
                destination,
                answers,
            );
            assert forall|i: int, j: int| #[trigger]
                other_place(editor, probe, i, j) == overlap_laws::other_destination(
                    tasks,
                    task,
                    destination,
                    answers,
                    i,
                    j,
                ) by {}
            if editor.clash(words, probe) is Some {
                let (i, j) = choose|i: int, j: int|
                    {
                        &&& #[trigger] overlap_laws::other_destination(
                            tasks,
                            task,
                            destination,
                            answers,
                            i,
                            j,
                        )
                        &&& crate::state::overlap::destination_conflict_name(
                            tasks,
                            task,
                            destination,
                            answers,
                        ) == Some(tasks[i].name@)
                        &&& forall|k: int, m: int|
                            k < i ==> !(#[trigger] overlap_laws::other_destination(
                                tasks,
                                task,
                                destination,
                                answers,
                                k,
                                m,
                            ))
                    };
                assert(other_place(editor, probe, i, j));
            }
        },
    }
}

/// A folder that is shared names the first destination beside it that shares it, and otherwise the
/// first task with a destination that does; one that nobody shares names nothing.
pub proof fn law_a_shared_folder_names_who_shares_it(
    editor: DestinationEditor,
    words: Language,
    probe: OverlapProbe,
)
    ensures
        editor.clash(words, probe) is Some <==> (exists|i: int| #[trigger]
            other_sibling(editor, probe, i)) || exists|i: int, j: int| #[trigger]
            other_place(editor, probe, i, j),
        (exists|i: int| #[trigger] other_sibling(editor, probe, i)) ==> exists|i: int|
            {
                &&& #[trigger] other_sibling(editor, probe, i)
                &&& forall|k: int| 0 <= k < i ==> !(#[trigger] other_sibling(editor, probe, k))
                &&& editor.clash(words, probe) == Some(
                    i18n::said1(
                        words,
                        strings::DEST_EDITOR_SIBLING_OVERLAP_HINT_FORMAT as int,
                        editor.siblings@[i].name@,
                    ),
                )
            },
        (forall|i: int| !(#[trigger] other_sibling(editor, probe, i))) && (exists|
            i: int,
            j: int,
        | #[trigger]
            other_place(editor, probe, i, j)) ==> exists|i: int, j: int|
            {
                &&& #[trigger] other_place(editor, probe, i, j)
                &&& forall|k: int, m: int| k < i ==> !(#[trigger] other_place(editor, probe, k, m))
                &&& editor.clash(words, probe) == Some(
                    i18n::said1(
                        words,
                        strings::DEST_EDITOR_DESTINATION_OVERLAP_HINT_FORMAT as int,
                        editor.tasks@[i].name@,
                    ),
                )
            },
{
    lemma_clash(editor, words, probe);
}

/// An edit is accepted exactly when it has a folder, apart from the source and shared with no
/// other destination, and, where files are selected, something is selected.
pub proof fn law_an_edit_is_accepted_exactly_when_nothing_is_wrong(
    editor: DestinationEditor,
    words: Language,
    probe: OverlapProbe,
)
    ensures
        editor.reason(words, probe) is None <==> {
            &&& text::trimmed(editor.path@).len() > 0
            &&& !probe.source
            &&& forall|i: int| !(#[trigger] other_sibling(editor, probe, i))
            &&& forall|i: int, j: int| !(#[trigger] other_place(editor, probe, i, j))
            &&& editor.strategy == SyncStrategy::Mirror || editor.catch_all
                || !editor.filters@.nothing()
        },
{
    lemma_clash(editor, words, probe);
}

/// The missing folder is named first, then the source, then who shares the folder, and the missing
/// rule last.
pub proof fn law_the_first_thing_wrong_is_named(
    editor: DestinationEditor,
    words: Language,
    probe: OverlapProbe,
)
    ensures
        ({
            let folder = text::trimmed(editor.path@).len() > 0;
            let said = editor.reason(words, probe);
            &&& !folder ==> said == Some(words.says(strings::DEST_EDITOR_NEEDS_FOLDER as int))
            &&& folder && probe.source ==> said == Some(
                words.says(strings::DEST_EDITOR_NEEDS_SEPARATE_FOLDER as int),
            )
            &&& folder && !probe.source && editor.clash(words, probe) is Some ==> said
                == editor.clash(words, probe)
            &&& folder && !probe.source && editor.clash(words, probe) is None && editor.strategy
                != SyncStrategy::Mirror && !editor.catch_all && editor.filters@.nothing() ==> said
                == Some(words.says(strings::DEST_EDITOR_NEEDS_FILTER_RULE as int))
        }),
{
}

/// A form shows the destination it was opened on, with an empty line for a pattern in each group,
/// and one group at least.
pub proof fn law_a_form_shows_its_destination(
    editor: DestinationEditor,
    task: SyncTask,
    destination: DestinationView,
    percent: Seq<char>,
    guarded: bool,
)
    requires
        editor.shows(task, destination, percent, guarded),
    ensures
        editor.destination_id == destination.id,
        editor.task_id == task.id,
        editor.task_kind == task.kind,
        editor.source_path@ == task.source_path@,
        editor.name@ == destination.name,
        editor.path@ == destination.path,
        editor.threshold@ == percent,
        editor.strategy == destination.strategy,
        editor.verify_contents == destination.verify_contents,
        editor.delete_mode == destination.delete_mode,
        editor.flatten == destination.flatten_structure,
        editor.collision == destination.collision_policy,
        editor.confirm_large_deletions == guarded,
        editor.group_kinds@.len() >= 1,
        editor.group_kinds@.len() >= ModelView::of(destination.filters).groups.len(),
        editor.group_inputs@.len() == editor.group_kinds@.len(),
        forall|i: int|
            0 <= i < editor.group_inputs@.len() ==> (#[trigger] editor.group_inputs@[i])@.len()
                == 0,
{
}

/// Saving a form that nobody touched gives back the destination it was opened on, apart from its
/// rules, where neither its name nor its folder is padded or empty.
pub proof fn law_an_untouched_edit_hands_back_the_same_destination(
    editor: DestinationEditor,
    task: SyncTask,
    destination: DestinationView,
    percent: Seq<char>,
    leaf: Option<Seq<char>>,
    threshold: u64,
)
    requires
        editor.shows(task, destination, percent, destination.mass_delete_threshold > 0),
        text::trimmed(destination.name) == destination.name,
        destination.name.len() > 0,
        text::trimmed(destination.path) == destination.path,
        destination.flatten_structure ==> destination.strategy == SyncStrategy::Move,
        threshold == destination.mass_delete_threshold,
    ensures
        editor.described(leaf, threshold) == (DestinationView {
            filters: editor.saved_rules(),
            ..destination
        }),
{
}

/// A rule reads as its pattern under its kind, and an excluded one as the exclusion of just that.
pub proof fn law_an_excluded_rule_reads_as_the_exclusion_of_the_rule(
    words: Language,
    kind: FilterKind,
    pattern: Seq<char>,
)
    ensures
        ({
            let rule = EntryView { kind, pattern, excluded: false };
            let twin = EntryView { kind, pattern, excluded: true };
            &&& destination_editor::rule_words(words, rule) == i18n::said1(
                words,
                if kind == FilterKind::Path {
                    strings::FILTER_PATH_ROW_FORMAT as int
                } else if kind == FilterKind::Extension {
                    strings::FILTER_EXTENSION_ROW_FORMAT as int
                } else {
                    strings::FILTER_WILDCARD_ROW_FORMAT as int
                },
                pattern,
            )
            &&& destination_editor::rule_words(words, twin) == i18n::said1(
                words,
                strings::FILTER_EXCLUDE_ROW_FORMAT as int,
                destination_editor::rule_words(words, rule),
            )
        }),
{
}

/// A change to the selection alone leaves everything else in the form as it was.
pub proof fn law_a_change_of_selection_leaves_the_rest(
    before: DestinationEditor,
    after: DestinationEditor,
    leaf: Option<Seq<char>>,
    threshold: u64,
)
    requires
        after.same_but_filters(before),
    ensures
        after.described(leaf, threshold) == (DestinationView {
            filters: after.saved_rules(),
            ..before.described(leaf, threshold)
        }),
        after.destination_id == before.destination_id,
        after.task_id == before.task_id,
        after.task_kind == before.task_kind,
        after.source_path == before.source_path,
        after.catch_all == before.catch_all,
        after.siblings == before.siblings,
        after.tasks == before.tasks,
        after.threshold == before.threshold,
        after.flatten == before.flatten,
        after.confirm_large_deletions == before.confirm_large_deletions,
{
}

/// A row that is added stands last in its group, and nothing else changes.
pub proof fn law_an_added_row_stands_last_in_its_group(
    model: ModelView,
    group: int,
    row: EntryView,
)
    requires
        0 <= group < model.groups.len(),
    ensures
        ({
            let after = filter_section::with_row(model, group, row);
            let rows = after.groups[group].rules;
            &&& after.groups.len() == model.groups.len()
            &&& rows.len() == model.groups[group].rules.len() + 1
            &&& rows.last() == row
            &&& forall|i: int|
                0 <= i < model.groups[group].rules.len() ==> #[trigger] rows[i]
                    == model.groups[group].rules[i]
            &&& after.groups[group].match_all == model.groups[group].match_all
            &&& forall|g: int|
                0 <= g < model.groups.len() && g != group ==> #[trigger] after.groups[g]
                    == model.groups[g]
            &&& after == (ModelView { groups: after.groups, ..model })
        }),
{
}

/// A row that is added reads as typed and selects.
pub proof fn law_an_added_row_selects_what_was_typed(kind: FilterKind, pattern: Seq<char>)
    ensures
        filter_section::row(kind, pattern).kind == kind,
        filter_section::row(kind, pattern).pattern == pattern,
        !filter_section::row(kind, pattern).excluded,
{
}

/// Groups are added, empty, until there are as many as asked for; none is taken away or changed.
pub proof fn law_missing_groups_are_added_empty(model: ModelView, n: int, g: int)
    requires
        0 <= n,
        0 <= g < filter_section::padded(model, n).groups.len(),
    ensures
        ({
            let after = filter_section::padded(model, n);
            &&& after.groups.len() >= n
            &&& after.groups.len() >= model.groups.len()
            &&& after.groups.len() == n || after.groups.len() == model.groups.len()
            &&& g < model.groups.len() ==> after.groups[g] == model.groups[g]
            &&& g >= model.groups.len() ==> after.groups[g].rules.len() == 0
                && !after.groups[g].match_all
            &&& after == (ModelView { groups: after.groups, ..model })
        }),
{
}

/// Excluding a row, or taking that back, changes that and nothing else.
pub proof fn law_excluding_a_row_changes_that_alone(model: ModelView, group: int, rule: int)
    requires
        0 <= group < model.groups.len(),
        0 <= rule < model.groups[group].rules.len(),
    ensures
        ({
            let after = filter_section::toggled(model, group, rule);
            let was = model.groups[group].rules;
            let rows = after.groups[group].rules;
            &&& rows.len() == was.len()
            &&& rows[rule].excluded == !was[rule].excluded
            &&& rows[rule].kind == was[rule].kind
            &&& rows[rule].pattern == was[rule].pattern
            &&& forall|i: int| 0 <= i < was.len() && i != rule ==> #[trigger] rows[i] == was[i]
            &&& after.groups[group].match_all == model.groups[group].match_all
            &&& after.groups.len() == model.groups.len()
            &&& forall|g: int|
                0 <= g < model.groups.len() && g != group ==> #[trigger] after.groups[g]
                    == model.groups[g]
            &&& after == (ModelView { groups: after.groups, ..model })
        }),
{
}

/// Removing a row takes out that one, and the rows after it move up.
pub proof fn law_a_removed_row_is_taken_out(model: ModelView, group: int, rule: int)
    requires
        0 <= group < model.groups.len(),
        0 <= rule < model.groups[group].rules.len(),
    ensures
        ({
            let after = filter_section::without_row(model, group, rule);
            let was = model.groups[group].rules;
            let rows = after.groups[group].rules;
            &&& rows.len() == was.len() - 1
            &&& forall|i: int| 0 <= i < rule ==> #[trigger] rows[i] == was[i]
            &&& forall|i: int| rule <= i < rows.len() ==> #[trigger] rows[i] == was[i + 1]
            &&& after.groups[group].match_all == model.groups[group].match_all
            &&& after.groups.len() == model.groups.len()
            &&& forall|g: int|
                0 <= g < model.groups.len() && g != group ==> #[trigger] after.groups[g]
                    == model.groups[g]
            &&& after == (ModelView { groups: after.groups, ..model })
        }),
{
}

/// Adding a row and removing it again changes nothing.
pub proof fn law_removing_an_added_row_changes_nothing(
    model: ModelView,
    group: int,
    row: EntryView,
)
    requires
        0 <= group < model.groups.len(),
    ensures
        filter_section::without_row(
            filter_section::with_row(model, group, row),
            group,
            model.groups[group].rules.len() as int,
        ) == model,
{
    let after = filter_section::without_row(
        filter_section::with_row(model, group, row),
        group,
        model.groups[group].rules.len() as int,
    );
    assert(after.groups[group].rules =~= model.groups[group].rules);
    assert(after.groups[group] == model.groups[group]);
    assert(after.groups =~= model.groups);
}

/// A group is drawn with its rows in order, each in its words and marked where it excludes. The
/// second choice is the one for all of them, and only a wildcard has a hint.
pub proof fn law_a_group_is_drawn_row_by_row(
    face: GroupFace,
    words: Language,
    editor: DestinationEditor,
    group: int,
    removable: bool,
    i: int,
)
    requires
        0 <= group < editor.filters@.groups.len(),
        face.shows(words, editor, group, removable),
        0 <= i < editor.filters@.groups[group].rules.len(),
    ensures
        face.mode == if editor.filters@.groups[group].match_all {
            1int
        } else {
            0int
        },
        face.removable == removable,
        face.rules@.len() == editor.filters@.groups[group].rules.len(),
        face.rules@[i].excluded == editor.filters@.groups[group].rules[i].excluded,
        face.rules@[i].text@ == destination_editor::rule_words(
            words,
            editor.filters@.groups[group].rules[i],
        ),
        group < editor.group_kinds@.len() ==> (face.wildcard_hint <==> editor.group_kinds@[group]
            == FilterKind::Wildcard) && face.kind == editor.group_kinds@[group].place(),
        group >= editor.group_kinds@.len() ==> !face.wildcard_hint && face.kind
            == FilterKind::Path.place(),
{
}

/// A choice shows its drawing and its words, and whether it is the one chosen and can be.
pub proof fn law_a_choice_shows_whether_it_is_chosen(
    words: Language,
    card: ChoiceCard,
    glyph: Glyph,
    title: usize,
    description: usize,
    selected: bool,
    disabled: bool,
)
    requires
        choices::is_choice(words, card, glyph, title, description, selected, disabled),
    ensures
        card.glyph == glyph,
        card.title@ == words.says(title as int),
        card.description@ == words.says(description as int),
        card.selected <==> selected,
        card.disabled <==> disabled,
{
}

/// An entry of a segment shows its words and its drawing.
pub proof fn law_an_entry_shows_its_words_and_its_drawing(
    words: Language,
    option: SegmentOption,
    label: usize,
    glyph: Glyph,
)
    requires
        choices::is_entry(words, option, label, glyph),
    ensures
        option.label@ == words.says(label as int),
        option.glyph == Some(glyph),
{
}

} // verus!
