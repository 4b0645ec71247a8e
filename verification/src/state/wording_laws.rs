//! What the words under the filter editor say of the rows they are about.

use crate::state::filters;
use crate::state::filters::{EntryView, FilterKind, GroupView, ModelView};
use crate::text;
use crate::text_laws;
use vstd::prelude::*;

verus! {

/// An excluded row reads "not " and then what it reads when it selects, whatever its kind; so no
/// row reads like its excluded twin.
pub proof fn law_an_excluded_row_says_not(row: EntryView)
    ensures
        (EntryView { excluded: true, ..row }).words() == "not "@ + (EntryView {
            excluded: false,
            ..row
        }).words(),
        (EntryView { excluded: true, ..row }).words() != (EntryView {
            excluded: false,
            ..row
        }).words(),
{
    reveal_strlit("not ");
    let plain = (EntryView { excluded: false, ..row }).words();
    assert(("not "@ + plain).len() == plain.len() + 4);
}

/// A row that selects reads as what was typed; a folder reads with exactly one slash at its end.
pub proof fn law_a_row_reads_as_it_was_typed(row: EntryView)
    requires
        !row.excluded,
    ensures
        row.kind is Extension || row.kind is Wildcard ==> row.words() == row.pattern,
        row.kind is Path ==> {
            let words = row.words();
            let folder = words.drop_last();
            &&& words.len() > 0
            &&& words.last() == '/'
            &&& folder.len() <= row.pattern.len()
            &&& folder == row.pattern.take(folder.len() as int)
            &&& folder.len() > 0 ==> folder.last() != '/'
            &&& forall|i: int|
                folder.len() <= i < row.pattern.len() ==> #[trigger] row.pattern[i] == '/'
        },
{
    if row.kind is Path {
        reveal_strlit("/");
        text_laws::law_only_the_unwanted_end_is_taken_off(row.pattern, '/');
        assert(row.words().drop_last() =~= text::without_trailing(row.pattern, '/'));
    }
}

/// A group of one row reads as the row. Each further row is read behind the others, after "and"
/// where all are needed and after "or" where any is enough.
pub proof fn law_a_group_reads_its_rows_in_order(group: GroupView, row: EntryView)
    ensures
        (GroupView { rules: seq![row], ..group }).words(false) == row.words(),
        group.rules.len() > 0 ==> (GroupView { rules: group.rules.push(row), ..group }).words(false)
            == group.words(false) + (if group.match_all {
            " and "@
        } else {
            " or "@
        }) + row.words(),
{
    let alone = GroupView { rules: seq![row], ..group };
    assert(alone.row_words() =~= seq![row.words()]);
    let more = GroupView { rules: group.rules.push(row), ..group };
    assert(more.row_words() =~= group.row_words().push(row.words()));
    text_laws::law_joining_puts_one_separator_between_two(
        group.row_words(),
        row.words(),
        group.joiner(),
    );
}

/// Parentheses stand around a group of several rows, where they are asked for, and change nothing
/// else.
pub proof fn law_parentheses_hold_several_rows_together(group: GroupView)
    ensures
        group.words(true) == if group.rules.len() > 1 {
            "("@ + group.words(false) + ")"@
        } else {
            group.words(false)
        },
{
}

/// "All files" and rules that cannot be shown are said as such, whatever the groups hold.
pub proof fn law_all_files_are_said_as_such(model: ModelView)
    ensures
        model.all_files ==> model.selection_words() == Some("all files"@),
        !model.all_files && model.opaque.len() > 0 ==> model.selection_words() == Some(
            "rules this editor can't show (kept as they are)"@,
        ),
{
}

/// A lone group reads as itself, without parentheses; where it holds nothing there is nothing to
/// say.
pub proof fn law_a_lone_group_reads_as_itself(model: ModelView, group: GroupView)
    requires
        !model.all_files,
        model.opaque.len() == 0,
    ensures
        (ModelView { groups: Seq::empty(), ..model }).selection_words() is None,
        (ModelView { groups: seq![group], ..model }).selection_words() == if group.rules.len() == 0 {
            None
        } else {
            Some(group.words(false))
        },
{
    let groups = seq![group];
    assert(groups.drop_last() =~= Seq::empty());
    assert(filters::described_groups(Seq::empty(), false) =~= Seq::empty());
    if group.rules.len() > 0 {
        assert(filters::described_groups(groups, false) =~= seq![group.words(false)]);
    }
}

/// What is read of several groups so far.
spec fn read_so_far(model: ModelView, groups: Seq<GroupView>) -> Option<Seq<char>> {
    let described = filters::described_groups(groups, true);
    if described.len() == 0 {
        None
    } else {
        Some(
            text::joined(
                described,
                if model.match_all_groups {
                    " and "@
                } else {
                    " or "@
                },
            ),
        )
    }
}

/// Beside another group, each group that holds something is read in parentheses behind the ones
/// before it: after "and" where all groups are needed, after "or" where any is enough. An empty
/// group is passed over.
pub proof fn law_several_groups_are_read_in_order(
    model: ModelView,
    groups: Seq<GroupView>,
    group: GroupView,
)
    requires
        !model.all_files,
        model.opaque.len() == 0,
        groups.len() > 1,
    ensures
        (ModelView { groups: groups.push(group), ..model }).selection_words() == {
            let before = (ModelView { groups, ..model }).selection_words();
            if group.rules.len() == 0 {
                before
            } else {
                match before {
                    None => Some(group.words(true)),
                    Some(words) => Some(
                        words + (if model.match_all_groups {
                            " and "@
                        } else {
                            " or "@
                        }) + group.words(true),
                    ),
                }
            }
        },
{
    lemma_read_on(model, groups, group);
}

/// The second group is read behind the first, both in parentheses.
pub proof fn law_two_groups_are_read_in_order(model: ModelView, one: GroupView, other: GroupView)
    requires
        !model.all_files,
        model.opaque.len() == 0,
    ensures
        (ModelView { groups: seq![one, other], ..model }).selection_words() == if one.rules.len()
            == 0 && other.rules.len() == 0 {
            None
        } else if one.rules.len() == 0 {
            Some(other.words(true))
        } else if other.rules.len() == 0 {
            Some(one.words(true))
        } else {
            Some(
                one.words(true) + (if model.match_all_groups {
                    " and "@
                } else {
                    " or "@
                }) + other.words(true),
            )
        },
{
    assert(seq![one, other] =~= seq![one].push(other));
    assert(seq![one] =~= Seq::<GroupView>::empty().push(one));
    lemma_read_on(model, Seq::empty(), one);
    lemma_read_on(model, seq![one], other);
}

/// One group more.
proof fn lemma_read_on(model: ModelView, groups: Seq<GroupView>, group: GroupView)
    ensures
        read_so_far(model, groups.push(group)) == {
            let before = read_so_far(model, groups);
            if group.rules.len() == 0 {
                before
            } else {
                match before {
                    None => Some(group.words(true)),
                    Some(words) => Some(
                        words + (if model.match_all_groups {
                            " and "@
                        } else {
                            " or "@
                        }) + group.words(true),
                    ),
                }
            }
        },
{
    let joiner = if model.match_all_groups {
        " and "@
    } else {
        " or "@
    };
    assert(groups.push(group).drop_last() =~= groups);
    let described = filters::described_groups(groups, true);
    text_laws::law_joining_puts_one_separator_between_two(described, group.words(true), joiner);
    if described.len() == 0 {
        assert(described.push(group.words(true)) =~= seq![group.words(true)]);
    }
}

/// Nothing is said to be selected exactly when nothing would be.
pub proof fn law_nothing_is_said_of_nothing(model: ModelView)
    ensures
        model.selection_words() is None <==> !model.all_files && model.opaque.len() == 0 && forall|
            i: int,
        |
            0 <= i < model.groups.len() ==> (#[trigger] model.groups[i]).rules.len() == 0,
{
    lemma_said_of_groups(model.groups, model.groups.len() > 1);
}

proof fn lemma_said_of_groups(groups: Seq<GroupView>, parenthesise: bool)
    ensures
        filters::described_groups(groups, parenthesise).len() == 0 <==> forall|i: int|
            0 <= i < groups.len() ==> (#[trigger] groups[i]).rules.len() == 0,
    decreases groups.len(),
{
    if groups.len() > 0 {
        let front = groups.drop_last();
        lemma_said_of_groups(front, parenthesise);
        assert(groups.last() == groups[groups.len() - 1]);
        assert(forall|i: int| 0 <= i < front.len() ==> front[i] == #[trigger] groups[i]);
        assert(forall|i: int| 0 <= i < front.len() ==> #[trigger] front[i] == groups[i]);
    }
}

/// The three kinds are told apart by name and by place.
pub proof fn law_the_kinds_are_told_apart(one: FilterKind, other: FilterKind)
    ensures
        one.place() == other.place() ==> one == other,
        one.name() == other.name() ==> one == other,
        0 <= one.place() < 3,
{
    reveal_strlit("Path");
    reveal_strlit("Extension");
    reveal_strlit("Wildcard");
    assert("Path"@.len() == 4 && "Extension"@.len() == 9 && "Wildcard"@.len() == 8);
}

} // verus!
