//! What the editor shows is what is selected: rows, groups and their combinations mean what they
//! say, and what can be drawn is drawn.

use crate::rules::RuleView;
use crate::state::filter_laws;
use crate::state::filters;
use crate::state::filters::{EntryView, FilterKind, GroupView, ModelView};
use vstd::prelude::*;

verus! {

/// A row selects a file: its folder, file type or pattern does, unless the row leaves out what
/// that selects.
pub open spec fn row_picks(row: EntryView, basic: spec_fn(RuleView) -> bool) -> bool {
    let chosen = match row.kind {
        FilterKind::Path => basic(RuleView::Path(row.pattern)),
        FilterKind::Extension => basic(RuleView::Extension(row.pattern)),
        FilterKind::Wildcard => basic(RuleView::Wildcard(row.pattern)),
    };
    chosen != row.excluded
}

/// A group selects a file: all its rows do, or any of them does.
pub open spec fn group_picks(group: GroupView, basic: spec_fn(RuleView) -> bool) -> bool {
    if group.match_all {
        forall|i: int| 0 <= i < group.rules.len() ==> row_picks(#[trigger] group.rules[i], basic)
    } else {
        exists|i: int| 0 <= i < group.rules.len() && row_picks(#[trigger] group.rules[i], basic)
    }
}

/// The groups select a file: all that hold something do, or any of them does.
pub open spec fn groups_pick(
    groups: Seq<GroupView>,
    match_all: bool,
    basic: spec_fn(RuleView) -> bool,
) -> bool {
    &&& exists|i: int| 0 <= i < groups.len() && (#[trigger] groups[i]).rules.len() > 0
    &&& if match_all {
        forall|i: int|
            0 <= i < groups.len() && (#[trigger] groups[i]).rules.len() > 0 ==> group_picks(
                groups[i],
                basic,
            )
    } else {
        exists|i: int|
            0 <= i < groups.len() && (#[trigger] groups[i]).rules.len() > 0 && group_picks(
                groups[i],
                basic,
            )
    }
}

/// A row is stored as a rule that selects what the row says; its excluded twin selects exactly the
/// other files.
pub proof fn law_a_row_is_stored_as_what_it_selects(
    row: EntryView,
    basic: spec_fn(RuleView) -> bool,
)
    ensures
        filter_laws::picks(row.rule(), basic) == row_picks(row, basic),
        row_picks(EntryView { excluded: !row.excluded, ..row }, basic) != row_picks(row, basic),
{
    reveal_with_fuel(filter_laws::picks, 3);
}

/// An `AnyOf` selects what any of its rules selects.
proof fn lemma_any_of_picks(rules: Seq<RuleView>, basic: spec_fn(RuleView) -> bool)
    ensures
        filter_laws::picks(RuleView::AnyOf(rules), basic) == exists|i: int|
            0 <= i < rules.len() && filter_laws::picks(#[trigger] rules[i], basic),
{
    let whole = RuleView::AnyOf(rules);
    if filter_laws::picks(whole, basic) {
        reveal_with_fuel(filter_laws::picks, 2);
        let i = choose|i: int|
            0 <= i < whole->AnyOf_0.len() && filter_laws::picks(
                #[trigger] whole->AnyOf_0[i],
                basic,
            );
        assert(filter_laws::picks(rules[i], basic));
    } else {
        assert forall|i: int| 0 <= i < rules.len() implies !filter_laws::picks(
            #[trigger] rules[i],
            basic,
        ) by {
            reveal_with_fuel(filter_laws::picks, 2);
            assert(whole->AnyOf_0[i] == rules[i]);
        }
    }
}

/// A group that holds something is stored as a rule that selects what the group says.
pub proof fn law_a_group_is_stored_as_what_it_selects(
    group: GroupView,
    basic: spec_fn(RuleView) -> bool,
)
    requires
        group.rules.len() > 0,
    ensures
        filter_laws::picks(group.rule(), basic) == group_picks(group, basic),
{
    let members = group.members();
    assert forall|i: int| 0 <= i < members.len() implies filter_laws::picks(
        #[trigger] members[i],
        basic,
    ) == row_picks(group.rules[i], basic) by {
        law_a_row_is_stored_as_what_it_selects(group.rules[i], basic);
    }
    if group.rules.len() == 1 {
        law_a_row_is_stored_as_what_it_selects(group.rules[0], basic);
        if group_picks(group, basic) && !group.match_all {
            let i = choose|i: int|
                0 <= i < group.rules.len() && row_picks(#[trigger] group.rules[i], basic);
            assert(i == 0);
        }
        if row_picks(group.rules[0], basic) {
            assert(group_picks(group, basic));
        }
    } else if group.match_all {
        filter_laws::lemma_all_of_picks(members, basic);
        if filter_laws::picks(group.rule(), basic) {
            assert forall|i: int| 0 <= i < group.rules.len() implies row_picks(
                #[trigger] group.rules[i],
                basic,
            ) by {
                assert(filter_laws::picks(members[i], basic));
            }
        }
    } else {
        lemma_any_of_picks(members, basic);
        if filter_laws::picks(group.rule(), basic) {
            let i = choose|i: int|
                0 <= i < members.len() && filter_laws::picks(#[trigger] members[i], basic);
            assert(row_picks(group.rules[i], basic));
        }
        if group_picks(group, basic) {
            let i = choose|i: int|
                0 <= i < group.rules.len() && row_picks(#[trigger] group.rules[i], basic);
            assert(filter_laws::picks(members[i], basic));
        }
    }
}

/// What the rules of the groups that hold something select.
proof fn lemma_stored_groups_pick(groups: Seq<GroupView>, basic: spec_fn(RuleView) -> bool)
    ensures
        ({
            let stored = filters::stored_groups(groups);
            &&& stored.len() > 0 <==> exists|i: int|
                0 <= i < groups.len() && (#[trigger] groups[i]).rules.len() > 0
            &&& (exists|k: int|
                0 <= k < stored.len() && filter_laws::picks(#[trigger] stored[k], basic)) <==> (
            exists|i: int|
                0 <= i < groups.len() && (#[trigger] groups[i]).rules.len() > 0 && group_picks(
                    groups[i],
                    basic,
                ))
            &&& (forall|k: int|
                0 <= k < stored.len() ==> filter_laws::picks(#[trigger] stored[k], basic)) <==> (
            forall|i: int|
                0 <= i < groups.len() && (#[trigger] groups[i]).rules.len() > 0 ==> group_picks(
                    groups[i],
                    basic,
                ))
        }),
    decreases groups.len(),
{
    if groups.len() > 0 {
        let front = groups.drop_last();
        let before = filters::stored_groups(front);
        let stored = filters::stored_groups(groups);
        let last = groups.len() - 1;
        lemma_stored_groups_pick(front, basic);
        assert(groups.last() == groups[last]);
        assert forall|i: int| 0 <= i < front.len() implies #[trigger] front[i] == groups[i] by {}
        if groups[last].rules.len() > 0 {
            law_a_group_is_stored_as_what_it_selects(groups[last], basic);
            assert(stored[before.len() as int] == groups[last].rule());
            assert forall|k: int| 0 <= k < before.len() implies #[trigger] before[k]
                == stored[k] by {}
        }
        // Something is held.
        if exists|i: int| 0 <= i < groups.len() && (#[trigger] groups[i]).rules.len() > 0 {
            let i = choose|i: int| 0 <= i < groups.len() && (#[trigger] groups[i]).rules.len() > 0;
            if i < last {
                assert(front[i].rules.len() > 0);
            }
        }
        if exists|i: int| 0 <= i < front.len() && (#[trigger] front[i]).rules.len() > 0 {
            let i = choose|i: int| 0 <= i < front.len() && (#[trigger] front[i]).rules.len() > 0;
            assert(groups[i].rules.len() > 0);
        }
        // Any.
        if exists|k: int| 0 <= k < stored.len() && filter_laws::picks(#[trigger] stored[k], basic) {
            let k = choose|k: int|
                0 <= k < stored.len() && filter_laws::picks(#[trigger] stored[k], basic);
            if k < before.len() {
                assert(filter_laws::picks(before[k], basic));
                let i = choose|i: int|
                    0 <= i < front.len() && (#[trigger] front[i]).rules.len() > 0 && group_picks(
                        front[i],
                        basic,
                    );
                assert(group_picks(groups[i], basic));
            } else {
                assert(group_picks(groups[last], basic));
            }
        }
        if exists|i: int|
            0 <= i < groups.len() && (#[trigger] groups[i]).rules.len() > 0 && group_picks(
                groups[i],
                basic,
            ) {
            let i = choose|i: int|
                0 <= i < groups.len() && (#[trigger] groups[i]).rules.len() > 0 && group_picks(
                    groups[i],
                    basic,
                );
            if i < last {
                assert(group_picks(front[i], basic));
                let k = choose|k: int|
                    0 <= k < before.len() && filter_laws::picks(#[trigger] before[k], basic);
                assert(filter_laws::picks(stored[k], basic));
            } else {
                assert(filter_laws::picks(stored[before.len() as int], basic));
            }
        }
        // All.
        if forall|k: int| 0 <= k < stored.len() ==> filter_laws::picks(#[trigger] stored[k], basic) {
            assert forall|k: int| 0 <= k < before.len() implies filter_laws::picks(
                #[trigger] before[k],
                basic,
            ) by {
                assert(filter_laws::picks(stored[k], basic));
            }
            assert forall|i: int|
                0 <= i < groups.len() && (#[trigger] groups[i]).rules.len() > 0 implies group_picks(
                groups[i],
                basic,
            ) by {
                if i < last {
                    assert(front[i].rules.len() > 0);
                } else {
                    assert(filter_laws::picks(stored[before.len() as int], basic));
                }
            }
        }
        if forall|i: int|
            0 <= i < groups.len() && (#[trigger] groups[i]).rules.len() > 0 ==> group_picks(
                groups[i],
                basic,
            ) {
            assert forall|i: int|
                0 <= i < front.len() && (#[trigger] front[i]).rules.len() > 0 implies group_picks(
                front[i],
                basic,
            ) by {
                assert(groups[i].rules.len() > 0);
            }
            assert forall|k: int| 0 <= k < stored.len() implies filter_laws::picks(
                #[trigger] stored[k],
                basic,
            ) by {
                if k < before.len() {
                    assert(filter_laws::picks(before[k], basic));
                } else {
                    assert(group_picks(groups[last], basic));
                }
            }
        }
    }
}

/// What is stored selects exactly what the editor shows: every file; or what rules it cannot draw
/// select; or what all, or any, of the groups that hold something select.
pub proof fn law_what_is_stored_selects_what_is_shown(
    model: ModelView,
    basic: spec_fn(RuleView) -> bool,
)
    ensures
        filter_laws::list_picks(model.stored(), basic) == if model.all_files {
            true
        } else if model.opaque.len() > 0 {
            filter_laws::list_picks(model.opaque, basic)
        } else {
            groups_pick(model.groups, model.match_all_groups, basic)
        },
{
    let stored = model.stored();
    if model.all_files {
        assert(filter_laws::picks(stored[0], basic));
    } else if model.opaque.len() == 0 {
        let rules = filters::stored_groups(model.groups);
        lemma_stored_groups_pick(model.groups, basic);
        if rules.len() > 1 && model.match_all_groups {
            filter_laws::lemma_all_of_picks(rules, basic);
            assert(stored[0] == RuleView::AllOf(rules));
            if filter_laws::list_picks(stored, basic) {
                let k = choose|k: int|
                    0 <= k < stored.len() && #[trigger] filter_laws::picks(stored[k], basic);
                assert(k == 0);
            }
            if filter_laws::picks(stored[0], basic) {
                assert(filter_laws::list_picks(stored, basic));
            }
        } else {
            if rules.len() == 1 {
                if filter_laws::list_picks(stored, basic) {
                    let k = choose|k: int|
                        0 <= k < stored.len() && #[trigger] filter_laws::picks(stored[k], basic);
                    assert(k == 0);
                    assert forall|j: int| 0 <= j < rules.len() implies filter_laws::picks(
                        #[trigger] rules[j],
                        basic,
                    ) by {}
                }
            }
            if exists|k: int| 0 <= k < rules.len() && filter_laws::picks(#[trigger] rules[k], basic) {
                let k = choose|k: int|
                    0 <= k < rules.len() && filter_laws::picks(#[trigger] rules[k], basic);
                assert(filter_laws::picks(stored[k], basic));
            }
            if filter_laws::list_picks(stored, basic) {
                let k = choose|k: int|
                    0 <= k < stored.len() && #[trigger] filter_laws::picks(stored[k], basic);
                assert(filter_laws::picks(rules[k], basic));
            }
            if rules.len() == 1 && (forall|k: int|
                0 <= k < rules.len() ==> filter_laws::picks(#[trigger] rules[k], basic)) {
                assert(filter_laws::picks(rules[0], basic));
                assert(filter_laws::picks(stored[0], basic));
            }
        }
    }
}

/// A folder, a file type or a pattern.
pub open spec fn is_bare(rule: RuleView) -> bool {
    rule is Path || rule is Extension || rule is Wildcard
}

/// A folder, a file type or a pattern, or the exclusion of one.
pub open spec fn is_row(rule: RuleView) -> bool {
    is_bare(rule) || match rule {
        RuleView::Not(inner) => is_bare(*inner),
        _ => false,
    }
}

/// A row, or rows combined by all or any.
pub open spec fn is_group(rule: RuleView) -> bool {
    match rule {
        RuleView::AllOf(rules) => forall|i: int| 0 <= i < rules.len() ==> is_row(#[trigger] rules[i]),
        RuleView::AnyOf(rules) => forall|i: int| 0 <= i < rules.len() ==> is_row(#[trigger] rules[i]),
        _ => is_row(rule),
    }
}

/// What reads as a row is what was described as one.
proof fn lemma_rows(rule: RuleView)
    ensures
        filters::entry_of(rule) is Some <==> is_row(rule),
{
}

/// What reads as a group is what was described as one.
proof fn lemma_groups(rule: RuleView)
    ensures
        filters::group_of(rule) is Some <==> is_group(rule),
{
    match rule {
        RuleView::AllOf(rules) => {
            lemma_all_rows(rules);
        },
        RuleView::AnyOf(rules) => {
            lemma_all_rows(rules);
        },
        _ => {
            lemma_rows(rule);
        },
    }
}

proof fn lemma_all_rows(rules: Seq<RuleView>)
    ensures
        filters::all_entries(rules) <==> forall|i: int|
            0 <= i < rules.len() ==> is_row(#[trigger] rules[i]),
{
    if filters::all_entries(rules) {
        assert forall|i: int| 0 <= i < rules.len() implies is_row(#[trigger] rules[i]) by {
            assert(filters::entry_of(rules[i]) is Some);
            lemma_rows(rules[i]);
        }
    }
    if forall|i: int| 0 <= i < rules.len() ==> is_row(#[trigger] rules[i]) {
        assert forall|i: int| 0 <= i < rules.len() implies (#[trigger] filters::entry_of(
            rules[i],
        )) is Some by {
            lemma_rows(rules[i]);
        }
    }
}

proof fn lemma_all_groups(rules: Seq<RuleView>)
    ensures
        filters::all_groups(rules) <==> forall|i: int|
            0 <= i < rules.len() ==> is_group(#[trigger] rules[i]),
{
    if filters::all_groups(rules) {
        assert forall|i: int| 0 <= i < rules.len() implies is_group(#[trigger] rules[i]) by {
            assert(filters::group_of(rules[i]) is Some);
            lemma_groups(rules[i]);
        }
    }
    if forall|i: int| 0 <= i < rules.len() ==> is_group(#[trigger] rules[i]) {
        assert forall|i: int| 0 <= i < rules.len() implies (#[trigger] filters::group_of(
            rules[i],
        )) is Some by {
            lemma_groups(rules[i]);
        }
    }
}

/// Rules are kept undrawn exactly where the editor has no shape for them: some rule of the list is
/// neither a row nor rows combined, and the list is not one "all of" over such rules. Only the one
/// rule for every file reads as "all files".
pub proof fn law_what_can_be_drawn_is_drawn(rules: Seq<RuleView>)
    ensures
        ModelView::of(rules).all_files <==> rules.len() == 1 && rules[0] is AllFiles,
        (forall|i: int| 0 <= i < rules.len() ==> is_group(#[trigger] rules[i])) ==> ModelView::of(
            rules,
        ).opaque.len() == 0,
        rules.len() == 1 && (rules[0] matches RuleView::AllOf(inner) && (forall|i: int|
            0 <= i < inner.len() ==> is_group(#[trigger] inner[i]))) ==> ModelView::of(
            rules,
        ).opaque.len() == 0,
        ModelView::of(rules).opaque.len() > 0 ==> ModelView::of(rules).opaque == rules,
{
    lemma_all_groups(rules);
    if rules.len() == 1 && rules[0] is AllOf {
        let inner = rules[0]->AllOf_0;
        lemma_all_groups(inner);
        lemma_all_rows(inner);
        if !filters::holds_composite(inner) && filters::all_groups(inner) {
            assert forall|i: int| 0 <= i < inner.len() implies is_row(#[trigger] inner[i]) by {
                assert(is_group(inner[i]));
                assert(!filters::is_composite(inner[i]));
            }
        }
        if filters::holds_composite(inner) && is_group(rules[0]) {
            let i = choose|i: int|
                0 <= i < inner.len() && filters::is_composite(#[trigger] inner[i]);
            assert(is_row(inner[i]));
        }
    }
}

/// A destination would select nothing exactly when no file whatever is selected, however its rows
/// match, and nothing is kept undrawn.
pub proof fn law_selecting_nothing_selects_no_file(
    model: ModelView,
    basic: spec_fn(RuleView) -> bool,
)
    requires
        model.nothing(),
    ensures
        !filter_laws::list_picks(model.stored(), basic),
{
    law_what_is_stored_selects_what_is_shown(model, basic);
}

} // verus!
