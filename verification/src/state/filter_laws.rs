//! What loading a destination's rules into the editor and saving them again does to them.

use crate::rules::RuleView;
use crate::state::filters;
use crate::state::filters::{EntryView, GroupView, ModelView};
use vstd::prelude::*;

verus! {

/// A composite that combines fewer than two rules, and so says nothing by being one.
pub open spec fn is_trivial(rule: RuleView) -> bool {
    match rule {
        RuleView::AllOf(rules) => rules.len() < 2,
        RuleView::AnyOf(rules) => rules.len() < 2,
        _ => false,
    }
}

/// No trivial composite stands where the editor would collapse it: at the top, or inside a lone
/// `AllOf`.
pub open spec fn is_tidy(rules: Seq<RuleView>) -> bool {
    &&& forall|i: int| 0 <= i < rules.len() ==> !is_trivial(#[trigger] rules[i])
    &&& rules.len() == 1 && rules[0] is AllOf ==> forall|i: int|
        0 <= i < rules[0]->AllOf_0.len() ==> !is_trivial(#[trigger] rules[0]->AllOf_0[i])
}

/// A group in the shape the editor reads back: it holds something, and one row alone is not
/// marked "all".
pub open spec fn is_proper(group: GroupView) -> bool {
    group.rules.len() > 0 && (group.rules.len() == 1 ==> !group.match_all)
}

/// A model in the shape that reading stored rules gives.
pub open spec fn is_settled(model: ModelView) -> bool {
    if model.all_files {
        model == ModelView::all()
    } else if model.opaque.len() > 0 {
        &&& !model.match_all_groups
        &&& model.groups == Seq::<GroupView>::empty()
        &&& ModelView::of(model.opaque).opaque.len() > 0
    } else if model.match_all_groups {
        &&& model.groups.len() > 1
        &&& forall|i: int| 0 <= i < model.groups.len() ==> is_proper(#[trigger] model.groups[i])
        &&& exists|i: int| 0 <= i < model.groups.len() && (#[trigger] model.groups[i]).rules.len() > 1
    } else {
        ||| model.groups == seq![GroupView::empty()]
        ||| {
            &&& model.groups.len() > 0
            &&& forall|i: int|
                0 <= i < model.groups.len() ==> is_proper(#[trigger] model.groups[i])
        }
    }
}

/// A row that was read from a rule is stored as that rule.
pub proof fn lemma_entry_of_rule(rule: RuleView)
    requires
        filters::entry_of(rule) is Some,
    ensures
        (filters::entry_of(rule)->0).rule() == rule,
        !filters::is_composite(rule),
        !(rule is AllFiles),
{
}

/// A stored row reads back as that row.
pub proof fn lemma_rule_of_entry(entry: EntryView)
    ensures
        filters::entry_of(entry.rule()) == Some(entry),
        !filters::is_composite(entry.rule()),
        !(entry.rule() is AllFiles),
{
}

/// A group that was read from a rule that is not trivial is stored as that rule.
pub proof fn lemma_group_of_rule(rule: RuleView)
    requires
        filters::group_of(rule) is Some,
        !is_trivial(rule),
    ensures
        (filters::group_of(rule)->0).rules.len() > 0,
        (filters::group_of(rule)->0).rule() == rule,
{
    let group = filters::group_of(rule)->0;
    match rule {
        RuleView::AllOf(rules) => {
            assert forall|i: int| 0 <= i < rules.len() implies group.members()[i] == rules[i] by {
                lemma_entry_of_rule(rules[i]);
            }
            assert(group.members() =~= rules);
        },
        RuleView::AnyOf(rules) => {
            assert forall|i: int| 0 <= i < rules.len() implies group.members()[i] == rules[i] by {
                lemma_entry_of_rule(rules[i]);
            }
            assert(group.members() =~= rules);
        },
        _ => {
            lemma_entry_of_rule(rule);
        },
    }
}

/// Stored rows all read back as themselves.
pub proof fn lemma_members_read_back(group: GroupView)
    ensures
        filters::all_entries(group.members()),
        filters::entries_of(group.members()) == group.rules,
        !filters::holds_composite(group.members()),
{
    assert forall|i: int| 0 <= i < group.members().len() implies (#[trigger] filters::entry_of(
        group.members()[i],
    )) == Some(group.rules[i]) && !filters::is_composite(group.members()[i]) by {
        lemma_rule_of_entry(group.rules[i]);
    }
    assert(filters::entries_of(group.members()) =~= group.rules);
}

/// A proper group is stored as a rule that reads back as the group.
pub proof fn lemma_group_reads_back(group: GroupView)
    requires
        is_proper(group),
    ensures
        filters::group_of(group.rule()) == Some(group),
        !is_trivial(group.rule()),
        !(group.rule() is AllFiles),
        filters::is_composite(group.rule()) == (group.rules.len() > 1),
        group.rule() is AllOf ==> group.rule()->AllOf_0 == group.members(),
{
    if group.rules.len() == 1 {
        lemma_rule_of_entry(group.rules[0]);
        assert(seq![group.rules[0]] =~= group.rules);
    } else {
        lemma_members_read_back(group);
    }
}

/// Where no group is empty, the stored list holds one rule per group.
pub proof fn lemma_stored_groups(groups: Seq<GroupView>)
    requires
        forall|i: int| 0 <= i < groups.len() ==> (#[trigger] groups[i]).rules.len() > 0,
    ensures
        filters::stored_groups(groups) == Seq::new(groups.len(), |i: int| groups[i].rule()),
    decreases groups.len(),
{
    if groups.len() > 0 {
        assert(groups.last() == groups[groups.len() - 1]);
        assert forall|i: int| 0 <= i < groups.drop_last().len() implies (
        #[trigger] groups.drop_last()[i]).rules.len() > 0 by {
            assert(groups.drop_last()[i] == groups[i]);
        }
        lemma_stored_groups(groups.drop_last());
    }
    assert(filters::stored_groups(groups) =~= Seq::new(groups.len(), |i: int| groups[i].rule()));
}

/// Rules that are not trivial, read as groups and stored again, are the same rules.
pub proof fn lemma_groups_round_trip(rules: Seq<RuleView>)
    requires
        filters::all_groups(rules),
        forall|i: int| 0 <= i < rules.len() ==> !is_trivial(#[trigger] rules[i]),
    ensures
        filters::stored_groups(filters::groups_of(rules)) == rules,
{
    let groups = filters::groups_of(rules);
    assert forall|i: int| 0 <= i < groups.len() implies (#[trigger] groups[i]).rules.len() > 0
        && groups[i].rule() == rules[i] by {
        assert(filters::group_of(rules[i]) is Some);
        lemma_group_of_rule(rules[i]);
    }
    lemma_stored_groups(groups);
    assert(filters::stored_groups(groups) =~= rules);
}

/// Loading and saving changes nothing: the rules come back as they were, whether the editor can
/// draw them or not, so long as no drawn composite is a trivial one.
pub proof fn law_saving_puts_the_same_rules_back(rules: Seq<RuleView>)
    requires
        ModelView::of(rules).opaque.len() > 0 || is_tidy(rules),
    ensures
        ModelView::of(rules).stored() == rules,
{
    let model = ModelView::of(rules);
    if rules.len() == 1 && rules[0] is AllFiles {
        assert(rules =~= seq![RuleView::AllFiles]);
    } else if model.opaque.len() > 0 {
        assert(model.stored() == rules);
    } else if rules.len() == 1 && rules[0] is AllOf && filters::holds_composite(rules[0]->AllOf_0)
        && filters::all_groups(rules[0]->AllOf_0) {
        let inner = rules[0]->AllOf_0;
        assert(!is_trivial(rules[0]));
        lemma_groups_round_trip(inner);
        assert(model.stored() =~= rules);
    } else if rules.len() == 1 && rules[0] is AllOf && !filters::holds_composite(rules[0]->AllOf_0)
        && filters::all_entries(rules[0]->AllOf_0) {
        assert(!is_trivial(rules[0]));
        lemma_group_of_rule(rules[0]);
        let group = GroupView { match_all: true, rules: filters::entries_of(rules[0]->AllOf_0) };
        assert(model.groups =~= seq![group]);
        lemma_stored_groups(model.groups);
        assert(model.stored() =~= rules);
    } else if rules.len() == 0 {
        let groups = seq![GroupView::empty()];
        assert(groups.drop_last() =~= Seq::<GroupView>::empty());
        assert(filters::stored_groups(groups.drop_last()) =~= Seq::<RuleView>::empty());
        assert(model.stored() =~= rules);
    } else {
        assert(filters::all_groups(rules));
        lemma_groups_round_trip(rules);
    }
}

/// A settled model survives being saved and loaded again.
pub proof fn law_a_settled_model_reads_back_as_itself(model: ModelView)
    requires
        is_settled(model),
    ensures
        ModelView::of(model.stored()) == model,
{
    let rules = model.stored();
    let groups = model.groups;
    if model.all_files {
    } else if model.opaque.len() > 0 {
        let again = ModelView::of(model.opaque);
        assert(again.opaque == model.opaque);
        assert(again.groups =~= model.groups);
    } else if groups == seq![GroupView::empty()] {
        assert(groups.drop_last() =~= Seq::<GroupView>::empty());
        assert(filters::stored_groups(groups.drop_last()) =~= Seq::<RuleView>::empty());
        assert(groups.last() == GroupView::empty());
        assert(rules =~= Seq::<RuleView>::empty());
        if model.match_all_groups {
            assert(groups.len() == 1);
        }
        assert(model.opaque =~= Seq::<RuleView>::empty());
    } else {
        assert forall|i: int| 0 <= i < groups.len() implies (#[trigger] groups[i]).rules.len()
            > 0 by {
            assert(is_proper(groups[i]));
        }
        lemma_stored_groups(groups);
        let inner = filters::stored_groups(groups);
        assert(model.opaque =~= Seq::<RuleView>::empty());
        assert forall|i: int| 0 <= i < inner.len() implies (#[trigger] filters::group_of(inner[i]))
            == Some(groups[i]) by {
            assert(is_proper(groups[i]));
            lemma_group_reads_back(groups[i]);
        }
        assert(filters::all_groups(inner));
        assert(filters::groups_of(inner) =~= groups);
        if model.match_all_groups {
            let several = choose|i: int|
                0 <= i < groups.len() && (#[trigger] groups[i]).rules.len() > 1;
            assert(is_proper(groups[several]));
            lemma_group_reads_back(groups[several]);
            assert(filters::is_composite(inner[several]));
            assert(rules[0] == RuleView::AllOf(inner));
        } else {
            assert(rules == inner);
            assert(is_proper(groups[0]));
            lemma_group_reads_back(groups[0]);
            assert(inner[0] == groups[0].rule());
            if rules.len() == 1 && rules[0] is AllOf {
                lemma_members_read_back(groups[0]);
                let shown = GroupView {
                    match_all: true,
                    rules: filters::entries_of(rules[0]->AllOf_0),
                };
                if groups[0].rules.len() == 1 {
                    lemma_rule_of_entry(groups[0].rules[0]);
                }
                assert(shown == groups[0]);
                assert(groups =~= seq![shown]);
            }
        }
    }
}

/// What a model that draws everything stores holds no trivial composite.
pub proof fn lemma_stored_is_tidy(model: ModelView)
    requires
        model.opaque.len() == 0,
    ensures
        is_tidy(model.stored()),
{
    if !model.all_files {
        lemma_stored_groups_members(model.groups);
        let rules = filters::stored_groups(model.groups);
        assert forall|i: int| 0 <= i < rules.len() implies !is_trivial(#[trigger] rules[i]) by {
            let k = choose|k: int|
                0 <= k < model.groups.len() && rules[i] == (#[trigger] model.groups[k]).rule()
                    && model.groups[k].rules.len() > 0;
            lemma_group_rule_shape(model.groups[k]);
        }
        if rules.len() == 1 && rules[0] is AllOf && !(rules.len() > 1 && model.match_all_groups) {
            let k = choose|k: int|
                0 <= k < model.groups.len() && rules[0] == (#[trigger] model.groups[k]).rule()
                    && model.groups[k].rules.len() > 0;
            lemma_group_rule_shape(model.groups[k]);
            let inner = rules[0]->AllOf_0;
            assert forall|i: int| 0 <= i < inner.len() implies !is_trivial(
                #[trigger] inner[i],
            ) by {
                lemma_rule_of_entry(model.groups[k].rules[i]);
            }
        }
    }
}

/// A group that holds something is stored as a rule that is not trivial; an `AllOf` there holds
/// the rows' own rules.
pub proof fn lemma_group_rule_shape(group: GroupView)
    requires
        group.rules.len() > 0,
    ensures
        !is_trivial(group.rule()),
        group.rule() is AllOf ==> group.rule()->AllOf_0 == group.members(),
{
    if group.rules.len() == 1 {
        lemma_rule_of_entry(group.rules[0]);
    }
}

/// Every stored rule is that of a group that holds something.
pub proof fn lemma_stored_groups_members(groups: Seq<GroupView>)
    ensures
        forall|i: int|
            0 <= i < filters::stored_groups(groups).len() ==> exists|k: int|
                0 <= k < groups.len() && #[trigger] filters::stored_groups(groups)[i] == (
                #[trigger] groups[k]).rule() && groups[k].rules.len() > 0,
    decreases groups.len(),
{
    if groups.len() > 0 {
        let front = groups.drop_last();
        lemma_stored_groups_members(front);
        assert forall|i: int| 0 <= i < filters::stored_groups(groups).len() implies exists|k: int|
            0 <= k < groups.len() && #[trigger] filters::stored_groups(groups)[i] == (
            #[trigger] groups[k]).rule() && groups[k].rules.len() > 0 by {
            if i < filters::stored_groups(front).len() {
                let k = choose|k: int|
                    0 <= k < front.len() && filters::stored_groups(front)[i] == (
                    #[trigger] front[k]).rule() && front[k].rules.len() > 0;
                assert(groups[k] == front[k]);
            } else {
                assert(groups[groups.len() - 1] == groups.last());
            }
        }
    }
}

/// Saving settles the shape: loading and saving a second time changes nothing more.
pub proof fn law_saving_twice_is_saving_once(rules: Seq<RuleView>)
    ensures
        ModelView::of(ModelView::of(rules).stored()).stored() == ModelView::of(rules).stored(),
{
    let model = ModelView::of(rules);
    if model.opaque.len() > 0 {
        assert(model.stored() == rules);
    } else {
        lemma_stored_is_tidy(model);
    }
    law_saving_puts_the_same_rules_back(model.stored());
}

/// What the editor cannot draw is carried through untouched.
pub proof fn law_opaque_rules_are_written_back_untouched(rules: Seq<RuleView>)
    requires
        ModelView::of(rules).opaque.len() > 0,
    ensures
        ModelView::of(rules).opaque == rules,
        ModelView::of(rules).stored() == rules,
{
}

/// The save is blocked exactly where nothing would be stored.
pub proof fn law_selecting_nothing_is_storing_nothing(model: ModelView)
    ensures
        model.nothing() <==> model.stored().len() == 0,
        model.nothing() <==> model.selection_words() is None,
{
    if !model.all_files && model.opaque.len() == 0 {
        lemma_counts_agree(model.groups, model.groups.len() > 1);
        if model.nothing() {
            assert forall|i: int| 0 <= i < model.groups.len() implies (
            #[trigger] model.groups[i]).rules.len() == 0 by {}
        }
    }
}

/// As many groups are described as are stored, and none is exactly where all are empty.
proof fn lemma_counts_agree(groups: Seq<GroupView>, parenthesise: bool)
    ensures
        filters::stored_groups(groups).len() == filters::described_groups(groups, parenthesise).len(),
        filters::stored_groups(groups).len() == 0 <==> forall|i: int|
            0 <= i < groups.len() ==> (#[trigger] groups[i]).rules.len() == 0,
    decreases groups.len(),
{
    if groups.len() > 0 {
        let front = groups.drop_last();
        lemma_counts_agree(front, parenthesise);
        assert(groups.last() == groups[groups.len() - 1]);
        if filters::stored_groups(groups).len() == 0 {
            assert forall|i: int| 0 <= i < groups.len() implies (
            #[trigger] groups[i]).rules.len() == 0 by {
                if i < front.len() {
                    assert(front[i] == groups[i]);
                }
            }
        } else if forall|i: int| 0 <= i < groups.len() ==> (#[trigger] groups[i]).rules.len() == 0 {
            assert forall|i: int| 0 <= i < front.len() implies (
            #[trigger] front[i]).rules.len() == 0 by {
                assert(front[i] == groups[i]);
            }
        }
    }
}

/// Whether a rule selects a file, given which of the basic rules do.
pub open spec fn picks(rule: RuleView, basic: spec_fn(RuleView) -> bool) -> bool
    decreases rule,
{
    match rule {
        RuleView::AllFiles => true,
        RuleView::Not(inner) => !picks(*inner, basic),
        RuleView::AllOf(rules) => forall|i: int|
            0 <= i < rules.len() ==> picks(#[trigger] rules[i], basic),
        RuleView::AnyOf(rules) => exists|i: int|
            0 <= i < rules.len() && picks(#[trigger] rules[i], basic),
        _ => basic(rule),
    }
}

/// Whether a stored list selects a file: any of its rules is enough.
pub open spec fn list_picks(rules: Seq<RuleView>, basic: spec_fn(RuleView) -> bool) -> bool {
    exists|i: int| 0 <= i < rules.len() && #[trigger] picks(rules[i], basic)
}

/// A composite with nothing in it.
pub open spec fn is_hollow(rule: RuleView) -> bool {
    match rule {
        RuleView::AllOf(rules) => rules.len() == 0,
        RuleView::AnyOf(rules) => rules.len() == 0,
        _ => false,
    }
}

/// No composite at the top, or inside a lone `AllOf`, is hollow.
pub open spec fn is_solid(rules: Seq<RuleView>) -> bool {
    &&& forall|i: int| 0 <= i < rules.len() ==> !is_hollow(#[trigger] rules[i])
    &&& rules.len() == 1 && rules[0] is AllOf ==> forall|i: int|
        0 <= i < rules[0]->AllOf_0.len() ==> !is_hollow(#[trigger] rules[0]->AllOf_0[i])
}

/// A group read from a rule that is not hollow selects what the rule selects.
proof fn lemma_group_picks(rule: RuleView, basic: spec_fn(RuleView) -> bool)
    requires
        filters::group_of(rule) is Some,
        !is_hollow(rule),
    ensures
        (filters::group_of(rule)->0).rules.len() > 0,
        picks((filters::group_of(rule)->0).rule(), basic) == picks(rule, basic),
{
    reveal_with_fuel(picks, 2);
    let group = filters::group_of(rule)->0;
    if is_trivial(rule) {
        let rules = if rule is AllOf {
            rule->AllOf_0
        } else {
            rule->AnyOf_0
        };
        assert(filters::entry_of(rules[0]) is Some);
        lemma_entry_of_rule(rules[0]);
        assert(group.rule() == rules[0]);
        if picks(rules[0], basic) {
            assert(picks(rule, basic));
        }
    } else {
        lemma_group_of_rule(rule);
    }
}

/// Collapsing trivial shapes does not change which files are selected: what is saved selects
/// exactly what was loaded.
pub proof fn law_saving_keeps_the_selection(
    rules: Seq<RuleView>,
    basic: spec_fn(RuleView) -> bool,
)
    requires
        ModelView::of(rules).opaque.len() > 0 || is_solid(rules),
    ensures
        list_picks(ModelView::of(rules).stored(), basic) == list_picks(rules, basic),
{
    let model = ModelView::of(rules);
    let saved = model.stored();
    if (rules.len() == 1 && rules[0] is AllFiles) || model.opaque.len() > 0 || rules.len() == 0 {
        if rules.len() == 0 {
            assert(is_tidy(rules));
        }
        law_saving_puts_the_same_rules_back(rules);
    } else if rules.len() == 1 && rules[0] is AllOf && filters::holds_composite(rules[0]->AllOf_0)
        && filters::all_groups(rules[0]->AllOf_0) {
        let inner = rules[0]->AllOf_0;
        let groups = filters::groups_of(inner);
        assert forall|i: int| 0 <= i < groups.len() implies (#[trigger] groups[i]).rules.len() > 0
            && picks(groups[i].rule(), basic) == picks(inner[i], basic) by {
            assert(filters::group_of(inner[i]) is Some);
            lemma_group_picks(inner[i], basic);
        }
        lemma_stored_groups(groups);
        let stored = filters::stored_groups(groups);
        assert forall|i: int| 0 <= i < inner.len() implies picks(stored[i], basic) == picks(
            inner[i],
            basic,
        ) by {
            assert(stored[i] == groups[i].rule());
        }
        let whole = RuleView::AllOf(stored);
        lemma_all_of_picks(stored, basic);
        lemma_all_of_picks(inner, basic);
        assert(picks(whole, basic) == picks(rules[0], basic)) by {
            assert(rules[0] == RuleView::AllOf(inner));
            if picks(whole, basic) {
                assert forall|i: int| 0 <= i < inner.len() implies picks(
                    #[trigger] inner[i],
                    basic,
                ) by {
                    assert(picks(stored[i], basic));
                }
            }
            if picks(rules[0], basic) {
                assert forall|i: int| 0 <= i < stored.len() implies picks(
                    #[trigger] stored[i],
                    basic,
                ) by {
                    assert(picks(inner[i], basic));
                }
            }
        }
        if stored.len() == 1 {
            assert(saved =~= stored);
            assert(picks(whole, basic) == picks(stored[0], basic)) by {
                if picks(stored[0], basic) {
                    assert forall|i: int| 0 <= i < stored.len() implies picks(
                        #[trigger] stored[i],
                        basic,
                    ) by {}
                }
            }
        } else {
            assert(saved =~= seq![whole]);
        }
        assert(saved.len() == 1);
        assert(picks(saved[0], basic) == picks(rules[0], basic));
        lemma_single(saved, basic);
        lemma_single(rules, basic);
    } else if rules.len() == 1 && rules[0] is AllOf && !filters::holds_composite(rules[0]->AllOf_0)
        && filters::all_entries(rules[0]->AllOf_0) {
        let group = GroupView { match_all: true, rules: filters::entries_of(rules[0]->AllOf_0) };
        assert(!is_hollow(rules[0]));
        lemma_group_picks(rules[0], basic);
        assert(model.groups =~= seq![group]);
        lemma_stored_groups(model.groups);
        assert(saved =~= seq![group.rule()]);
        lemma_single(saved, basic);
        lemma_single(rules, basic);
    } else {
        let groups = filters::groups_of(rules);
        assert forall|i: int| 0 <= i < groups.len() implies (#[trigger] groups[i]).rules.len() > 0
            && picks(groups[i].rule(), basic) == picks(rules[i], basic) by {
            assert(filters::group_of(rules[i]) is Some);
            lemma_group_picks(rules[i], basic);
        }
        lemma_stored_groups(groups);
        assert forall|i: int| 0 <= i < rules.len() implies picks(saved[i], basic) == picks(
            rules[i],
            basic,
        ) by {
            assert(saved[i] == groups[i].rule());
        }
        if list_picks(saved, basic) {
            let i = choose|i: int| 0 <= i < saved.len() && #[trigger] picks(saved[i], basic);
            assert(picks(rules[i], basic));
        }
        if list_picks(rules, basic) {
            let i = choose|i: int| 0 <= i < rules.len() && #[trigger] picks(rules[i], basic);
            assert(picks(saved[i], basic));
        }
    }
}

/// An `AllOf` selects what every one of its rules selects.
pub proof fn lemma_all_of_picks(rules: Seq<RuleView>, basic: spec_fn(RuleView) -> bool)
    ensures
        picks(RuleView::AllOf(rules), basic) == forall|i: int|
            0 <= i < rules.len() ==> picks(#[trigger] rules[i], basic),
{
    let whole = RuleView::AllOf(rules);
    if picks(whole, basic) {
        assert forall|i: int| 0 <= i < rules.len() implies picks(#[trigger] rules[i], basic) by {
            reveal_with_fuel(picks, 2);
            assert(whole->AllOf_0[i] == rules[i]);
        }
    } else {
        reveal_with_fuel(picks, 2);
    }
}

/// A list of one rule selects what the rule selects.
proof fn lemma_single(rules: Seq<RuleView>, basic: spec_fn(RuleView) -> bool)
    requires
        rules.len() == 1,
    ensures
        list_picks(rules, basic) == picks(rules[0], basic),
{
}

} // verus!
