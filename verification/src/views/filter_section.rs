//! The file selection of the destination editor: what it shows, and what each control does.

use crate::state::filters::{
    EntryView, FilterEntry, FilterGroup, FilterKind, FilterModel, GroupView, ModelView,
};
use crate::strings::Language;
use crate::text::trim;
use crate::views::destination_editor;
use crate::views::destination_editor::{describe_rule, DestinationEditor};
use vstd::prelude::*;

verus! {

/// The model with one more row in a group.
pub open spec fn with_row(model: ModelView, group: int, row: EntryView) -> ModelView {
    ModelView {
        groups: model.groups.update(
            group,
            GroupView { rules: model.groups[group].rules.push(row), ..model.groups[group] },
        ),
        ..model
    }
}

/// The model with empty groups at its end, up to `n` of them in all.
pub open spec fn padded(model: ModelView, n: int) -> ModelView {
    ModelView {
        groups: Seq::new(
            if model.groups.len() >= n {
                model.groups.len()
            } else {
                n as nat
            },
            |i: int|
                if i < model.groups.len() {
                    model.groups[i]
                } else {
                    GroupView::empty()
                },
        ),
        ..model
    }
}

/// A row that selects.
pub open spec fn row(kind: FilterKind, pattern: Seq<char>) -> EntryView {
    EntryView { kind, pattern, excluded: false }
}

/// Puts one more row into a group.
fn push_row(model: &mut FilterModel, group: usize, entry: FilterEntry)
    requires
        group < old(model).groups@.len(),
    ensures
        final(model)@ == with_row(old(model)@, group as int, entry@),
        final(model).groups@.len() == old(model).groups@.len(),
{
    let ghost before = model@;
    let ghost view = entry@;
    model.groups[group].rules.push(entry);
    proof {
        assert(model@.groups[group as int].rules =~= before.groups[group as int].rules.push(view));
        assert(model@.groups =~= with_row(before, group as int, view).groups);
        assert(model@.opaque =~= before.opaque);
    }
}

/// Puts an empty group at the end.
fn push_group(model: &mut FilterModel)
    ensures
        final(model)@ == (ModelView {
            groups: old(model)@.groups.push(GroupView::empty()),
            ..old(model)@
        }),
        final(model).groups@.len() == old(model).groups@.len() + 1,
{
    let ghost before = model@;
    model.groups.push(FilterGroup::default());
    proof {
        assert(model@.groups =~= before.groups.push(GroupView::empty()));
    }
}

impl DestinationEditor {
    /// Adds a rule for one of the file types the preview found in the source, turning glob
    /// authoring into picking.
    pub fn add_extension(&mut self, extension: &str)
        requires
            old(self).wf(),
        ensures
            final(self).wf(),
            final(self).same_but_filters(*old(self)),
            if crate::text::trimmed(extension@).len() == 0 || old(self).catch_all || old(
                self,
            ).filters@.groups.len() > 0 {
                &&& final(self).group_kinds == old(self).group_kinds
                &&& final(self).group_inputs == old(self).group_inputs
            } else {
                &&& final(self).group_kinds@ == old(self).group_kinds@.push(FilterKind::Path)
                &&& crate::text::texts(final(self).group_inputs@) == crate::text::texts(
                    old(self).group_inputs@,
                ).push(Seq::empty())
            },
            final(self).filters@ == ({
                let picked = crate::text::trimmed(extension@);
                if picked.len() == 0 || old(self).catch_all {
                    old(self).filters@
                } else {
                    with_row(
                        padded((ModelView { all_files: false, ..old(self).filters@ }), 1),
                        0,
                        row(FilterKind::Extension, picked),
                    )
                }
            }),
    {
        let picked = trim(extension);
        if picked.as_str().is_empty() || self.catch_all {
            return ;
        }
        // Picking a type is a file selection, so "all files" cannot still be the answer.
        self.filters.all_files = false;
        let ghost chosen = self.filters@;
        proof {
            assert(chosen.groups.len() == self.filters.groups@.len());
            if chosen.groups.len() > 0 {
                assert(padded(chosen, 1).groups =~= chosen.groups);
            } else {
                assert(padded(chosen, 1).groups =~= chosen.groups.push(GroupView::empty()));
            }
        }
        if self.filters.groups.len() == 0 {
            self.add_group();
        }
        push_row(
            &mut self.filters,
            0,
            FilterEntry::new(FilterKind::Extension, picked.as_str()),
        );
    }

    /// Adds what stands in a group's "new rule" field to the group, and empties the field.
    pub fn add_rule(&mut self, group: usize)
        requires
            old(self).wf(),
        ensures
            final(self).wf(),
            final(self).same_but_filters(*old(self)),
            final(self).group_kinds == old(self).group_kinds,
            ({
                let pattern = crate::text::trimmed(old(self).group_inputs@[group as int]@);
                if group >= old(self).group_inputs@.len() || pattern.len() == 0 {
                    *final(self) == *old(self)
                } else {
                    &&& final(self).filters@ == with_row(
                        padded(
                            (ModelView { all_files: false, ..old(self).filters@ }),
                            group + 1,
                        ),
                        group as int,
                        row(old(self).group_kinds@[group as int], pattern),
                    )
                    &&& crate::text::texts(final(self).group_inputs@) == crate::text::texts(
                        old(self).group_inputs@,
                    ).update(group as int, Seq::empty())
                }
            }),
    {
        if group >= self.group_inputs.len() {
            return ;
        }
        let pattern = trim(self.group_inputs[group].as_str());
        if pattern.as_str().is_empty() {
            return ;
        }
        let ghost before = self.filters@;
        let ghost kinds = self.group_kinds@;
        proof {
            assert(before.groups.len() == self.filters.groups@.len());
            assert(padded(before, before.groups.len() as int).groups =~= before.groups);
        }
        while self.filters.groups.len() <= group
            invariant
                self.wf(),
                self.same_but_filters(*old(self)),
                self.group_kinds == old(self).group_kinds,
                self.group_inputs == old(self).group_inputs,
                group < self.group_inputs@.len(),
                before == old(self).filters@,
                before.groups.len() == old(self).filters.groups@.len(),
                self.filters@ == padded(before, self.filters.groups@.len() as int),
                self.filters.groups@.len() <= before.groups.len() || self.filters.groups@.len()
                    <= group + 1,
                self.filters.groups@.len() >= before.groups.len(),
            decreases group + 1 - self.filters.groups@.len(),
        {
            let ghost n = self.filters.groups@.len() as int;
            push_group(&mut self.filters);
            proof {
                assert(self.filters@.groups =~= padded(before, n + 1).groups);
            }
        }
        proof {
            let n = self.filters.groups@.len() as int;
            assert(padded(before, n).groups =~= padded(before, group + 1).groups);
        }
        let kind = self.group_kinds[group];
        push_row(&mut self.filters, group, FilterEntry::new(kind, pattern.as_str()));
        self.filters.all_files = false;
        self.group_inputs.set(group, String::new());
        proof {
            assert(crate::text::texts(self.group_inputs@) =~= crate::text::texts(
                old(self).group_inputs@,
            ).update(group as int, Seq::empty()));
            assert(self.filters@.groups =~= with_row(
                padded((ModelView { all_files: false, ..before }), group + 1),
                group as int,
                row(kinds[group as int], pattern@),
            ).groups);
        }
    }

    /// Adds an empty group, with its kind and its field.
    pub fn add_group(&mut self)
        requires
            old(self).wf(),
        ensures
            final(self).wf(),
            final(self).same_but_filters(*old(self)),
            final(self).filters@ == (ModelView {
                groups: old(self).filters@.groups.push(GroupView::empty()),
                ..old(self).filters@
            }),
            final(self).group_kinds@ == old(self).group_kinds@.push(FilterKind::Path),
            crate::text::texts(final(self).group_inputs@) == crate::text::texts(
                old(self).group_inputs@,
            ).push(Seq::empty()),
    {
        push_group(&mut self.filters);
        self.group_kinds.push(FilterKind::default());
        self.group_inputs.push(String::new());
        proof {
            assert(crate::text::texts(self.group_inputs@) =~= crate::text::texts(
                old(self).group_inputs@,
            ).push(Seq::empty()));
        }
    }

    /// Removes a group with its kind and its field. The last one stays.
    pub fn remove_group(&mut self, group: usize)
        requires
            old(self).wf(),
            old(self).filters.groups@.len() > 1 ==> group < old(self).filters.groups@.len(),
        ensures
            final(self).wf(),
            final(self).same_but_filters(*old(self)),
            if old(self).filters@.groups.len() <= 1 {
                *final(self) == *old(self)
            } else {
                &&& final(self).filters@ == (ModelView {
                    groups: old(self).filters@.groups.remove(group as int),
                    ..old(self).filters@
                })
                &&& final(self).group_kinds@ == old(self).group_kinds@.remove(group as int)
                &&& final(self).group_inputs@ == old(self).group_inputs@.remove(group as int)
            },
    {
        if self.filters.groups.len() <= 1 {
            return ;
        }
        let ghost before = self.filters@;
        self.filters.groups.remove(group);
        self.group_kinds.remove(group);
        self.group_inputs.remove(group);
        proof {
            assert(self.filters@.groups =~= before.groups.remove(group as int));
        }
    }

    /// Switches between all files and only matching ones. The first choice is all files.
    pub fn choose_filter_mode(&mut self, choice: usize)
        requires
            old(self).wf(),
        ensures
            final(self).wf(),
            final(self).same_but_filters(*old(self)),
            final(self).group_kinds == old(self).group_kinds,
            final(self).group_inputs == old(self).group_inputs,
            final(self).filters@ == if choice == 0 {
                (ModelView { all_files: true, ..old(self).filters@ })
            } else {
                padded((ModelView { all_files: false, ..old(self).filters@ }), 1)
            },
    {
        self.filters.all_files = choice == 0;
        let ghost chosen = self.filters@;
        proof {
            assert(chosen.groups.len() == self.filters.groups@.len());
            if chosen.groups.len() > 0 {
                assert(padded(chosen, 1).groups =~= chosen.groups);
            } else {
                assert(padded(chosen, 1).groups =~= chosen.groups.push(GroupView::empty()));
            }
        }
        if choice != 0 && self.filters.groups.len() == 0 {
            push_group(&mut self.filters);
        }
    }

    /// Switches between matching any group and matching all. The second choice is all.
    pub fn choose_combination(&mut self, choice: usize)
        requires
            old(self).wf(),
        ensures
            final(self).wf(),
            final(self).same_but_filters(*old(self)),
            final(self).group_kinds == old(self).group_kinds,
            final(self).group_inputs == old(self).group_inputs,
            final(self).filters@ == (ModelView {
                match_all_groups: choice == 1,
                ..old(self).filters@
            }),
    {
        self.filters.match_all_groups = choice == 1;
    }

    /// Switches a group between any rule and all rules. The second choice is all.
    pub fn choose_group_mode(&mut self, group: usize, choice: usize)
        requires
            old(self).wf(),
        ensures
            final(self).wf(),
            final(self).same_but_filters(*old(self)),
            final(self).group_kinds == old(self).group_kinds,
            final(self).group_inputs == old(self).group_inputs,
            final(self).filters@ == if group < old(self).filters@.groups.len() {
                (ModelView {
                    groups: old(self).filters@.groups.update(
                        group as int,
                        GroupView {
                            match_all: choice == 1,
                            ..old(self).filters@.groups[group as int]
                        },
                    ),
                    ..old(self).filters@
                })
            } else {
                old(self).filters@
            },
    {
        if group < self.filters.groups.len() {
            let ghost before = self.filters@;
            self.filters.groups[group].match_all = choice == 1;
            proof {
                let after = before.groups.update(
                    group as int,
                    GroupView { match_all: choice == 1, ..before.groups[group as int] },
                );
                assert(self.filters@.groups =~= after);
                assert(self.filters@.opaque =~= before.opaque);
            }
        }
    }

    /// Sets the kind of a group's next rule.
    pub fn choose_group_kind(&mut self, group: usize, choice: usize)
        requires
            old(self).wf(),
        ensures
            final(self).wf(),
            final(self).same_but_filters(*old(self)),
            final(self).filters == old(self).filters,
            final(self).group_inputs == old(self).group_inputs,
            final(self).group_kinds@.len() == old(self).group_kinds@.len(),
            forall|i: int|
                0 <= i < old(self).group_kinds@.len() && i != group
                    ==> #[trigger] final(self).group_kinds@[i] == old(self).group_kinds@[i],
            group < old(self).group_kinds@.len() ==> {
                let kind = final(self).group_kinds@[group as int];
                (choice < 3 ==> kind.place() == choice) && (choice >= 3 ==> kind
                    == FilterKind::Path)
            },
    {
        if group < self.group_kinds.len() {
            self.group_kinds.set(group, FilterKind::from_index(choice));
        }
    }

    /// Turns a rule into an exclusion, or back.
    pub fn toggle_excluded(&mut self, group: usize, rule: usize)
        requires
            old(self).wf(),
        ensures
            final(self).wf(),
            final(self).same_but_filters(*old(self)),
            final(self).group_kinds == old(self).group_kinds,
            final(self).group_inputs == old(self).group_inputs,
            final(self).filters@ == if group < old(self).filters@.groups.len() && rule < old(
                self,
            ).filters@.groups[group as int].rules.len() {
                toggled(old(self).filters@, group as int, rule as int)
            } else {
                old(self).filters@
            },
    {
        if group < self.filters.groups.len() && rule < self.filters.groups[group].rules.len() {
            let ghost before = self.filters@;
            let excluded = !self.filters.groups[group].rules[rule].excluded;
            self.filters.groups[group].rules[rule].excluded = excluded;
            proof {
                let after = toggled(before, group as int, rule as int);
                assert(self.filters@.groups[group as int].rules
                    =~= after.groups[group as int].rules);
                assert(self.filters@.groups =~= after.groups);
                assert(self.filters@.opaque =~= before.opaque);
            }
        }
    }

    /// Removes a rule from its group.
    pub fn remove_rule(&mut self, group: usize, rule: usize)
        requires
            old(self).wf(),
            group < old(self).filters.groups@.len() ==> rule < old(
                self,
            ).filters.groups@[group as int].rules@.len(),
        ensures
            final(self).wf(),
            final(self).same_but_filters(*old(self)),
            final(self).group_kinds == old(self).group_kinds,
            final(self).group_inputs == old(self).group_inputs,
            final(self).filters@ == if group < old(self).filters@.groups.len() {
                without_row(old(self).filters@, group as int, rule as int)
            } else {
                old(self).filters@
            },
    {
        if group < self.filters.groups.len() {
            let ghost before = self.filters@;
            self.filters.groups[group].rules.remove(rule);
            proof {
                let after = without_row(before, group as int, rule as int);
                assert(self.filters@.groups[group as int].rules
                    =~= after.groups[group as int].rules);
                assert(self.filters@.groups =~= after.groups);
                assert(self.filters@.opaque =~= before.opaque);
            }
        }
    }
}

/// The model with one row turned into an exclusion, or back.
pub open spec fn toggled(model: ModelView, group: int, rule: int) -> ModelView {
    let entry = model.groups[group].rules[rule];
    ModelView {
        groups: model.groups.update(
            group,
            GroupView {
                rules: model.groups[group].rules.update(
                    rule,
                    EntryView { excluded: !entry.excluded, ..entry },
                ),
                ..model.groups[group]
            },
        ),
        ..model
    }
}

/// The model without one row.
pub open spec fn without_row(model: ModelView, group: int, rule: int) -> ModelView {
    ModelView {
        groups: model.groups.update(
            group,
            GroupView {
                rules: model.groups[group].rules.remove(rule),
                ..model.groups[group]
            },
        ),
        ..model
    }
}

/// Excluding a rule twice leaves it as it was.
pub proof fn law_toggling_twice_changes_nothing(model: ModelView, group: int, rule: int)
    requires
        0 <= group < model.groups.len(),
        0 <= rule < model.groups[group].rules.len(),
    ensures
        toggled(toggled(model, group, rule), group, rule) == model,
{
    let once = toggled(model, group, rule);
    let twice = toggled(once, group, rule);
    assert(twice.groups[group].rules =~= model.groups[group].rules);
    assert(twice.groups =~= model.groups);
}

/// One rule's row.
#[derive(Debug, PartialEq, Eq)]
pub struct RuleFace {
    pub text: String,
    /// The exclusion button is drawn as on.
    pub excluded: bool,
}

/// What one group shows.
#[derive(Debug, PartialEq, Eq)]
pub struct GroupFace {
    /// Which of "any rule" and "all rules" is chosen.
    pub mode: usize,
    /// Whether the group can be removed.
    pub removable: bool,
    pub rules: Vec<RuleFace>,
    /// Which kind the next rule will be.
    pub kind: usize,
    /// Whether the syntax reminder for wildcards is shown.
    pub wildcard_hint: bool,
}

/// What the file selection shows.
#[derive(Debug, PartialEq, Eq)]
pub struct FiltersFace {
    /// Which of "all files" and "only matching" is chosen.
    pub mode: usize,
    /// Which of "any group" and "all groups" is chosen, where there are groups to combine.
    pub combination: Option<usize>,
    /// The groups; none while all files are taken.
    pub groups: Vec<GroupFace>,
    /// The plain-language line, while not all files are taken.
    pub description: Option<String>,
}

/// A choice of two, as the control counts them.
pub open spec fn second(chosen: bool) -> int {
    if chosen {
        1
    } else {
        0
    }
}

/// The kind a group's next rule will be.
pub open spec fn kind_of(editor: DestinationEditor, group: int) -> FilterKind {
    if group < editor.group_kinds@.len() {
        editor.group_kinds@[group]
    } else {
        FilterKind::Path
    }
}

impl GroupFace {
    /// The face says what the group is.
    pub open spec fn shows(
        self,
        words: Language,
        editor: DestinationEditor,
        group: int,
        removable: bool,
    ) -> bool {
        let model = editor.filters@.groups[group];
        &&& self.mode == second(model.match_all)
        &&& self.removable == removable
        &&& self.rules@.len() == model.rules.len()
        &&& forall|i: int|
            0 <= i < model.rules.len() ==> (#[trigger] self.rules@[i]).text@
                == destination_editor::rule_words(words, model.rules[i])
                && self.rules@[i].excluded == model.rules[i].excluded
        &&& self.kind == kind_of(editor, group).place()
        &&& self.wildcard_hint == (kind_of(editor, group) is Wildcard)
    }
}

impl DestinationEditor {
    /// What one group shows.
    pub fn group_face(&self, words: &Language, group: usize, removable: bool) -> (r: GroupFace)
        requires
            words.wf(),
            group < self.filters.groups@.len(),
        ensures
            r.shows(*words, *self, group as int, removable),
    {
        let ghost model = self.filters@.groups[group as int];
        let kind = if group < self.group_kinds.len() {
            self.group_kinds[group]
        } else {
            FilterKind::default()
        };
        let shown = &self.filters.groups[group];
        let mut rules: Vec<RuleFace> = Vec::new();
        let mut i: usize = 0;
        while i < shown.rules.len()
            invariant
                i <= shown.rules@.len(),
                words.wf(),
                model == shown@,
                rules@.len() == i,
                forall|k: int|
                    0 <= k < i ==> (#[trigger] rules@[k]).text@ == destination_editor::rule_words(
                        *words,
                        model.rules[k],
                    ) && rules@[k].excluded == model.rules[k].excluded,
            decreases shown.rules@.len() - i,
        {
            let text = describe_rule(words, &shown.rules[i]);
            rules.push(RuleFace { text, excluded: shown.rules[i].excluded });
            i = i + 1;
        }
        GroupFace {
            mode: if shown.match_all {
                1
            } else {
                0
            },
            removable,
            rules,
            kind: kind.index(),
            wildcard_hint: kind == FilterKind::Wildcard,
        }
    }

    /// What the file selection shows.
    pub fn filters_face(&self, words: &Language) -> (r: FiltersFace)
        requires
            words.wf(),
        ensures
            r.mode == second(!self.filters@.all_files),
            r.combination == if !self.filters@.all_files && self.filters@.groups.len() > 1 {
                Some(second(self.filters@.match_all_groups) as usize)
            } else {
                None
            },
            self.filters@.all_files ==> r.groups@.len() == 0 && r.description is None,
            !self.filters@.all_files ==> {
                &&& r.groups@.len() == self.filters@.groups.len()
                &&& forall|i: int|
                    0 <= i < r.groups@.len() ==> (#[trigger] r.groups@[i]).shows(
                        *words,
                        *self,
                        i,
                        self.filters@.groups.len() > 1,
                    )
                &&& r.description is Some
                &&& (r.description->0)@ == match self.filters@.selection_words() {
                    None => "No rules yet — nothing will be synced."@,
                    Some(what) => "Syncs: "@ + what,
                }
            },
    {
        let mut groups: Vec<GroupFace> = Vec::new();
        if self.filters.all_files {
            return FiltersFace { mode: 0, combination: None, groups, description: None };
        }
        let several = self.filters.groups.len() > 1;
        let mut i: usize = 0;
        while i < self.filters.groups.len()
            invariant
                i <= self.filters.groups@.len(),
                words.wf(),
                several == (self.filters@.groups.len() > 1),
                groups@.len() == i,
                forall|k: int|
                    0 <= k < i ==> (#[trigger] groups@[k]).shows(*words, *self, k, several),
            decreases self.filters.groups@.len() - i,
        {
            groups.push(self.group_face(words, i, several));
            i = i + 1;
        }
        let combination: Option<usize> = if several {
            if self.filters.match_all_groups {
                Some(1)
            } else {
                Some(0)
            }
        } else {
            None
        };
        FiltersFace { mode: 1, combination, groups, description: Some(self.filters.describe()) }
    }
}

} // verus!
