//! The two-level shape the filter editor presents, and its round trip to the stored rules.
//!
//! A destination stores a flat list of rules, any of which is enough. The editor presents groups
//! instead: each group is "any rule" or "all rules", and the groups themselves combine by any or
//! all.
//!
//! Two rules govern the round trip:
//!
//! - Trivial shapes collapse on save. One group needs no wrapper; one rule in a group needs no
//!   group.
//! - What the editor cannot draw is never discarded. It is carried through untouched.

use crate::rules;
use crate::rules::{copy_rules, FilterRule, RuleView};
use crate::text;
use crate::text::{concat2, concat3, join_texts, owned, trim_trailing};
use vstd::prelude::*;

verus! {

/// Which of the three rule kinds the editor offers.
#[derive(Debug, Clone, Copy, PartialEq, Eq, Structural)]
pub enum FilterKind {
    /// A folder relative to the source root, e.g. `photos/2024`.
    Path,
    /// A file extension, anywhere in the tree, e.g. `jpg`.
    Extension,
    /// A glob against the whole relative path, e.g. `**/ChatGPT*.png`.
    Wildcard,
}

impl Default for FilterKind {
    fn default() -> (r: Self)
        ensures
            r == FilterKind::Path,
    {
        FilterKind::Path
    }
}

impl FilterKind {
    /// What the editor calls this kind.
    pub open spec fn name(self) -> Seq<char> {
        match self {
            FilterKind::Path => "Path"@,
            FilterKind::Extension => "Extension"@,
            FilterKind::Wildcard => "Wildcard"@,
        }
    }

    /// This kind's place among the three.
    pub open spec fn place(self) -> int {
        match self {
            FilterKind::Path => 0,
            FilterKind::Extension => 1,
            FilterKind::Wildcard => 2,
        }
    }

    /// What the editor calls this kind.
    pub fn label(self) -> (r: &'static str)
        ensures
            r@ == self.name(),
    {
        match self {
            FilterKind::Path => "Path",
            FilterKind::Extension => "Extension",
            FilterKind::Wildcard => "Wildcard",
        }
    }

    /// This kind's place among the three.
    pub fn index(self) -> (r: usize)
        ensures
            r == self.place(),
    {
        match self {
            FilterKind::Path => 0,
            FilterKind::Extension => 1,
            FilterKind::Wildcard => 2,
        }
    }

    /// The kind at `index`; anything past the last is a path.
    pub fn from_index(index: usize) -> (r: Self)
        ensures
            index < 3 ==> r.place() == index,
            index >= 3 ==> r == FilterKind::Path,
    {
        match index {
            1 => FilterKind::Extension,
            2 => FilterKind::Wildcard,
            _ => FilterKind::Path,
        }
    }
}

/// One row in a group.
#[derive(Debug, PartialEq, Eq)]
pub struct FilterEntry {
    pub kind: FilterKind,
    pub pattern: String,
    /// Wrapped in a `Not` when stored.
    pub excluded: bool,
}

/// What a [`FilterEntry`] says.
pub struct EntryView {
    pub kind: FilterKind,
    pub pattern: Seq<char>,
    pub excluded: bool,
}

impl View for FilterEntry {
    type V = EntryView;

    open spec fn view(&self) -> EntryView {
        EntryView { kind: self.kind, pattern: self.pattern@, excluded: self.excluded }
    }
}

/// The views of a list of rows.
pub open spec fn entry_views(rules: Seq<FilterEntry>) -> Seq<EntryView> {
    Seq::new(rules.len(), |i: int| rules[i]@)
}

impl EntryView {
    /// The stored rule without its exclusion.
    pub open spec fn bare_rule(self) -> RuleView {
        match self.kind {
            FilterKind::Path => RuleView::Path(self.pattern),
            FilterKind::Extension => RuleView::Extension(self.pattern),
            FilterKind::Wildcard => RuleView::Wildcard(self.pattern),
        }
    }

    /// The stored rule.
    pub open spec fn rule(self) -> RuleView {
        if self.excluded {
            RuleView::Not(Box::new(self.bare_rule()))
        } else {
            self.bare_rule()
        }
    }

    /// The words for the row, before saying that it excludes.
    pub open spec fn body_words(self) -> Seq<char> {
        match self.kind {
            FilterKind::Path => text::without_trailing(self.pattern, '/') + "/"@,
            _ => self.pattern,
        }
    }

    /// The words for the row.
    pub open spec fn words(self) -> Seq<char> {
        if self.excluded {
            "not "@ + self.body_words()
        } else {
            self.body_words()
        }
    }
}

/// The row a stored rule without a `Not` reads back as, if the editor can draw it.
pub open spec fn bare_entry_of(rule: RuleView) -> Option<EntryView> {
    match rule {
        RuleView::Path(p) => Some(
            EntryView { kind: FilterKind::Path, pattern: p, excluded: false },
        ),
        RuleView::Extension(e) => Some(
            EntryView { kind: FilterKind::Extension, pattern: e, excluded: false },
        ),
        RuleView::Wildcard(w) => Some(
            EntryView { kind: FilterKind::Wildcard, pattern: w, excluded: false },
        ),
        _ => None,
    }
}

/// The row a stored rule reads back as, if the editor can draw it. A double negation is not a
/// shape it draws.
pub open spec fn entry_of(rule: RuleView) -> Option<EntryView> {
    match rule {
        RuleView::Not(inner) => match bare_entry_of(*inner) {
            Some(entry) => Some(EntryView { excluded: true, ..entry }),
            None => None,
        },
        _ => bare_entry_of(rule),
    }
}

/// Whether every rule reads back as a row.
pub open spec fn all_entries(rules: Seq<RuleView>) -> bool {
    forall|i: int| 0 <= i < rules.len() ==> (#[trigger] entry_of(rules[i])) is Some
}

/// The rows the rules read back as.
pub open spec fn entries_of(rules: Seq<RuleView>) -> Seq<EntryView> {
    Seq::new(rules.len(), |i: int| entry_of(rules[i])->0)
}

impl FilterEntry {
    /// A row that selects.
    pub fn new(kind: FilterKind, pattern: &str) -> (r: Self)
        ensures
            r@ == (EntryView { kind, pattern: pattern@, excluded: false }),
    {
        FilterEntry { kind, pattern: owned(pattern), excluded: false }
    }

    /// The same row, leaving out what it would have selected.
    pub fn excluded(self) -> (r: Self)
        ensures
            r@ == (EntryView { excluded: true, ..self@ }),
    {
        FilterEntry { kind: self.kind, pattern: self.pattern, excluded: true }
    }

    /// The same row again.
    pub fn copy(&self) -> (r: Self)
        ensures
            r@ == self@,
    {
        FilterEntry { kind: self.kind, pattern: self.pattern.clone(), excluded: self.excluded }
    }

    /// The rule this row is stored as.
    pub fn to_rule(&self) -> (r: FilterRule)
        ensures
            r@ == self@.rule(),
    {
        let rule = match self.kind {
            FilterKind::Path => FilterRule::path(self.pattern.as_str()),
            FilterKind::Extension => FilterRule::extension(self.pattern.as_str()),
            FilterKind::Wildcard => FilterRule::wildcard(self.pattern.as_str()),
        };
        if self.excluded {
            FilterRule::not(rule)
        } else {
            rule
        }
    }

    /// What the preview line calls this rule.
    pub fn describe(&self) -> (r: String)
        ensures
            r@ == self@.words(),
    {
        let body = match self.kind {
            FilterKind::Path => concat2(trim_trailing(self.pattern.as_str(), '/').as_str(), "/"),
            FilterKind::Extension => self.pattern.clone(),
            FilterKind::Wildcard => self.pattern.clone(),
        };
        if self.excluded {
            concat2("not ", body.as_str())
        } else {
            body
        }
    }

    /// Reads one stored rule back, if the editor can represent it.
    pub fn of(rule: &FilterRule) -> (r: Option<Self>)
        ensures
            match r {
                Some(entry) => entry_of(rule@) == Some(entry@),
                None => entry_of(rule@) is None,
            },
        decreases rule,
    {
        match rule {
            FilterRule::Not(inner) => {
                match FilterEntry::of(inner) {
                    Some(entry) => {
                        if entry.excluded {
                            return None;
                        }
                        Some(entry.excluded())
                    },
                    None => None,
                }
            },
            FilterRule::Path(p) => Some(FilterEntry::new(FilterKind::Path, p.as_str())),
            FilterRule::Extension(e) => Some(FilterEntry::new(FilterKind::Extension, e.as_str())),
            FilterRule::Wildcard(w) => Some(FilterEntry::new(FilterKind::Wildcard, w.as_str())),
            _ => None,
        }
    }
}

/// A set of rules combined by any or all.
#[derive(Debug, PartialEq, Eq)]
pub struct FilterGroup {
    /// True for "all rules", false for "any rule".
    pub match_all: bool,
    pub rules: Vec<FilterEntry>,
}

/// What a [`FilterGroup`] says.
pub struct GroupView {
    pub match_all: bool,
    pub rules: Seq<EntryView>,
}

impl View for FilterGroup {
    type V = GroupView;

    open spec fn view(&self) -> GroupView {
        GroupView { match_all: self.match_all, rules: entry_views(self.rules@) }
    }
}

/// The views of a list of groups.
pub open spec fn group_views(groups: Seq<FilterGroup>) -> Seq<GroupView> {
    Seq::new(groups.len(), |i: int| groups[i]@)
}

impl Default for FilterGroup {
    fn default() -> (r: Self)
        ensures
            r@ == GroupView::empty(),
    {
        let r = FilterGroup { match_all: false, rules: Vec::new() };
        proof {
            assert(r@.rules =~= Seq::empty());
        }
        r
    }
}

impl GroupView {
    /// A group with nothing in it yet.
    pub open spec fn empty() -> GroupView {
        GroupView { match_all: false, rules: Seq::empty() }
    }

    /// The rules of the rows.
    pub open spec fn members(self) -> Seq<RuleView> {
        Seq::new(self.rules.len(), |i: int| self.rules[i].rule())
    }

    /// The stored rule for a group that holds something. One row needs no group around it.
    pub open spec fn rule(self) -> RuleView {
        if self.rules.len() == 1 {
            self.rules[0].rule()
        } else if self.match_all {
            RuleView::AllOf(self.members())
        } else {
            RuleView::AnyOf(self.members())
        }
    }

    /// The words between two rows.
    pub open spec fn joiner(self) -> Seq<char> {
        if self.match_all {
            " and "@
        } else {
            " or "@
        }
    }

    /// The words for the rows, in order.
    pub open spec fn row_words(self) -> Seq<Seq<char>> {
        Seq::new(self.rules.len(), |i: int| self.rules[i].words())
    }

    /// The words for the group.
    pub open spec fn words(self, parenthesise: bool) -> Seq<char> {
        let body = text::joined(self.row_words(), self.joiner());
        if parenthesise && self.rules.len() > 1 {
            "("@ + body + ")"@
        } else {
            body
        }
    }
}

impl FilterGroup {
    /// A group any of whose rows is enough.
    pub fn any(rules: Vec<FilterEntry>) -> (r: Self)
        ensures
            r@ == (GroupView { match_all: false, rules: entry_views(rules@) }),
    {
        FilterGroup { match_all: false, rules }
    }

    /// A group all of whose rows are needed.
    pub fn all(rules: Vec<FilterEntry>) -> (r: Self)
        ensures
            r@ == (GroupView { match_all: true, rules: entry_views(rules@) }),
    {
        FilterGroup { match_all: true, rules }
    }

    /// The rule this group is stored as; an empty group is stored as nothing.
    pub fn to_rule(&self) -> (r: Option<FilterRule>)
        ensures
            match r {
                Some(rule) => self@.rules.len() > 0 && rule@ == self@.rule(),
                None => self@.rules.len() == 0,
            },
    {
        if self.rules.len() == 0 {
            return None;
        }
        if self.rules.len() == 1 {
            return Some(self.rules[0].to_rule());
        }
        let mut rules: Vec<FilterRule> = Vec::new();
        let mut i: usize = 0;
        while i < self.rules.len()
            invariant
                i <= self.rules@.len(),
                rules::rule_views(rules@) == self@.members().take(i as int),
            decreases self.rules@.len() - i,
        {
            let rule = self.rules[i].to_rule();
            proof {
                assert(rules::rule_views(rules@.push(rule)) =~= rules::rule_views(rules@).push(rule@));
                assert(self@.members().take(i as int + 1) =~= self@.members().take(
                    i as int,
                ).push(self@.rules[i as int].rule()));
            }
            rules.push(rule);
            i = i + 1;
        }
        proof {
            assert(self@.members().take(self.rules@.len() as int) =~= self@.members());
        }
        if self.match_all {
            Some(FilterRule::all_of(rules))
        } else {
            Some(FilterRule::any_of(rules))
        }
    }

    /// What the preview line calls this group.
    pub fn describe(&self, parenthesise: bool) -> (r: String)
        ensures
            r@ == self@.words(parenthesise),
    {
        let mut parts: Vec<String> = Vec::new();
        let mut i: usize = 0;
        while i < self.rules.len()
            invariant
                i <= self.rules@.len(),
                text::texts(parts@) == self@.row_words().take(i as int),
            decreases self.rules@.len() - i,
        {
            let words = self.rules[i].describe();
            proof {
                text::lemma_texts_push(parts@, words);
                assert(self@.row_words().take(i as int + 1) =~= self@.row_words().take(
                    i as int,
                ).push(words@));
            }
            parts.push(words);
            i = i + 1;
        }
        proof {
            assert(self@.row_words().take(self.rules@.len() as int) =~= self@.row_words());
        }
        let joiner = if self.match_all {
            " and "
        } else {
            " or "
        };
        let body = join_texts(&parts, joiner);
        if parenthesise && self.rules.len() > 1 {
            concat3("(", body.as_str(), ")")
        } else {
            body
        }
    }
}

/// What a set of rules selects, in words.
#[derive(Debug, PartialEq, Eq)]
pub enum Summary {
    /// No rule selects anything, so the destination would sync nothing.
    Nothing,
    /// What is selected, e.g. `docs/ and (jpg or png)`.
    Selection(String),
}

impl Summary {
    /// The selection's words, if there is one.
    pub open spec fn words(self) -> Option<Seq<char>> {
        match self {
            Summary::Nothing => None,
            Summary::Selection(what) => Some(what@),
        }
    }

    /// The selection, or a short stand-in saying there is none.
    pub fn text(&self) -> (r: &str)
        ensures
            r@ == match self.words() {
                None => "nothing yet"@,
                Some(what) => what,
            },
    {
        match self {
            Summary::Nothing => "nothing yet",
            Summary::Selection(what) => what.as_str(),
        }
    }
}

/// What the filter section of the destination editor is showing.
#[derive(Debug, PartialEq, Eq)]
pub struct FilterModel {
    /// "All files" rather than "Only matching".
    pub all_files: bool,
    /// True for "match all groups", false for "match any group".
    pub match_all_groups: bool,
    pub groups: Vec<FilterGroup>,
    /// Rules from a hand-edited config that the editor cannot draw. Kept verbatim and written
    /// back untouched.
    pub opaque: Vec<FilterRule>,
}

/// What a [`FilterModel`] says.
pub struct ModelView {
    pub all_files: bool,
    pub match_all_groups: bool,
    pub groups: Seq<GroupView>,
    pub opaque: Seq<RuleView>,
}

impl View for FilterModel {
    type V = ModelView;

    open spec fn view(&self) -> ModelView {
        ModelView {
            all_files: self.all_files,
            match_all_groups: self.match_all_groups,
            groups: group_views(self.groups@),
            opaque: rules::rule_views(self.opaque@),
        }
    }
}

/// The rules of the groups that hold something, in order.
pub open spec fn stored_groups(groups: Seq<GroupView>) -> Seq<RuleView>
    decreases groups.len(),
{
    if groups.len() == 0 {
        Seq::empty()
    } else if groups.last().rules.len() == 0 {
        stored_groups(groups.drop_last())
    } else {
        stored_groups(groups.drop_last()).push(groups.last().rule())
    }
}

/// The words of the groups that hold something, in order.
pub open spec fn described_groups(groups: Seq<GroupView>, parenthesise: bool) -> Seq<Seq<char>>
    decreases groups.len(),
{
    if groups.len() == 0 {
        Seq::empty()
    } else if groups.last().rules.len() == 0 {
        described_groups(groups.drop_last(), parenthesise)
    } else {
        described_groups(groups.drop_last(), parenthesise).push(groups.last().words(parenthesise))
    }
}

/// The group one rule of a flat list reads back as, if the editor can draw it. A bare rule is a
/// group of one.
pub open spec fn group_of(rule: RuleView) -> Option<GroupView> {
    match rule {
        RuleView::AllOf(rules) => if all_entries(rules) {
            Some(GroupView { match_all: true, rules: entries_of(rules) })
        } else {
            None
        },
        RuleView::AnyOf(rules) => if all_entries(rules) {
            Some(GroupView { match_all: false, rules: entries_of(rules) })
        } else {
            None
        },
        _ => match entry_of(rule) {
            Some(entry) => Some(GroupView { match_all: false, rules: seq![entry] }),
            None => None,
        },
    }
}

/// Whether every rule of a flat list reads back as a group.
pub open spec fn all_groups(rules: Seq<RuleView>) -> bool {
    forall|i: int| 0 <= i < rules.len() ==> (#[trigger] group_of(rules[i])) is Some
}

/// The groups a flat list reads back as.
pub open spec fn groups_of(rules: Seq<RuleView>) -> Seq<GroupView> {
    Seq::new(rules.len(), |i: int| group_of(rules[i])->0)
}

/// Whether a rule combines others.
pub open spec fn is_composite(rule: RuleView) -> bool {
    rule is AllOf || rule is AnyOf
}

/// Whether any of the rules combines others.
pub open spec fn holds_composite(rules: Seq<RuleView>) -> bool {
    exists|i: int| 0 <= i < rules.len() && is_composite(#[trigger] rules[i])
}

impl ModelView {
    /// Everything.
    pub open spec fn all() -> ModelView {
        ModelView {
            all_files: true,
            match_all_groups: false,
            groups: Seq::empty(),
            opaque: Seq::empty(),
        }
    }

    /// A model that shows these groups.
    pub open spec fn showing(match_all_groups: bool, groups: Seq<GroupView>) -> ModelView {
        ModelView { all_files: false, match_all_groups, groups, opaque: Seq::empty() }
    }

    /// How a flat list reads when it is not a lone `AllOf`: one group per rule, or the whole list
    /// kept as it is. A list with no rules shows one empty group to type into.
    pub open spec fn of_flat(rules: Seq<RuleView>) -> ModelView {
        if rules.len() == 0 {
            ModelView::showing(false, seq![GroupView::empty()])
        } else if all_groups(rules) {
            ModelView::showing(false, groups_of(rules))
        } else {
            ModelView {
                all_files: false,
                match_all_groups: false,
                groups: Seq::empty(),
                opaque: rules,
            }
        }
    }

    /// What the editor shows for the stored rules.
    ///
    /// A lone `AllOf` is read by what it holds: a composite child can only have come from a
    /// group, so its presence means several groups; all-bare children are one group.
    pub open spec fn of(rules: Seq<RuleView>) -> ModelView {
        if rules.len() == 1 && rules[0] is AllFiles {
            ModelView::all()
        } else if rules.len() == 1 && rules[0] is AllOf {
            let inner = rules[0]->AllOf_0;
            if holds_composite(inner) && all_groups(inner) {
                ModelView::showing(true, groups_of(inner))
            } else if !holds_composite(inner) && all_entries(inner) {
                ModelView::showing(
                    false,
                    seq![GroupView { match_all: true, rules: entries_of(inner) }],
                )
            } else {
                ModelView::of_flat(rules)
            }
        } else {
            ModelView::of_flat(rules)
        }
    }

    /// The stored rules for what the editor shows.
    pub open spec fn stored(self) -> Seq<RuleView> {
        if self.all_files {
            seq![RuleView::AllFiles]
        } else if self.opaque.len() > 0 {
            self.opaque
        } else {
            let rules = stored_groups(self.groups);
            if rules.len() > 1 && self.match_all_groups {
                seq![RuleView::AllOf(rules)]
            } else {
                rules
            }
        }
    }

    /// What is selected, in words.
    pub open spec fn selection_words(self) -> Option<Seq<char>> {
        if self.all_files {
            Some("all files"@)
        } else if self.opaque.len() > 0 {
            Some("rules this editor can't show (kept as they are)"@)
        } else {
            let described = described_groups(self.groups, self.groups.len() > 1);
            if described.len() == 0 {
                None
            } else {
                Some(
                    text::joined(
                        described,
                        if self.match_all_groups {
                            " and "@
                        } else {
                            " or "@
                        },
                    ),
                )
            }
        }
    }

    /// The destination would select nothing.
    pub open spec fn nothing(self) -> bool {
        &&& !self.all_files
        &&& self.opaque.len() == 0
        &&& forall|i: int| 0 <= i < self.groups.len() ==> (#[trigger] self.groups[i]).rules.len() == 0
    }
}

/// Reads the rules as rows, or gives up.
pub fn read_entries(rules: &Vec<FilterRule>) -> (r: Option<Vec<FilterEntry>>)
    ensures
        match r {
            Some(entries) => all_entries(rules::rule_views(rules@)) && entry_views(entries@)
                == entries_of(rules::rule_views(rules@)),
            None => !all_entries(rules::rule_views(rules@)),
        },
{
    let ghost views = rules::rule_views(rules@);
    let mut entries: Vec<FilterEntry> = Vec::new();
    let mut i: usize = 0;
    while i < rules.len()
        invariant
            i <= rules@.len(),
            views == rules::rule_views(rules@),
            forall|k: int| 0 <= k < i ==> (#[trigger] entry_of(views[k])) is Some,
            entry_views(entries@) == entries_of(views).take(i as int),
        decreases rules@.len() - i,
    {
        proof {
            assert(views[i as int] == rules@[i as int]@);
        }
        match FilterEntry::of(&rules[i]) {
            Some(entry) => {
                proof {
                    assert(entry_views(entries@.push(entry)) =~= entry_views(entries@).push(
                        entry@,
                    ));
                    assert(entries_of(views).take(i as int + 1) =~= entries_of(views).take(
                        i as int,
                    ).push(entry@));
                }
                entries.push(entry);
            },
            None => {
                return None;
            },
        }
        i = i + 1;
    }
    proof {
        assert(entries_of(views).take(rules@.len() as int) =~= entries_of(views));
    }
    Some(entries)
}

/// Reads one rule of a flat list as a group, or gives up.
fn read_group(rule: &FilterRule) -> (r: Option<FilterGroup>)
    ensures
        match r {
            Some(group) => group_of(rule@) == Some(group@),
            None => group_of(rule@) is None,
        },
{
    match rule {
        FilterRule::AllOf(rules) => {
            proof {
                rules::lemma_composite_view(*rules);
            }
            match read_entries(rules) {
                Some(entries) => Some(FilterGroup::all(entries)),
                None => None,
            }
        },
        FilterRule::AnyOf(rules) => {
            proof {
                rules::lemma_composite_view(*rules);
            }
            match read_entries(rules) {
                Some(entries) => Some(FilterGroup::any(entries)),
                None => None,
            }
        },
        other => {
            match FilterEntry::of(other) {
                Some(entry) => {
                    let mut entries: Vec<FilterEntry> = Vec::new();
                    entries.push(entry);
                    proof {
                        assert(entry_views(entries@) =~= seq![entry@]);
                    }
                    Some(FilterGroup::any(entries))
                },
                None => None,
            }
        },
    }
}

/// Reads a flat list as one group per rule, or gives up.
pub fn read_groups(rules: &Vec<FilterRule>) -> (r: Option<Vec<FilterGroup>>)
    ensures
        match r {
            Some(groups) => all_groups(rules::rule_views(rules@)) && group_views(groups@) == groups_of(
                rules::rule_views(rules@),
            ),
            None => !all_groups(rules::rule_views(rules@)),
        },
{
    let ghost views = rules::rule_views(rules@);
    let mut groups: Vec<FilterGroup> = Vec::new();
    let mut i: usize = 0;
    while i < rules.len()
        invariant
            i <= rules@.len(),
            views == rules::rule_views(rules@),
            forall|k: int| 0 <= k < i ==> (#[trigger] group_of(views[k])) is Some,
            group_views(groups@) == groups_of(views).take(i as int),
        decreases rules@.len() - i,
    {
        proof {
            assert(views[i as int] == rules@[i as int]@);
        }
        match read_group(&rules[i]) {
            Some(group) => {
                proof {
                    assert(group_views(groups@.push(group)) =~= group_views(groups@).push(group@));
                    assert(groups_of(views).take(i as int + 1) =~= groups_of(views).take(
                        i as int,
                    ).push(group@));
                }
                groups.push(group);
            },
            None => {
                return None;
            },
        }
        i = i + 1;
    }
    proof {
        assert(groups_of(views).take(rules@.len() as int) =~= groups_of(views));
    }
    Some(groups)
}

/// Whether any of the rules combines others.
fn has_composite(rules: &Vec<FilterRule>) -> (r: bool)
    ensures
        r == holds_composite(rules::rule_views(rules@)),
{
    let ghost views = rules::rule_views(rules@);
    let mut i: usize = 0;
    while i < rules.len()
        invariant
            i <= rules@.len(),
            views == rules::rule_views(rules@),
            forall|k: int| 0 <= k < i ==> !is_composite(#[trigger] views[k]),
        decreases rules@.len() - i,
    {
        proof {
            assert(views[i as int] == rules@[i as int]@);
        }
        match &rules[i] {
            FilterRule::AllOf(_) => {
                return true;
            },
            FilterRule::AnyOf(_) => {
                return true;
            },
            _ => {},
        }
        i = i + 1;
    }
    false
}

impl Default for FilterModel {
    fn default() -> (r: Self)
        ensures
            r@ == ModelView::all(),
    {
        FilterModel::all()
    }
}

impl FilterModel {
    /// Everything.
    pub fn all() -> (r: Self)
        ensures
            r@ == ModelView::all(),
    {
        let r = FilterModel {
            all_files: true,
            match_all_groups: false,
            groups: Vec::new(),
            opaque: Vec::new(),
        };
        proof {
            assert(r@.groups =~= Seq::empty());
            assert(r@.opaque =~= Seq::empty());
        }
        r
    }

    /// A model that shows these groups.
    fn showing(match_all_groups: bool, groups: Vec<FilterGroup>) -> (r: Self)
        ensures
            r@ == ModelView::showing(match_all_groups, group_views(groups@)),
    {
        let r = FilterModel { all_files: false, match_all_groups, groups, opaque: Vec::new() };
        proof {
            assert(r@.opaque =~= Seq::empty());
        }
        r
    }

    /// Reads a flat list: one group per rule, or the whole list kept as it is.
    fn of_flat(rules: &Vec<FilterRule>) -> (r: Self)
        ensures
            r@ == ModelView::of_flat(rules::rule_views(rules@)),
    {
        if rules.len() == 0 {
            let mut groups: Vec<FilterGroup> = Vec::new();
            groups.push(FilterGroup::default());
            proof {
                assert(group_views(groups@) =~= seq![GroupView::empty()]);
            }
            return FilterModel::showing(false, groups);
        }
        match read_groups(rules) {
            Some(groups) => FilterModel::showing(false, groups),
            None => {
                let r = FilterModel {
                    all_files: false,
                    match_all_groups: false,
                    groups: Vec::new(),
                    opaque: copy_rules(rules),
                };
                proof {
                    assert(r@.groups =~= Seq::empty());
                }
                r
            },
        }
    }

    /// Reads a destination's stored rules into the editor's shape.
    pub fn of(rules: &Vec<FilterRule>) -> (r: Self)
        ensures
            r@ == ModelView::of(rules::rule_views(rules@)),
    {
        if rules.len() == 1 {
            proof {
                assert(rules::rule_views(rules@)[0] == rules@[0]@);
            }
            match &rules[0] {
                FilterRule::AllFiles => {
                    return FilterModel::all();
                },
                FilterRule::AllOf(inner) => {
                    proof {
                        rules::lemma_composite_view(*inner);
                    }
                    if has_composite(inner) {
                        if let Some(groups) = read_groups(inner) {
                            return FilterModel::showing(true, groups);
                        }
                    } else if let Some(entries) = read_entries(inner) {
                        let group = FilterGroup::all(entries);
                        let mut groups: Vec<FilterGroup> = Vec::new();
                        groups.push(group);
                        proof {
                            assert(group_views(groups@) =~= seq![group@]);
                        }
                        return FilterModel::showing(false, groups);
                    }
                },
                _ => {},
            }
        }
        FilterModel::of_flat(rules)
    }

    /// Writes the editor's shape back out, collapsing anything trivial.
    pub fn to_rules(&self) -> (r: Vec<FilterRule>)
        ensures
            rules::rule_views(r@) == self@.stored(),
    {
        if self.all_files {
            let mut out: Vec<FilterRule> = Vec::new();
            out.push(FilterRule::AllFiles);
            proof {
                assert(rules::rule_views(out@) =~= seq![RuleView::AllFiles]);
            }
            return out;
        }
        if self.opaque.len() > 0 {
            return copy_rules(&self.opaque);
        }
        let ghost groups = self@.groups;
        let mut rules: Vec<FilterRule> = Vec::new();
        let mut i: usize = 0;
        proof {
            assert(rules::rule_views(rules@) =~= Seq::empty());
        }
        while i < self.groups.len()
            invariant
                i <= self.groups@.len(),
                groups == group_views(self.groups@),
                rules::rule_views(rules@) == stored_groups(groups.take(i as int)),
            decreases self.groups@.len() - i,
        {
            proof {
                assert(groups.take(i as int + 1).drop_last() =~= groups.take(i as int));
                assert(groups.take(i as int + 1).last() == self.groups@[i as int]@);
            }
            if let Some(rule) = self.groups[i].to_rule() {
                proof {
                    assert(rules::rule_views(rules@.push(rule)) =~= rules::rule_views(
                        rules@,
                    ).push(rule@));
                }
                rules.push(rule);
            }
            i = i + 1;
        }
        proof {
            assert(groups.take(self.groups@.len() as int) =~= groups);
        }
        if rules.len() > 1 && self.match_all_groups {
            let whole = FilterRule::all_of(rules);
            let mut out: Vec<FilterRule> = Vec::new();
            out.push(whole);
            proof {
                assert(rules::rule_views(out@) =~= seq![whole@]);
            }
            return out;
        }
        rules
    }

    /// The plain-language line under the editor.
    ///
    /// The single best guard against getting a filter wrong: it says, in words, what will be
    /// synced, and it updates as the rules do.
    pub fn describe(&self) -> (r: String)
        ensures
            r@ == match self@.selection_words() {
                None => "No rules yet — nothing will be synced."@,
                Some(what) => "Syncs: "@ + what,
            },
    {
        match self.summary() {
            Summary::Nothing => owned("No rules yet — nothing will be synced."),
            Summary::Selection(what) => concat2("Syncs: ", what.as_str()),
        }
    }

    /// What is selected, without the leading verb.
    pub fn summary(&self) -> (r: Summary)
        ensures
            r.words() == self@.selection_words(),
    {
        if self.all_files {
            return Summary::Selection(owned("all files"));
        }
        if self.opaque.len() > 0 {
            return Summary::Selection(owned("rules this editor can't show (kept as they are)"));
        }
        let ghost groups = self@.groups;
        let parenthesise = self.groups.len() > 1;
        let mut described: Vec<String> = Vec::new();
        let mut i: usize = 0;
        proof {
            assert(text::texts(described@) =~= Seq::empty());
        }
        while i < self.groups.len()
            invariant
                i <= self.groups@.len(),
                groups == group_views(self.groups@),
                text::texts(described@) == described_groups(groups.take(i as int), parenthesise),
            decreases self.groups@.len() - i,
        {
            proof {
                assert(groups.take(i as int + 1).drop_last() =~= groups.take(i as int));
                assert(groups.take(i as int + 1).last() == self.groups@[i as int]@);
            }
            if self.groups[i].rules.len() > 0 {
                let words = self.groups[i].describe(parenthesise);
                proof {
                    text::lemma_texts_push(described@, words);
                }
                described.push(words);
            }
            i = i + 1;
        }
        proof {
            assert(groups.take(self.groups@.len() as int) =~= groups);
        }
        if described.len() == 0 {
            return Summary::Nothing;
        }
        let joiner = if self.match_all_groups {
            " and "
        } else {
            " or "
        };
        Summary::Selection(join_texts(&described, joiner))
    }

    /// True when the destination would select nothing, which blocks the save.
    pub fn selects_nothing(&self) -> (r: bool)
        ensures
            r == self@.nothing(),
    {
        if self.all_files || self.opaque.len() > 0 {
            return false;
        }
        let ghost groups = self@.groups;
        let mut i: usize = 0;
        while i < self.groups.len()
            invariant
                i <= self.groups@.len(),
                groups == self@.groups,
                forall|k: int| 0 <= k < i ==> (#[trigger] groups[k]).rules.len() == 0,
            decreases self.groups@.len() - i,
        {
            proof {
                assert(groups[i as int].rules.len() == self.groups@[i as int].rules@.len());
            }
            if self.groups[i].rules.len() > 0 {
                proof {
                    assert(self@.groups[i as int].rules.len() > 0);
                }
                return false;
            }
            i = i + 1;
        }
        true
    }
}

} // verus!
