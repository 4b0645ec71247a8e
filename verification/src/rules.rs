//! The rules a destination stores to say which files it wants.

use crate::text::owned;
use vstd::prelude::*;

verus! {

/// One stored rule. A destination holds a flat list of them, any of which is enough to select a
/// file.
#[derive(Debug, PartialEq, Eq)]
pub enum FilterRule {
    /// Every file.
    AllFiles,
    /// Files under a folder relative to the source root.
    Path(String),
    /// Files with an extension.
    Extension(String),
    /// Files whose relative path matches a glob.
    Wildcard(String),
    /// Files the inner rule does not select.
    Not(Box<FilterRule>),
    /// Files every inner rule selects.
    AllOf(Vec<FilterRule>),
    /// Files at least one inner rule selects.
    AnyOf(Vec<FilterRule>),
}

/// What a [`FilterRule`] says, with the text as characters.
pub enum RuleView {
    AllFiles,
    Path(Seq<char>),
    Extension(Seq<char>),
    Wildcard(Seq<char>),
    Not(Box<RuleView>),
    AllOf(Seq<RuleView>),
    AnyOf(Seq<RuleView>),
}

impl FilterRule {
    pub open spec fn model(self) -> RuleView
        decreases self,
    {
        match self {
            FilterRule::AllFiles => RuleView::AllFiles,
            FilterRule::Path(p) => RuleView::Path(p@),
            FilterRule::Extension(e) => RuleView::Extension(e@),
            FilterRule::Wildcard(w) => RuleView::Wildcard(w@),
            FilterRule::Not(inner) => RuleView::Not(Box::new((*inner).model())),
            FilterRule::AllOf(rules) => RuleView::AllOf(
                Seq::new(
                    rules@.len(),
                    |i: int|
                        if 0 <= i < rules@.len() {
                            rules@[i].model()
                        } else {
                            RuleView::AllFiles
                        },
                ),
            ),
            FilterRule::AnyOf(rules) => RuleView::AnyOf(
                Seq::new(
                    rules@.len(),
                    |i: int|
                        if 0 <= i < rules@.len() {
                            rules@[i].model()
                        } else {
                            RuleView::AllFiles
                        },
                ),
            ),
        }
    }
}

impl View for FilterRule {
    type V = RuleView;

    open spec fn view(&self) -> RuleView {
        self.model()
    }
}

/// The views of a list of rules.
pub open spec fn rule_views(rules: Seq<FilterRule>) -> Seq<RuleView> {
    Seq::new(rules.len(), |i: int| rules[i]@)
}

/// A composite's view is made of the views of what it holds.
pub broadcast proof fn lemma_composite_view(rules: Vec<FilterRule>)
    ensures
        #![trigger FilterRule::AllOf(rules).model()]
        #![trigger FilterRule::AnyOf(rules).model()]
        FilterRule::AllOf(rules)@ == RuleView::AllOf(rule_views(rules@)),
        FilterRule::AnyOf(rules)@ == RuleView::AnyOf(rule_views(rules@)),
{
    assert(FilterRule::AllOf(rules)@->AllOf_0 =~= rule_views(rules@));
    assert(FilterRule::AnyOf(rules)@->AnyOf_0 =~= rule_views(rules@));
}

impl FilterRule {
    /// Files under `prefix`.
    pub fn path(prefix: &str) -> (r: Self)
        ensures
            r@ == RuleView::Path(prefix@),
    {
        FilterRule::Path(owned(prefix))
    }

    /// Files with this extension.
    pub fn extension(extension: &str) -> (r: Self)
        ensures
            r@ == RuleView::Extension(extension@),
    {
        FilterRule::Extension(owned(extension))
    }

    /// Files matching this glob.
    pub fn wildcard(pattern: &str) -> (r: Self)
        ensures
            r@ == RuleView::Wildcard(pattern@),
    {
        FilterRule::Wildcard(owned(pattern))
    }

    /// Files `rule` does not select.
    pub fn not(rule: FilterRule) -> (r: Self)
        ensures
            r@ == RuleView::Not(Box::new(rule@)),
    {
        FilterRule::Not(Box::new(rule))
    }

    /// Files every rule selects.
    pub fn all_of(rules: Vec<FilterRule>) -> (r: Self)
        ensures
            r@ == RuleView::AllOf(rule_views(rules@)),
    {
        proof {
            lemma_composite_view(rules);
        }
        FilterRule::AllOf(rules)
    }

    /// Files at least one rule selects.
    pub fn any_of(rules: Vec<FilterRule>) -> (r: Self)
        ensures
            r@ == RuleView::AnyOf(rule_views(rules@)),
    {
        proof {
            lemma_composite_view(rules);
        }
        FilterRule::AnyOf(rules)
    }

    /// Whether this is the rule that selects everything.
    pub fn is_all_files(&self) -> (r: bool)
        ensures
            r == (self@ is AllFiles),
    {
        matches!(self, FilterRule::AllFiles)
    }

    /// The same rule again.
    pub fn copy(&self) -> (r: Self)
        ensures
            r@ == self@,
        decreases self,
    {
        match self {
            FilterRule::AllFiles => FilterRule::AllFiles,
            FilterRule::Path(p) => FilterRule::Path(p.clone()),
            FilterRule::Extension(e) => FilterRule::Extension(e.clone()),
            FilterRule::Wildcard(w) => FilterRule::Wildcard(w.clone()),
            FilterRule::Not(inner) => FilterRule::Not(Box::new(inner.copy())),
            FilterRule::AllOf(rules) => {
                proof {
                    lemma_composite_view(*rules);
                }
                FilterRule::all_of(copy_rules(rules))
            },
            FilterRule::AnyOf(rules) => {
                proof {
                    lemma_composite_view(*rules);
                }
                FilterRule::any_of(copy_rules(rules))
            },
        }
    }
}

/// The same rules, one by one.
pub fn copy_rules(rules: &Vec<FilterRule>) -> (r: Vec<FilterRule>)
    ensures
        rule_views(r@) == rule_views(rules@),
    decreases rules,
{
    let mut out: Vec<FilterRule> = Vec::new();
    let mut i: usize = 0;
    while i < rules.len()
        invariant
            i <= rules@.len(),
            rule_views(out@) == rule_views(rules@).take(i as int),
        decreases rules@.len() - i,
    {
        let rule = rules[i].copy();
        proof {
            assert(rule_views(out@.push(rule)) =~= rule_views(out@).push(rule@));
            assert(rule_views(rules@).take(i as int + 1) =~= rule_views(rules@).take(
                i as int,
            ).push(rules@[i as int]@));
        }
        out.push(rule);
        i = i + 1;
    }
    proof {
        assert(rule_views(rules@).take(rules@.len() as int) =~= rule_views(rules@));
    }
    out
}

} // verus!
