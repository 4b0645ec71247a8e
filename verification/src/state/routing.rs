//! Reads one routing rule against an earlier one to answer a single question: can the later rule
//! ever match anything?
//!
//! Deliberately partial. Subsumption is claimed only for the shapes where it is unarguable: an
//! all-files rule, a shorter extension, an ancestor path. A silent verdict means "no proof",
//! never "no overlap".

use crate::i18n;
use crate::i18n::to_lowercase;
use crate::model::{Destination, DestinationView};
use crate::rules;
use crate::rules::{FilterRule, RuleView};
use crate::search;
use crate::state::filter_laws;
use crate::text::{begins_with, concat2, finishes_with, same_text};
use vstd::prelude::*;

verus! {

/// A rule the analysis reads: a folder or a file type.
pub open spec fn is_leaf(rule: RuleView) -> bool {
    rule is Path || rule is Extension
}

/// Every rule of the list is one the analysis reads, and there is at least one.
pub open spec fn readable(filters: Seq<RuleView>) -> bool {
    filters.len() > 0 && forall|i: int| 0 <= i < filters.len() ==> is_leaf(#[trigger] filters[i])
}

/// The earlier rule takes every file the later one would.
///
/// "gz" also matches "archive.tar.gz", so the shorter extension covers the longer one, at a dot.
/// An ancestor folder covers everything under it, itself included. A folder does not cover a file
/// type, nor the other way round. Case does not matter.
pub open spec fn rule_covers(earlier: RuleView, later: RuleView) -> bool {
    match (earlier, later) {
        (RuleView::Extension(first), RuleView::Extension(second)) => i18n::lowercase(
            "."@ + first,
        ).is_suffix_of(i18n::lowercase("."@ + second)),
        (RuleView::Path(first), RuleView::Path(second)) => {
            let first = i18n::lowercase(first);
            let second = i18n::lowercase(second);
            second == first || (first + "/"@).is_prefix_of(second)
        },
        _ => false,
    }
}

/// Some earlier rule takes every file the later one would.
pub open spec fn some_covers(earlier: Seq<RuleView>, later: RuleView) -> bool {
    exists|i: int| 0 <= i < earlier.len() && rule_covers(#[trigger] earlier[i], later)
}

/// The earlier destination provably takes every file the later one would.
pub open spec fn takes_all_of(earlier: DestinationView, later: DestinationView) -> bool {
    ||| earlier.takes_all_files()
    ||| {
        &&& readable(earlier.filters)
        &&& readable(later.filters)
        &&& forall|i: int|
            0 <= i < later.filters.len() ==> some_covers(
                earlier.filters,
                #[trigger] later.filters[i],
            )
    }
}

/// Whether every rule is one the analysis reads, and there is at least one.
fn leaves(destination: &Destination) -> (r: bool)
    ensures
        r == readable(destination@.filters),
{
    let ghost views = destination@.filters;
    let mut i: usize = 0;
    while i < destination.filters.len()
        invariant
            i <= destination.filters@.len(),
            views == rules::rule_views(destination.filters@),
            forall|k: int| 0 <= k < i ==> is_leaf(#[trigger] views[k]),
        decreases destination.filters@.len() - i,
    {
        proof {
            assert(views[i as int] == destination.filters@[i as int]@);
        }
        match &destination.filters[i] {
            FilterRule::Path(_) => {},
            FilterRule::Extension(_) => {},
            _ => {
                return false;
            },
        }
        i = i + 1;
    }
    destination.filters.len() > 0
}

/// Whether the earlier rule takes every file the later one would.
pub fn covers(earlier: &FilterRule, later: &FilterRule) -> (r: bool)
    ensures
        r == rule_covers(earlier@, later@),
{
    match (earlier, later) {
        (FilterRule::Extension(first), FilterRule::Extension(second)) => {
            let first = to_lowercase(concat2(".", first.as_str()).as_str());
            let second = to_lowercase(concat2(".", second.as_str()).as_str());
            finishes_with(second.as_str(), first.as_str())
        },
        (FilterRule::Path(first), FilterRule::Path(second)) => {
            let first = to_lowercase(first.as_str());
            let second = to_lowercase(second.as_str());
            same_text(second.as_str(), first.as_str()) || begins_with(
                second.as_str(),
                concat2(first.as_str(), "/").as_str(),
            )
        },
        _ => false,
    }
}

/// Whether some earlier rule takes every file the later one would.
fn any_covers(earlier: &Vec<FilterRule>, later: &FilterRule) -> (r: bool)
    ensures
        r == some_covers(rules::rule_views(earlier@), later@),
{
    let ghost views = rules::rule_views(earlier@);
    let mut i: usize = 0;
    while i < earlier.len()
        invariant
            i <= earlier@.len(),
            views == rules::rule_views(earlier@),
            forall|k: int| 0 <= k < i ==> !rule_covers(#[trigger] views[k], later@),
        decreases earlier@.len() - i,
    {
        proof {
            assert(views[i as int] == earlier@[i as int]@);
        }
        if covers(&earlier[i], later) {
            return true;
        }
        i = i + 1;
    }
    false
}

/// True when `earlier` provably takes every file `later` would, so `later` can never match.
pub fn subsumes(earlier: &Destination, later: &Destination) -> (r: bool)
    ensures
        r == takes_all_of(earlier@, later@),
{
    if earlier.has_only_the_all_files_filter() {
        return true;
    }
    // A rule with no filters selects nothing, so it is unreachable for its own reasons, not for
    // something an earlier rule did to it; `leaves` is false of it.
    if !leaves(earlier) || !leaves(later) {
        return false;
    }
    let ghost views = later@.filters;
    let mut i: usize = 0;
    while i < later.filters.len()
        invariant
            i <= later.filters@.len(),
            views == rules::rule_views(later.filters@),
            views == later@.filters,
            earlier@.filters == rules::rule_views(earlier.filters@),
            !earlier@.takes_all_files(),
            forall|k: int| 0 <= k < i ==> some_covers(earlier@.filters, #[trigger] views[k]),
        decreases later.filters@.len() - i,
    {
        proof {
            assert(views[i as int] == later.filters@[i as int]@);
        }
        if !any_covers(&earlier.filters, &later.filters[i]) {
            proof {
                assert(!some_covers(earlier@.filters, later@.filters[i as int]));
            }
            return false;
        }
        i = i + 1;
    }
    true
}

/// Whether basic rules select a file, in a way that agrees with what covers what: a rule selects
/// whatever a rule that it covers selects.
pub open spec fn respects_covering(basic: spec_fn(RuleView) -> bool) -> bool {
    forall|earlier: RuleView, later: RuleView| #[trigger]
        rule_covers(earlier, later) && basic(later) ==> basic(earlier)
}

/// The destination selects the file.
pub open spec fn selects(
    destinations: Seq<DestinationView>,
    basic: spec_fn(RuleView) -> bool,
) -> spec_fn(int) -> bool {
    |i: int| filter_laws::list_picks(destinations[i].filters, basic)
}

/// The destination that gets a file: the first that selects it.
pub open spec fn taker(
    destinations: Seq<DestinationView>,
    basic: spec_fn(RuleView) -> bool,
) -> Option<int> {
    search::first(destinations.len(), selects(destinations, basic))
}

/// What is reported hidden gets no file: whatever the later destination selects, the earlier one
/// selects too.
pub proof fn law_a_hidden_rule_selects_nothing_of_its_own(
    earlier: DestinationView,
    later: DestinationView,
    basic: spec_fn(RuleView) -> bool,
)
    requires
        takes_all_of(earlier, later),
        respects_covering(basic),
        filter_laws::list_picks(later.filters, basic),
    ensures
        filter_laws::list_picks(earlier.filters, basic),
{
    if earlier.takes_all_files() {
        assert(filter_laws::picks(earlier.filters[0], basic));
    } else {
        let i = choose|i: int|
            0 <= i < later.filters.len() && #[trigger] filter_laws::picks(later.filters[i], basic);
        assert(is_leaf(later.filters[i]));
        assert(some_covers(earlier.filters, later.filters[i]));
        let k = choose|k: int|
            0 <= k < earlier.filters.len() && rule_covers(
                #[trigger] earlier.filters[k],
                later.filters[i],
            );
        assert(is_leaf(earlier.filters[k]));
        assert(filter_laws::picks(earlier.filters[k], basic));
    }
}

/// Under first-match-wins, a rule hidden by one above it is never the one that gets a file.
pub proof fn law_a_hidden_rule_gets_no_file(
    destinations: Seq<DestinationView>,
    above: int,
    hidden: int,
    basic: spec_fn(RuleView) -> bool,
)
    requires
        0 <= above < hidden < destinations.len(),
        takes_all_of(destinations[above], destinations[hidden]),
        respects_covering(basic),
    ensures
        taker(destinations, basic) != Some(hidden),
{
    let holds = selects(destinations, basic);
    search::lemma_first(destinations.len(), holds);
    if taker(destinations, basic) == Some(hidden) {
        assert(!holds(above));
        law_a_hidden_rule_selects_nothing_of_its_own(
            destinations[above],
            destinations[hidden],
            basic,
        );
    }
}

/// A readable rule hides its own copy.
pub proof fn law_a_rule_hides_a_copy_of_itself(rule: DestinationView)
    requires
        readable(rule.filters) || rule.takes_all_files(),
    ensures
        takes_all_of(rule, rule),
{
    if !rule.takes_all_files() {
        assert forall|i: int| 0 <= i < rule.filters.len() implies some_covers(
            rule.filters,
            #[trigger] rule.filters[i],
        ) by {
            let leaf = rule.filters[i];
            assert(is_leaf(leaf));
            if leaf is Extension {
                let text = i18n::lowercase("."@ + leaf->Extension_0);
                assert(text.is_suffix_of(text)) by {
                    assert(text.subrange(0, text.len() as int) =~= text);
                }
            }
            assert(rule_covers(rule.filters[i], leaf));
        }
    }
}

/// An all-files rule hides everything after it.
pub proof fn law_an_all_files_rule_hides_everything(earlier: DestinationView, later: DestinationView)
    requires
        earlier.takes_all_files(),
    ensures
        takes_all_of(earlier, later),
{
}

/// A rule that selects nothing is not reported as hidden, unless everything is.
pub proof fn law_an_empty_rule_is_not_reported_as_hidden(
    earlier: DestinationView,
    later: DestinationView,
)
    requires
        later.filters.len() == 0,
        !earlier.takes_all_files(),
    ensures
        !takes_all_of(earlier, later),
{
}

} // verus!
