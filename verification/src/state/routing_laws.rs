//! What hiding means for files: a rule that covers another selects every file the other selects.

use crate::i18n;
use crate::model::DestinationView;
use crate::rules::RuleView;
use crate::state::routing;
use vstd::prelude::*;

verus! {

/// A file name ends in an extension, case aside: `archive.tar.gz` ends in `gz` and in `tar.gz`.
pub open spec fn ends_in(name: Seq<char>, extension: Seq<char>) -> bool {
    exists|front: Seq<char>|
        i18n::lowercase(name) == #[trigger] (front + i18n::lowercase("."@ + extension))
}

/// A path is a folder, or lies under it, case aside.
pub open spec fn lies_under(path: Seq<char>, folder: Seq<char>) -> bool {
    ||| i18n::lowercase(path) == i18n::lowercase(folder)
    ||| exists|rest: Seq<char>|
        i18n::lowercase(path) == #[trigger] (i18n::lowercase(folder) + "/"@ + rest)
}

/// Ending in an extension is having it as a suffix.
proof fn lemma_suffix(name: Seq<char>, extension: Seq<char>)
    ensures
        ends_in(name, extension) <==> i18n::lowercase("."@ + extension).is_suffix_of(
            i18n::lowercase(name),
        ),
{
    let whole = i18n::lowercase(name);
    let end = i18n::lowercase("."@ + extension);
    if end.is_suffix_of(whole) {
        let front = whole.take(whole.len() - end.len());
        assert(whole =~= front + end);
    }
    if ends_in(name, extension) {
        let front = choose|front: Seq<char>| whole == #[trigger] (front + end);
        assert(whole.subrange(whole.len() - end.len(), whole.len() as int) =~= end);
    }
}

/// Lying under a folder is having it, and a slash, as a prefix.
proof fn lemma_prefix(path: Seq<char>, folder: Seq<char>)
    ensures
        lies_under(path, folder) <==> i18n::lowercase(path) == i18n::lowercase(folder) || (
        i18n::lowercase(folder) + "/"@).is_prefix_of(i18n::lowercase(path)),
{
    let whole = i18n::lowercase(path);
    let start = i18n::lowercase(folder) + "/"@;
    if start.is_prefix_of(whole) {
        let rest = whole.skip(start.len() as int);
        assert(whole =~= i18n::lowercase(folder) + "/"@ + rest);
    }
    if exists|rest: Seq<char>| whole == #[trigger] (i18n::lowercase(folder) + "/"@ + rest) {
        let rest = choose|rest: Seq<char>|
            whole == #[trigger] (i18n::lowercase(folder) + "/"@ + rest);
        assert(whole.subrange(0, start.len() as int) =~= start);
    }
}

/// One extension covers another exactly when every file name that ends in the other ends in it.
/// The shorter covers the longer; never the other way round.
pub proof fn law_an_extension_covers_another_exactly_when_it_takes_its_files(
    earlier: Seq<char>,
    later: Seq<char>,
)
    ensures
        routing::rule_covers(RuleView::Extension(earlier), RuleView::Extension(later)) <==> (forall|
            name: Seq<char>,
        | #[trigger]
            ends_in(name, later) ==> ends_in(name, earlier)),
{
    let first = i18n::lowercase("."@ + earlier);
    let second = i18n::lowercase("."@ + later);
    if first.is_suffix_of(second) {
        assert forall|name: Seq<char>| #[trigger] ends_in(name, later) implies ends_in(
            name,
            earlier,
        ) by {
            lemma_suffix(name, later);
            lemma_suffix(name, earlier);
            let whole = i18n::lowercase(name);
            assert(whole.subrange(whole.len() - first.len(), whole.len() as int) =~= second.subrange(
                second.len() - first.len(),
                second.len() as int,
            ));
        }
    }
    if forall|name: Seq<char>| #[trigger] ends_in(name, later) ==> ends_in(name, earlier) {
        let name = "."@ + later;
        lemma_suffix(name, later);
        lemma_suffix(name, earlier);
        assert(second.subrange(0, second.len() as int) =~= second);
        assert(ends_in(name, later));
    }
}

/// One folder covers another exactly when every path that is the other or lies under it is the
/// first or lies under it.
pub proof fn law_a_folder_covers_another_exactly_when_it_takes_its_files(
    earlier: Seq<char>,
    later: Seq<char>,
)
    ensures
        routing::rule_covers(RuleView::Path(earlier), RuleView::Path(later)) <==> (forall|
            path: Seq<char>,
        | #[trigger]
            lies_under(path, later) ==> lies_under(path, earlier)),
{
    let first = i18n::lowercase(earlier);
    let second = i18n::lowercase(later);
    if second == first || (first + "/"@).is_prefix_of(second) {
        assert forall|path: Seq<char>| #[trigger] lies_under(path, later) implies lies_under(
            path,
            earlier,
        ) by {
            lemma_prefix(path, later);
            lemma_prefix(path, earlier);
            let whole = i18n::lowercase(path);
            let start = first + "/"@;
            if second != first && whole != second {
                let long = second + "/"@;
                assert(whole.subrange(0, start.len() as int) =~= long.subrange(
                    0,
                    start.len() as int,
                )) by {
                    assert(whole.subrange(0, long.len() as int) == long);
                    assert forall|i: int| 0 <= i < start.len() implies whole[i] == long[i] by {
                        assert(whole.subrange(0, long.len() as int)[i] == long[i]);
                    }
                }
                assert(long.subrange(0, start.len() as int) =~= second.subrange(
                    0,
                    start.len() as int,
                ));
            }
        }
    }
    if forall|path: Seq<char>| #[trigger] lies_under(path, later) ==> lies_under(path, earlier) {
        assert(lies_under(later, later));
        lemma_prefix(later, earlier);
    }
}

/// Only like covers like: a folder never covers a file type, nor the other way round, and nothing
/// else covers or is covered at all.
pub proof fn law_only_like_covers_like(earlier: RuleView, later: RuleView)
    requires
        routing::rule_covers(earlier, later),
    ensures
        (earlier is Extension && later is Extension) || (earlier is Path && later is Path),
{
}

/// Whether a rule for a folder, a file type or everything selects a file, by its path.
pub open spec fn selects_file(rule: RuleView, path: Seq<char>) -> bool {
    match rule {
        RuleView::AllFiles => true,
        RuleView::Extension(extension) => ends_in(path, extension),
        RuleView::Path(folder) => lies_under(path, folder),
        _ => false,
    }
}

/// What is reported hidden gets no file of its own: any file that a folder or file-type rule of
/// the later destination selects, a rule of the earlier one selects.
pub proof fn law_whatever_a_hidden_rule_selects_was_taken_above(
    earlier: DestinationView,
    later: DestinationView,
    path: Seq<char>,
    at: int,
)
    requires
        routing::takes_all_of(earlier, later),
        0 <= at < later.filters.len(),
        selects_file(later.filters[at], path),
    ensures
        exists|i: int|
            0 <= i < earlier.filters.len() && selects_file(#[trigger] earlier.filters[i], path),
{
    if earlier.takes_all_files() {
        assert(selects_file(earlier.filters[0], path));
    } else {
        let rule = later.filters[at];
        assert(routing::some_covers(earlier.filters, rule));
        let i = choose|i: int|
            0 <= i < earlier.filters.len() && routing::rule_covers(
                #[trigger] earlier.filters[i],
                rule,
            );
        law_only_like_covers_like(earlier.filters[i], rule);
        match (earlier.filters[i], rule) {
            (RuleView::Extension(a), RuleView::Extension(b)) => {
                law_an_extension_covers_another_exactly_when_it_takes_its_files(a, b);
            },
            (RuleView::Path(a), RuleView::Path(b)) => {
                law_a_folder_covers_another_exactly_when_it_takes_its_files(a, b);
            },
            _ => {},
        }
        assert(selects_file(earlier.filters[i], path));
    }
}

/// A destination is reported hidden exactly where it is unarguable: the earlier one takes all
/// files; or both list folders and file types alone, at least one each, and every rule of the later
/// one is covered by some rule of the earlier.
pub proof fn law_hiding_is_reported_exactly_where_it_is_unarguable(
    earlier: DestinationView,
    later: DestinationView,
)
    ensures
        routing::takes_all_of(earlier, later) <==> {
            ||| earlier.filters.len() == 1 && earlier.filters[0] is AllFiles
            ||| {
                &&& earlier.filters.len() > 0
                &&& later.filters.len() > 0
                &&& forall|i: int|
                    0 <= i < earlier.filters.len() ==> (#[trigger] earlier.filters[i]) is Path
                        || earlier.filters[i] is Extension
                &&& forall|i: int|
                    0 <= i < later.filters.len() ==> (#[trigger] later.filters[i]) is Path
                        || later.filters[i] is Extension
                &&& forall|i: int|
                    0 <= i < later.filters.len() ==> exists|k: int|
                        0 <= k < earlier.filters.len() && routing::rule_covers(
                            #[trigger] earlier.filters[k],
                            #[trigger] later.filters[i],
                        )
            }
        },
{
    if routing::takes_all_of(earlier, later) && !earlier.takes_all_files() {
        assert forall|i: int| 0 <= i < earlier.filters.len() implies (
        #[trigger] earlier.filters[i]) is Path || earlier.filters[i] is Extension by {
            assert(routing::is_leaf(earlier.filters[i]));
        }
        assert forall|i: int| 0 <= i < later.filters.len() implies (
        #[trigger] later.filters[i]) is Path || later.filters[i] is Extension by {
            assert(routing::is_leaf(later.filters[i]));
        }
        assert forall|i: int| 0 <= i < later.filters.len() implies exists|k: int|
            0 <= k < earlier.filters.len() && routing::rule_covers(
                #[trigger] earlier.filters[k],
                #[trigger] later.filters[i],
            ) by {
            assert(routing::some_covers(earlier.filters, later.filters[i]));
        }
    }
}

} // verus!
