//! What a preview says of the files it is about: who takes each of them, which are left, and which
//! types there are.

use crate::i18n;
use crate::state::chips;
use crate::state::preview;
use crate::state::preview::{ChipView, ContestedFile};
use crate::text;
use crate::text_laws;
use vstd::prelude::*;

verus! {

/// The numbers below `n` that are to be kept, in order.
pub open spec fn places(n: int, keep: spec_fn(int) -> bool) -> Seq<int>
    decreases n,
{
    if n <= 0 {
        Seq::empty()
    } else if keep(n - 1) {
        places(n - 1, keep).push(n - 1)
    } else {
        places(n - 1, keep)
    }
}

/// The places are those kept, each once, rising.
pub proof fn lemma_places(n: int, keep: spec_fn(int) -> bool)
    ensures
        forall|i: int| #[trigger] places(n, keep).contains(i) <==> 0 <= i < n && keep(i),
        forall|a: int, b: int|
            0 <= a < b < places(n, keep).len() ==> #[trigger] places(n, keep)[a]
                < #[trigger] places(n, keep)[b],
        forall|a: int|
            0 <= a < places(n, keep).len() ==> 0 <= #[trigger] places(n, keep)[a] < n && keep(
                places(n, keep)[a],
            ),
    decreases n,
{
    if n > 0 {
        lemma_places(n - 1, keep);
        let before = places(n - 1, keep);
        let now = places(n, keep);
        assert forall|i: int| #[trigger] now.contains(i) <==> 0 <= i < n && keep(i) by {
            if now.contains(i) {
                let k = choose|k: int| 0 <= k < now.len() && now[k] == i;
                if k < before.len() {
                    assert(before[k] == i);
                    assert(before.contains(i));
                }
            }
            if 0 <= i < n && keep(i) {
                if i < n - 1 {
                    assert(before.contains(i));
                    let k = choose|k: int| 0 <= k < before.len() && before[k] == i;
                    assert(now[k] == i);
                } else {
                    assert(now[now.len() - 1] == i);
                }
            }
        }
    }
}

/// What stands at some places of a list.
pub open spec fn at_places<A>(list: Seq<A>, at: Seq<int>) -> Seq<A> {
    Seq::new(at.len(), |k: int| list[at[k]])
}

/// No destination wants the file at an index.
pub open spec fn nobody_wants(wanted: Seq<Vec<bool>>) -> spec_fn(int) -> bool {
    |f: int| forall|j: int| 0 <= j < wanted[f]@.len() ==> !(#[trigger] wanted[f]@[j])
}

/// The destination at an index wants the file at another.
pub open spec fn wants(wanted: Seq<Vec<bool>>, j: int) -> spec_fn(int) -> bool {
    |f: int| wanted[f]@[j]
}

/// For a Sync task a file is listed as unmatched exactly when no destination wants it; each is
/// listed once, in order.
pub proof fn law_a_file_is_unmatched_exactly_when_nobody_wants_it(
    paths: Seq<Seq<char>>,
    wanted: Seq<Vec<bool>>,
    n: int,
)
    requires
        0 <= n <= paths.len(),
    ensures
        preview::unclaimed(paths, wanted, n) == at_places(paths, places(n, nobody_wants(wanted))),
    decreases n,
{
    let keep = nobody_wants(wanted);
    if n > 0 {
        law_a_file_is_unmatched_exactly_when_nobody_wants_it(paths, wanted, n - 1);
        let row = wanted[n - 1]@;
        assert(keep(n - 1) == !preview::is_wanted(row)) by {
            if !preview::is_wanted(row) {
                assert forall|j: int| 0 <= j < row.len() implies !(#[trigger] row[j]) by {}
            }
        }
    }
    assert(preview::unclaimed(paths, wanted, n) =~= at_places(paths, places(n, keep)));
}

/// How often one file is claimed, where identifiers differ: once where its destination wants it.
proof fn lemma_file_claims(
    path: Seq<char>,
    row: Seq<bool>,
    ids: Seq<u128>,
    j: int,
    n: int,
)
    requires
        ids.no_duplicates(),
        0 <= j < ids.len(),
        0 <= n <= ids.len(),
    ensures
        preview::file_claims(path, row, ids, ids[j], n) == if j < n && row[j] {
            seq![path]
        } else {
            Seq::empty()
        },
    decreases n,
{
    if n > 0 {
        lemma_file_claims(path, row, ids, j, n - 1);
        if ids[n - 1] == ids[j] {
            assert(n - 1 == j);
        }
        assert(Seq::<Seq<char>>::empty().push(path) =~= seq![path]);
    }
}

/// A destination is said to take exactly the files it wants, each once, in order; files that
/// others want as well are not taken from it.
pub proof fn law_a_destination_takes_the_files_it_wants(
    paths: Seq<Seq<char>>,
    wanted: Seq<Vec<bool>>,
    ids: Seq<u128>,
    j: int,
    n: int,
)
    requires
        ids.no_duplicates(),
        0 <= j < ids.len(),
        0 <= n <= paths.len(),
    ensures
        preview::claims(paths, wanted, ids, ids[j], n) == at_places(
            paths,
            places(n, wants(wanted, j)),
        ),
    decreases n,
{
    if n > 0 {
        law_a_destination_takes_the_files_it_wants(paths, wanted, ids, j, n - 1);
        lemma_file_claims(paths[n - 1], wanted[n - 1]@, ids, j, ids.len() as int);
    }
    assert(preview::claims(paths, wanted, ids, ids[j], n) =~= at_places(
        paths,
        places(n, wants(wanted, j)),
    ));
}

/// Every destination of a Sync task is previewed, and nothing else is: how many files it wants,
/// and the first of them.
pub proof fn law_each_destination_is_previewed_by_what_it_wants(
    paths: Seq<Seq<char>>,
    wanted: Seq<Vec<bool>>,
    ids: Seq<u128>,
    j: int,
)
    requires
        ids.no_duplicates(),
        0 <= j < ids.len(),
    ensures
        forall|id: u128| #[trigger]
            preview::claimed(paths, wanted, ids).contains_key(id) <==> ids.contains(id),
        preview::claimed(paths, wanted, ids)[ids[j]].count == places(
            paths.len() as int,
            wants(wanted, j),
        ).len(),
        forall|k: int|
            0 <= k < preview::claimed(paths, wanted, ids)[ids[j]].sample.len()
                ==> #[trigger] preview::claimed(paths, wanted, ids)[ids[j]].sample[k]
                == paths[places(paths.len() as int, wants(wanted, j))[k]],
{
    law_a_destination_takes_the_files_it_wants(paths, wanted, ids, j, paths.len() as int);
    assert(ids.contains(ids[j]));
}

/// Every rule of a Move task is previewed by the files the routing gives it, and no other
/// destination is. Of two rules for one destination the later counts.
pub proof fn law_each_rule_is_previewed_by_what_it_is_given(
    ids: Seq<u128>,
    assigned: Seq<Vec<String>>,
    n: int,
)
    requires
        0 <= n <= ids.len(),
    ensures
        forall|id: u128| #[trigger]
            preview::routed(ids, assigned, n).contains_key(id) <==> ids.take(n).contains(id),
        forall|i: int|
            0 <= i < n && (forall|k: int| i < k < n ==> ids[k] != ids[i]) ==> preview::routed(
                ids,
                assigned,
                n,
            )[#[trigger] ids[i]] == preview::preview_of(text::texts(assigned[i]@)),
    decreases n,
{
    let now = preview::routed(ids, assigned, n);
    if n > 0 {
        let before = preview::routed(ids, assigned, n - 1);
        law_each_rule_is_previewed_by_what_it_is_given(ids, assigned, n - 1);
        assert(ids.take(n) =~= ids.take(n - 1).push(ids[n - 1]));
        assert forall|id: u128| #[trigger] now.contains_key(id) <==> ids.take(n).contains(id) by {
            vstd::seq_lib::lemma_seq_contains_after_push(ids.take(n - 1), ids[n - 1], id);
            assert(before.contains_key(id) <==> ids.take(n - 1).contains(id));
        }
        assert forall|i: int|
            0 <= i < n && (forall|k: int| i < k < n ==> ids[k] != ids[i]) implies now[#[trigger] ids[i]]
            == preview::preview_of(text::texts(assigned[i]@)) by {
            if i < n - 1 {
                assert(ids[n - 1] != ids[i]);
                assert(before[ids[i]] == preview::preview_of(text::texts(assigned[i]@)));
            }
        }
    } else {
        assert forall|id: u128| !(#[trigger] ids.take(n).contains(id)) by {
            assert(ids.take(n).len() == 0);
        }
    }
}

/// A preview counts every path, and shows the first eight, or all where there are fewer.
pub proof fn law_a_preview_counts_all_and_shows_the_first_eight(paths: Seq<Seq<char>>)
    ensures
        preview::preview_of(paths).count == paths.len(),
        preview::preview_of(paths).sample.len() == if paths.len() < 8 {
            paths.len()
        } else {
            8
        },
        forall|k: int|
            0 <= k < preview::preview_of(paths).sample.len() ==> #[trigger] preview::preview_of(
                paths,
            ).sample[k] == paths[k],
{
}

/// Cutting a list short keeps its beginning, as long as may be.
pub proof fn law_cutting_short_keeps_the_beginning<A>(list: Seq<A>, n: int)
    requires
        n >= 0,
    ensures
        preview::at_most(list, n).len() == if list.len() < n {
            list.len() as int
        } else {
            n
        },
        forall|k: int|
            0 <= k < preview::at_most(list, n).len() ==> #[trigger] preview::at_most(list, n)[k]
                == list[k],
{
}

/// A sample holds at most eight, and at most twelve file types are offered.
pub proof fn law_a_sample_is_eight_and_the_chips_are_twelve()
    ensures
        preview::SAMPLE_SIZE == 8,
        preview::EXTENSION_CHIPS == 12,
{
}

/// A contested file that says the same names the same path and the same rules, in the same order.
pub proof fn law_the_same_contested_file_names_the_same_rules(
    one: Seq<ContestedFile>,
    other: Seq<ContestedFile>,
    i: int,
)
    requires
        preview::same_contested(one, other),
        0 <= i < one.len(),
    ensures
        one.len() == other.len(),
        one[i].relative_path@ == other[i].relative_path@,
        one[i].rules@ == other[i].rules@,
{
    assert(one[i].same(other[i]));
}

/// Where the last mark stands.
proof fn lemma_last_mark(path: Seq<char>, mark: char, end: int)
    requires
        0 <= end <= path.len(),
    ensures
        ({
            let at = preview::last_mark(path, mark, end);
            &&& -1 <= at < end
            &&& at >= 0 ==> path[at] == mark
            &&& forall|i: int| at < i < end ==> #[trigger] path[i] != mark
        }),
    decreases end,
{
    if end > 0 && path[end - 1] != mark {
        lemma_last_mark(path, mark, end - 1);
    }
}

/// A path has an extension exactly when its last name has a dot with something behind it: what
/// stands behind the last dot, in which there is neither a dot nor a slash.
pub proof fn law_an_extension_is_what_follows_the_last_dot_of_the_name(path: Seq<char>)
    ensures
        match preview::extension_of(path) {
            Some(extension) => {
                &&& extension.len() > 0
                &&& !extension.contains('.')
                &&& !extension.contains('/')
                &&& path == path.take(path.len() - extension.len() - 1) + seq!['.'] + extension
            },
            None => forall|front: Seq<char>, extension: Seq<char>|
                path == #[trigger] (front + seq!['.'] + extension) ==> extension.len() == 0
                    || extension.contains('.') || extension.contains('/'),
        },
{
    let n = path.len() as int;
    lemma_last_mark(path, '.', n);
    lemma_last_mark(path, '/', n);
    let dot = preview::last_mark(path, '.', n);
    let slash = preview::last_mark(path, '/', n);
    match preview::extension_of(path) {
        Some(extension) => {
            assert(path =~= path.take(n - extension.len() - 1) + seq!['.'] + extension);
            if extension.contains('.') {
                let k = choose|k: int| 0 <= k < extension.len() && extension[k] == '.';
                assert(path[dot + 1 + k] == '.');
            }
            if extension.contains('/') {
                let k = choose|k: int| 0 <= k < extension.len() && extension[k] == '/';
                assert(path[dot + 1 + k] == '/');
            }
        },
        None => {
            assert forall|front: Seq<char>, extension: Seq<char>|
                path == #[trigger] (front + seq!['.'] + extension) implies extension.len() == 0
                || extension.contains('.') || extension.contains('/') by {
                let at = front.len() as int;
                assert(path[at] == '.');
                if dot > at {
                    assert(extension[dot - at - 1] == path[dot]);
                } else if extension.len() > 0 {
                    assert(extension[slash - at - 1] == path[slash]);
                }
            }
        },
    }
}

/// The path at an index has an extension.
pub open spec fn has_extension(paths: Seq<Seq<char>>) -> spec_fn(int) -> bool {
    |i: int| preview::extension_of(paths[i]) is Some
}

/// The types found are those of every file that has one, in order.
pub proof fn law_every_extension_is_found(paths: Seq<Seq<char>>)
    ensures
        ({
            let at = places(paths.len() as int, has_extension(paths));
            &&& preview::found(paths).len() == at.len()
            &&& forall|k: int|
                0 <= k < at.len() ==> preview::extension_of(paths[#[trigger] at[k]]) == Some(
                    preview::found(paths)[k],
                )
        }),
    decreases paths.len(),
{
    if paths.len() > 0 {
        let front = paths.drop_last();
        law_every_extension_is_found(front);
        lemma_same_places(
            front.len() as int,
            has_extension(front),
            has_extension(paths),
        );
        lemma_places(front.len() as int, has_extension(front));
        let before = places(front.len() as int, has_extension(front));
        let at = places(paths.len() as int, has_extension(paths));
        assert(paths.last() == paths[paths.len() - 1]);
        assert forall|k: int| 0 <= k < at.len() implies preview::extension_of(
            paths[#[trigger] at[k]],
        ) == Some(preview::found(paths)[k]) by {
            if k < before.len() {
                assert(at[k] == before[k]);
                assert(front[before[k]] == paths[before[k]]);
            }
        }
    }
}

/// Places depend on nothing but what is kept.
proof fn lemma_same_places(n: int, one: spec_fn(int) -> bool, other: spec_fn(int) -> bool)
    requires
        forall|i: int| 0 <= i < n ==> (#[trigger] one(i)) == other(i),
    ensures
        places(n, one) == places(n, other),
    decreases n,
{
    if n > 0 {
        lemma_same_places(n - 1, one, other);
        assert(one(n - 1) == other(n - 1));
    }
}

/// The type at an index is this one, case aside.
pub open spec fn of_type(list: Seq<Seq<char>>, key: Seq<char>) -> spec_fn(int) -> bool {
    |i: int| i18n::lowercase(list[i]) == key
}

/// A type is counted as often as it occurs, case aside.
pub proof fn law_a_type_is_counted_as_often_as_it_occurs(list: Seq<Seq<char>>, key: Seq<char>)
    ensures
        preview::type_tally(list, key) == places(list.len() as int, of_type(list, key)).len(),
    decreases list.len(),
{
    if list.len() > 0 {
        let front = list.drop_last();
        law_a_type_is_counted_as_often_as_it_occurs(front, key);
        lemma_same_places(front.len() as int, of_type(front, key), of_type(list, key));
        assert(list.last() == list[list.len() - 1]);
    }
}

/// Where a type was first seen.
proof fn lemma_first_seen(list: Seq<Seq<char>>, i: int) -> (f: int)
    requires
        0 <= i < list.len(),
    ensures
        preview::first_seen(list, f),
        f <= i,
        i18n::lowercase(list[f]) == i18n::lowercase(list[i]),
    decreases i,
{
    if forall|k: int| 0 <= k < i ==> i18n::lowercase(#[trigger] list[k]) != i18n::lowercase(list[i]) {
        i
    } else {
        let k = choose|k: int|
            0 <= k < i && i18n::lowercase(#[trigger] list[k]) == i18n::lowercase(list[i]);
        lemma_first_seen(list, k)
    }
}

/// Every type that occurs has a chip.
pub proof fn law_every_type_has_a_chip(chips: Seq<ChipView>, list: Seq<Seq<char>>, i: int)
    requires
        preview::is_ranking(chips, list),
        0 <= i < list.len(),
    ensures
        exists|c: int|
            0 <= c < chips.len() && i18n::lowercase((#[trigger] chips[c]).extension)
                == i18n::lowercase(list[i]),
{
    let f = lemma_first_seen(list, i);
    let chip = ChipView {
        extension: list[f],
        count: preview::type_tally(list, i18n::lowercase(list[f])),
    };
    assert(preview::is_chip(list, chip));
    assert(chips.contains(chip));
    let c = choose|c: int| 0 <= c < chips.len() && chips[c] == chip;
    assert(i18n::lowercase(chips[c].extension) == i18n::lowercase(list[i]));
}

/// What a chip was made from.
proof fn lemma_chip(chips: Seq<ChipView>, list: Seq<Seq<char>>, c: int) -> (f: int)
    requires
        preview::is_ranking(chips, list),
        0 <= c < chips.len(),
    ensures
        preview::first_seen(list, f),
        chips[c].extension == list[f],
        chips[c].count == preview::type_tally(list, i18n::lowercase(list[f])),
{
    assert(chips.contains(chips[c]));
    assert(preview::is_chip(list, chips[c]));
    choose|f: int|
        #[trigger] preview::first_seen(list, f) && chips[c].extension == list[f] && chips[c].count
            == preview::type_tally(list, i18n::lowercase(list[f]))
}

/// A chip stands for a type that occurs: it is spelled as the type was first seen, and counts
/// every file of the type, case aside.
pub proof fn law_a_chip_is_spelled_as_first_seen_and_counts_its_type(
    chips: Seq<ChipView>,
    list: Seq<Seq<char>>,
    c: int,
)
    requires
        preview::is_ranking(chips, list),
        0 <= c < chips.len(),
    ensures
        chips[c].count == places(
            list.len() as int,
            of_type(list, i18n::lowercase(chips[c].extension)),
        ).len(),
        exists|f: int|
            {
                &&& 0 <= f < list.len()
                &&& chips[c].extension == #[trigger] list[f]
                &&& forall|k: int|
                    0 <= k < f ==> i18n::lowercase(#[trigger] list[k]) != i18n::lowercase(list[f])
            },
{
    let f = lemma_chip(chips, list, c);
    law_a_type_is_counted_as_often_as_it_occurs(list, i18n::lowercase(list[f]));
    assert(chips[c].extension == list[f]);
}

/// No type has two chips.
pub proof fn law_no_type_has_two_chips(
    chips: Seq<ChipView>,
    list: Seq<Seq<char>>,
    a: int,
    b: int,
)
    requires
        preview::is_ranking(chips, list),
        0 <= a < b < chips.len(),
    ensures
        i18n::lowercase(chips[a].extension) != i18n::lowercase(chips[b].extension),
{
    let f = lemma_chip(chips, list, a);
    let g = lemma_chip(chips, list, b);
    if i18n::lowercase(list[f]) == i18n::lowercase(list[g]) {
        assert(f == g);
        chips::lemma_rank_irreflexive(chips[a]);
        assert(preview::ranks_before(chips[a], chips[b]));
    }
}

/// One text comes before another in a dictionary: at the first place where they differ, its
/// character is the smaller, or it has ended.
pub open spec fn alphabetical(a: Seq<char>, b: Seq<char>) -> bool {
    exists|k: int|
        {
            &&& 0 <= k <= a.len()
            &&& k < b.len()
            &&& #[trigger] a.take(k) == b.take(k)
            &&& k == a.len() || a[k] < b[k]
        }
}

/// Text sorts as in a dictionary.
pub proof fn law_text_sorts_as_in_a_dictionary(a: Seq<char>, b: Seq<char>)
    ensures
        preview::sorts_before(a, b) <==> alphabetical(a, b),
    decreases a.len(),
{
    if a.len() > 0 && b.len() > 0 && a[0] == b[0] {
        let x = a.skip(1);
        let y = b.skip(1);
        law_text_sorts_as_in_a_dictionary(x, y);
        if alphabetical(x, y) {
            let k = choose|k: int|
                {
                    &&& 0 <= k <= x.len()
                    &&& k < y.len()
                    &&& #[trigger] x.take(k) == y.take(k)
                    &&& k == x.len() || x[k] < y[k]
                };
            assert forall|i: int| 0 <= i < k + 1 implies a[i] == b[i] by {
                if i > 0 {
                    assert(x.take(k)[i - 1] == y.take(k)[i - 1]);
                }
            }
            assert(a.take(k + 1) =~= b.take(k + 1));
        }
        if alphabetical(a, b) {
            let k = choose|k: int|
                {
                    &&& 0 <= k <= a.len()
                    &&& k < b.len()
                    &&& #[trigger] a.take(k) == b.take(k)
                    &&& k == a.len() || a[k] < b[k]
                };
            assert(k > 0);
            assert forall|i: int| 0 <= i < k - 1 implies x[i] == y[i] by {
                assert(a.take(k)[i + 1] == b.take(k)[i + 1]);
            }
            assert(x.take(k - 1) =~= y.take(k - 1));
        }
    } else if a.len() == 0 {
        if b.len() > 0 {
            assert(a.take(0) =~= b.take(0));
        }
    } else if b.len() > 0 {
        if a[0] < b[0] {
            assert(a.take(0) =~= b.take(0));
        }
        if alphabetical(a, b) {
            let k = choose|k: int|
                {
                    &&& 0 <= k <= a.len()
                    &&& k < b.len()
                    &&& #[trigger] a.take(k) == b.take(k)
                    &&& k == a.len() || a[k] < b[k]
                };
            if k > 0 {
                assert(a.take(k)[0] == b.take(k)[0]);
            }
        }
    }
}

/// The chips come commonest first; those that are as common as each other, alphabetically.
pub proof fn law_the_commonest_type_comes_first(
    chips: Seq<ChipView>,
    list: Seq<Seq<char>>,
    i: int,
    j: int,
)
    requires
        preview::is_ranking(chips, list),
        0 <= i < j < chips.len(),
    ensures
        chips[i].count >= chips[j].count,
        chips[i].count == chips[j].count ==> alphabetical(
            i18n::lowercase(chips[i].extension),
            i18n::lowercase(chips[j].extension),
        ),
{
    assert(preview::ranks_before(chips[i], chips[j]));
    law_text_sorts_as_in_a_dictionary(
        i18n::lowercase(chips[i].extension),
        i18n::lowercase(chips[j].extension),
    );
}

/// A chip reads as its type, with the count in parentheses behind it.
pub proof fn law_a_chip_says_its_type_and_count(chip: ChipView)
    ensures
        exists|digits: Seq<char>|
            chip.words() == #[trigger] (chip.extension + " ("@ + digits + ")"@)
                && text_laws::worth(digits) == chip.count,
{
    text_laws::law_a_number_reads_back(chip.count);
    assert(chip.words() == chip.extension + " ("@ + text::decimal(chip.count) + ")"@);
}

} // verus!
