//! The file types the source actually holds, commonest first. Authoring a rule is then picking
//! from what is there rather than guessing at globs.

use crate::i18n;
use crate::i18n::to_lowercase;
use crate::state::preview;
use crate::state::preview::{
    all_extensions, claim, route, Assignment, ChipView, DestinationPreview, ExtensionChip, Scan,
    EXTENSION_CHIPS,
};
use crate::text;
use crate::text::{chars_of, same_text};
use std::collections::HashMap;
use vstd::prelude::*;

verus! {

/// No text sorts before itself.
proof fn lemma_irreflexive(a: Seq<char>)
    ensures
        !preview::sorts_before(a, a),
    decreases a.len(),
{
    if a.len() > 0 {
        lemma_irreflexive(a.skip(1));
    }
}

/// Sorting chains.
proof fn lemma_transitive(a: Seq<char>, b: Seq<char>, c: Seq<char>)
    requires
        preview::sorts_before(a, b),
        preview::sorts_before(b, c),
    ensures
        preview::sorts_before(a, c),
    decreases a.len(),
{
    if a.len() > 0 && b.len() > 0 && c.len() > 0 && a[0] == b[0] && b[0] == c[0] {
        lemma_transitive(a.skip(1), b.skip(1), c.skip(1));
    }
}

/// Of two different texts one sorts before the other.
proof fn lemma_total(a: Seq<char>, b: Seq<char>)
    requires
        a != b,
    ensures
        preview::sorts_before(a, b) || preview::sorts_before(b, a),
    decreases a.len(),
{
    if a.len() > 0 && b.len() > 0 && a[0] == b[0] {
        if a.skip(1) == b.skip(1) {
            assert(a =~= seq![a[0]] + a.skip(1));
            assert(b =~= seq![b[0]] + b.skip(1));
        }
        lemma_total(a.skip(1), b.skip(1));
    } else if a.len() == 0 && b.len() == 0 {
        assert(a =~= b);
    }
}

/// Rank chains.
proof fn lemma_rank_transitive(a: ChipView, b: ChipView, c: ChipView)
    requires
        preview::ranks_before(a, b),
        preview::ranks_before(b, c),
    ensures
        preview::ranks_before(a, c),
{
    let x = i18n::lowercase(a.extension);
    let y = i18n::lowercase(b.extension);
    let z = i18n::lowercase(c.extension);
    if preview::sorts_before(x, y) && preview::sorts_before(y, z) {
        lemma_transitive(x, y, z);
    }
}

/// No chip ranks before itself.
pub proof fn lemma_rank_irreflexive(a: ChipView)
    ensures
        !preview::ranks_before(a, a),
{
    lemma_irreflexive(i18n::lowercase(a.extension));
}

/// Whether one text sorts before another.
fn text_before(a: &str, b: &str) -> (r: bool)
    ensures
        r == preview::sorts_before(a@, b@),
{
    let x = chars_of(a);
    let y = chars_of(b);
    let mut i: usize = 0;
    proof {
        assert(x@.skip(0) =~= x@);
        assert(y@.skip(0) =~= y@);
    }
    while i < x.len() && i < y.len() && x[i] == y[i]
        invariant
            i <= x@.len(),
            i <= y@.len(),
            preview::sorts_before(x@, y@) == preview::sorts_before(
                x@.skip(i as int),
                y@.skip(i as int),
            ),
        decreases x@.len() - i,
    {
        proof {
            assert(x@.skip(i as int).skip(1) =~= x@.skip(i + 1));
            assert(y@.skip(i as int).skip(1) =~= y@.skip(i + 1));
        }
        i = i + 1;
    }
    if i == y.len() {
        false
    } else if i == x.len() {
        true
    } else {
        x[i] < y[i]
    }
}

/// Whether one chip ranks before another.
fn chip_before(a: &ExtensionChip, b: &ExtensionChip) -> (r: bool)
    ensures
        r == preview::ranks_before(a@, b@),
{
    a.count > b.count || (a.count == b.count && text_before(
        to_lowercase(a.extension.as_str()).as_str(),
        to_lowercase(b.extension.as_str()).as_str(),
    ))
}

/// The chips stand for different file types.
spec fn distinct_types(chips: Seq<ChipView>) -> bool {
    forall|i: int, j: int|
        0 <= i < j < chips.len() ==> i18n::lowercase((#[trigger] chips[i]).extension)
            != i18n::lowercase((#[trigger] chips[j]).extension)
}

/// Some chip stands for the type of this extension.
spec fn is_counted(chips: Seq<ChipView>, extension: Seq<char>) -> bool {
    exists|p: int|
        0 <= p < chips.len() && i18n::lowercase((#[trigger] chips[p]).extension)
            == i18n::lowercase(extension)
}

/// Each chip is shown as its type was first seen, at the index beside it, and counted.
spec fn counts_so_far(
    chips: Seq<ChipView>,
    firsts: Seq<int>,
    list: Seq<Seq<char>>,
) -> bool {
    &&& firsts.len() == chips.len()
    &&& forall|p: int|
        0 <= p < chips.len() ==> {
            &&& preview::first_seen(list, #[trigger] firsts[p])
            &&& chips[p].extension == list[firsts[p]]
            &&& chips[p].count == preview::type_tally(list, i18n::lowercase(list[firsts[p]]))
        }
    &&& forall|i: int| 0 <= i < list.len() ==> is_counted(chips, #[trigger] list[i])
    &&& distinct_types(chips)
}

/// What was first seen stays first seen as the list grows.
proof fn lemma_first_seen_grows(list: Seq<Seq<char>>, more: Seq<char>, i: int)
    requires
        preview::first_seen(list, i),
    ensures
        preview::first_seen(list.push(more), i),
{
    let next = list.push(more);
    assert forall|k: int| 0 <= k < i implies i18n::lowercase(#[trigger] next[k]) != i18n::lowercase(
        next[i],
    ) by {
        assert(next[k] == list[k]);
    }
}

/// A type that was not seen has no tally.
proof fn lemma_unseen(list: Seq<Seq<char>>, key: Seq<char>)
    requires
        forall|i: int| 0 <= i < list.len() ==> i18n::lowercase(#[trigger] list[i]) != key,
    ensures
        preview::type_tally(list, key) == 0,
    decreases list.len(),
{
    if list.len() > 0 {
        assert(list.last() == list[list.len() - 1]);
        assert forall|i: int| 0 <= i < list.drop_last().len() implies i18n::lowercase(
            #[trigger] list.drop_last()[i],
        ) != key by {
            assert(list.drop_last()[i] == list[i]);
        }
        lemma_unseen(list.drop_last(), key);
    }
}

/// The chips counted so far are the chips of the list.
proof fn lemma_counted(chips: Seq<ChipView>, firsts: Seq<int>, list: Seq<Seq<char>>)
    requires
        counts_so_far(chips, firsts, list),
    ensures
        forall|c: ChipView| #[trigger] chips.contains(c) <==> preview::is_chip(list, c),
{
    assert forall|c: ChipView| #[trigger] chips.contains(c) <==> preview::is_chip(list, c) by {
        if chips.contains(c) {
            let p = choose|p: int| 0 <= p < chips.len() && chips[p] == c;
            assert(preview::first_seen(list, firsts[p]));
        }
        if preview::is_chip(list, c) {
            let i = choose|i: int|
                #[trigger] preview::first_seen(list, i) && c.extension == list[i] && c.count
                    == preview::type_tally(list, i18n::lowercase(list[i]));
            assert(is_counted(chips, list[i]));
            let p = choose|p: int|
                0 <= p < chips.len() && i18n::lowercase((#[trigger] chips[p]).extension)
                    == i18n::lowercase(list[i]);
            let f = firsts[p];
            assert(preview::first_seen(list, f));
            assert(i18n::lowercase(list[f]) == i18n::lowercase(list[i]));
            if f < i {
                assert(i18n::lowercase(list[f]) != i18n::lowercase(list[i]));
            } else if i < f {
                assert(i18n::lowercase(list[i]) != i18n::lowercase(list[f]));
            }
            assert(chips[p] == c);
        }
    }
}

/// One more file of a type already seen.
proof fn lemma_count_again(
    chips: Seq<ChipView>,
    firsts: Seq<int>,
    list: Seq<Seq<char>>,
    more: Seq<char>,
    at: int,
)
    requires
        counts_so_far(chips, firsts, list),
        0 <= at < chips.len(),
        i18n::lowercase(chips[at].extension) == i18n::lowercase(more),
    ensures
        counts_so_far(
            chips.update(at, ChipView { count: chips[at].count + 1, ..chips[at] }),
            firsts,
            list.push(more),
        ),
{
    let next = list.push(more);
    let now = chips.update(at, ChipView { count: chips[at].count + 1, ..chips[at] });
    assert(next.drop_last() =~= list);
    assert forall|p: int| 0 <= p < now.len() implies {
        &&& preview::first_seen(next, #[trigger] firsts[p])
        &&& now[p].extension == next[firsts[p]]
        &&& now[p].count == preview::type_tally(next, i18n::lowercase(next[firsts[p]]))
    } by {
        assert(preview::first_seen(list, firsts[p]));
        lemma_first_seen_grows(list, more, firsts[p]);
        if p != at {
            assert(i18n::lowercase(chips[p].extension) != i18n::lowercase(chips[at].extension));
        }
    }
    assert forall|i: int| 0 <= i < next.len() implies is_counted(now, #[trigger] next[i]) by {
        if i < list.len() {
            assert(is_counted(chips, list[i]));
            let p = choose|p: int|
                0 <= p < chips.len() && i18n::lowercase((#[trigger] chips[p]).extension)
                    == i18n::lowercase(list[i]);
            assert(i18n::lowercase(now[p].extension) == i18n::lowercase(next[i]));
        } else {
            assert(i18n::lowercase(now[at].extension) == i18n::lowercase(next[i]));
        }
    }
    assert(distinct_types(now)) by {
        assert forall|i: int, j: int| 0 <= i < j < now.len() implies i18n::lowercase(
            (#[trigger] now[i]).extension,
        ) != i18n::lowercase((#[trigger] now[j]).extension) by {
            assert(now[i].extension == chips[i].extension);
            assert(now[j].extension == chips[j].extension);
        }
    }
}

/// The first file of a type.
proof fn lemma_count_new(
    chips: Seq<ChipView>,
    firsts: Seq<int>,
    list: Seq<Seq<char>>,
    more: Seq<char>,
)
    requires
        counts_so_far(chips, firsts, list),
        forall|p: int|
            0 <= p < chips.len() ==> i18n::lowercase((#[trigger] chips[p]).extension)
                != i18n::lowercase(more),
    ensures
        counts_so_far(
            chips.push(ChipView { extension: more, count: 1 }),
            firsts.push(list.len() as int),
            list.push(more),
        ),
{
    let next = list.push(more);
    let now = chips.push(ChipView { extension: more, count: 1 });
    let places = firsts.push(list.len() as int);
    let key = i18n::lowercase(more);
    assert(next.drop_last() =~= list);
    assert forall|i: int| 0 <= i < list.len() implies i18n::lowercase(#[trigger] list[i])
        != key by {
        assert(is_counted(chips, list[i]));
        let p = choose|p: int|
            0 <= p < chips.len() && i18n::lowercase((#[trigger] chips[p]).extension)
                == i18n::lowercase(list[i]);
        assert(i18n::lowercase(chips[p].extension) != key);
    }
    lemma_unseen(list, key);
    assert(preview::first_seen(next, list.len() as int)) by {
        assert forall|k: int| 0 <= k < list.len() implies i18n::lowercase(#[trigger] next[k])
            != key by {
            assert(next[k] == list[k]);
        }
    }
    assert forall|p: int| 0 <= p < now.len() implies {
        &&& preview::first_seen(next, #[trigger] places[p])
        &&& now[p].extension == next[places[p]]
        &&& now[p].count == preview::type_tally(next, i18n::lowercase(next[places[p]]))
    } by {
        if p < chips.len() {
            assert(places[p] == firsts[p]);
            assert(preview::first_seen(list, firsts[p]));
            lemma_first_seen_grows(list, more, firsts[p]);
            assert(i18n::lowercase(chips[p].extension) != key);
        }
    }
    assert forall|i: int| 0 <= i < next.len() implies is_counted(now, #[trigger] next[i]) by {
        if i < list.len() {
            assert(is_counted(chips, list[i]));
            let p = choose|p: int|
                0 <= p < chips.len() && i18n::lowercase((#[trigger] chips[p]).extension)
                    == i18n::lowercase(list[i]);
            assert(i18n::lowercase(now[p].extension) == i18n::lowercase(next[i]));
        } else {
            assert(i18n::lowercase(now[chips.len() as int].extension) == i18n::lowercase(next[i]));
        }
    }
}

/// Counts the file types, case aside, in the order they were first seen.
fn count_types(list: &Vec<String>) -> (r: Vec<ExtensionChip>)
    ensures
        forall|c: ChipView|
            #[trigger] preview::chip_views(r@).contains(c) <==> preview::is_chip(
                text::texts(list@),
                c,
            ),
        distinct_types(preview::chip_views(r@)),
{
    let ghost all = text::texts(list@);
    let mut chips: Vec<ExtensionChip> = Vec::new();
    let mut keys: Vec<String> = Vec::new();
    let ghost mut firsts: Seq<int> = Seq::empty();
    let mut n: usize = 0;
    proof {
        assert(preview::chip_views(chips@) =~= Seq::empty());
        assert(all.take(0) =~= Seq::empty());
    }
    while n < list.len()
        invariant
            n <= list@.len(),
            all == text::texts(list@),
            counts_so_far(preview::chip_views(chips@), firsts, all.take(n as int)),
            keys@.len() == chips@.len(),
            forall|p: int|
                0 <= p < keys@.len() ==> (#[trigger] keys@[p])@ == i18n::lowercase(
                    chips@[p].extension@,
                ),
            forall|p: int| 0 <= p < chips@.len() ==> (#[trigger] chips@[p]).count <= n,
        decreases list@.len() - n,
    {
        let ghost views = preview::chip_views(chips@);
        let ghost more = all[n as int];
        let key = to_lowercase(list[n].as_str());
        let mut at: usize = 0;
        while at < keys.len() && !same_text(keys[at].as_str(), key.as_str())
            invariant
                at <= keys@.len(),
                keys@.len() == chips@.len(),
                forall|p: int| 0 <= p < at ==> (#[trigger] keys@[p])@ != key@,
            decreases keys@.len() - at,
        {
            at = at + 1;
        }
        proof {
            assert(all.take(n + 1) =~= all.take(n as int).push(more));
        }
        if at < keys.len() {
            let chip = ExtensionChip {
                extension: chips[at].extension.clone(),
                count: chips[at].count + 1,
            };
            proof {
                assert(i18n::lowercase(views[at as int].extension) == keys@[at as int]@);
                lemma_count_again(views, firsts, all.take(n as int), more, at as int);
                assert(preview::chip_views(chips@.update(at as int, chip)) =~= views.update(
                    at as int,
                    ChipView { count: views[at as int].count + 1, ..views[at as int] },
                ));
            }
            chips.set(at, chip);
        } else {
            let chip = ExtensionChip { extension: list[n].clone(), count: 1 };
            proof {
                assert forall|p: int| 0 <= p < views.len() implies i18n::lowercase(
                    (#[trigger] views[p]).extension,
                ) != i18n::lowercase(more) by {
                    assert(keys@[p]@ != key@);
                }
                lemma_count_new(views, firsts, all.take(n as int), more);
                assert(preview::chip_views(chips@.push(chip)) =~= views.push(
                    ChipView { extension: more, count: 1 },
                ));
                firsts = firsts.push(n as int);
                assert(all.take(n as int).len() == n);
            }
            chips.push(chip);
            keys.push(key);
        }
        n = n + 1;
    }
    proof {
        assert(all.take(all.len() as int) =~= all);
        lemma_counted(preview::chip_views(chips@), firsts, all);
    }
    chips
}

/// The chips stand in rank order.
spec fn in_rank_order(chips: Seq<ChipView>) -> bool {
    forall|i: int, j: int|
        0 <= i < j < chips.len() ==> preview::ranks_before(
            #[trigger] chips[i],
            #[trigger] chips[j],
        )
}

/// Puts a chip where it belongs among chips that stand in rank order.
fn insert_ranked(chips: &mut Vec<ExtensionChip>, chip: ExtensionChip)
    requires
        in_rank_order(preview::chip_views(old(chips)@)),
        forall|i: int|
            0 <= i < old(chips)@.len() ==> i18n::lowercase((#[trigger] old(chips)@[i]).extension@)
                != i18n::lowercase(chip.extension@),
    ensures
        in_rank_order(preview::chip_views(final(chips)@)),
        final(chips)@.len() == old(chips)@.len() + 1,
        forall|c: ChipView|
            #[trigger] preview::chip_views(final(chips)@).contains(c)
                <==> preview::chip_views(old(chips)@).contains(c) || c == chip@,
{
    let ghost before = preview::chip_views(chips@);
    let ghost view = chip@;
    let mut at: usize = 0;
    while at < chips.len() && chip_before(&chips[at], &chip)
        invariant
            at <= chips@.len(),
            before == preview::chip_views(chips@),
            view == chip@,
            forall|i: int| 0 <= i < at ==> preview::ranks_before(#[trigger] before[i], view),
        decreases chips@.len() - at,
    {
        at = at + 1;
    }
    proof {
        if at < chips@.len() {
            let next = before[at as int];
            let x = i18n::lowercase(next.extension);
            let y = i18n::lowercase(view.extension);
            assert(i18n::lowercase(chips@[at as int].extension@) != y);
            lemma_total(x, y);
            assert(preview::ranks_before(view, next));
            assert forall|i: int| at < i < before.len() implies preview::ranks_before(
                view,
                #[trigger] before[i],
            ) by {
                lemma_rank_transitive(view, next, before[i]);
            }
        }
    }
    let ghost held = chips@;
    chips.insert(at, chip);
    proof {
        let after = preview::chip_views(chips@);
        assert(after =~= before.insert(at as int, view));
        assert forall|i: int, j: int| 0 <= i < j < after.len() implies preview::ranks_before(
            #[trigger] after[i],
            #[trigger] after[j],
        ) by {
            let a = if i < at {
                i
            } else {
                i - 1
            };
            let b = if j < at {
                j
            } else {
                j - 1
            };
            if i != at {
                assert(after[i] == before[a]);
            }
            if j != at {
                assert(after[j] == before[b]);
            }
        }
        assert forall|c: ChipView| #[trigger] after.contains(c) <==> before.contains(c) || c
            == view by {
            if before.contains(c) {
                let k = choose|k: int| 0 <= k < before.len() && before[k] == c;
                let m = if k < at {
                    k
                } else {
                    k + 1
                };
                assert(after[m] == c);
            }
            if c == view {
                assert(after[at as int] == c);
            }
            if after.contains(c) {
                let m = choose|m: int| 0 <= m < after.len() && after[m] == c;
                if m < at {
                    assert(before[m] == c);
                } else if m > at {
                    assert(before[m - 1] == c);
                }
            }
        }
    }
}

/// Ranks chips that stand for different file types.
fn rank(chips: Vec<ExtensionChip>) -> (r: Vec<ExtensionChip>)
    requires
        distinct_types(preview::chip_views(chips@)),
    ensures
        in_rank_order(preview::chip_views(r@)),
        forall|c: ChipView|
            #[trigger] preview::chip_views(r@).contains(c) <==> preview::chip_views(
                chips@,
            ).contains(c),
{
    let ghost all = preview::chip_views(chips@);
    let mut rest = chips;
    let mut out: Vec<ExtensionChip> = Vec::new();
    proof {
        assert(preview::chip_views(out@) =~= Seq::empty());
    }
    while rest.len() > 0
        invariant
            rest@.len() <= all.len(),
            preview::chip_views(rest@) == all.take(rest@.len() as int),
            distinct_types(all),
            in_rank_order(preview::chip_views(out@)),
            forall|c: ChipView|
                #[trigger] preview::chip_views(out@).contains(c) <==> all.skip(
                    rest@.len() as int,
                ).contains(c),
        decreases rest@.len(),
    {
        let ghost n = rest@.len() as int;
        let ghost held = rest@;
        match rest.pop() {
            Some(chip) => {
                let ghost view = chip@;
                let ghost before = preview::chip_views(out@);
                proof {
                    assert(preview::chip_views(held)[n - 1] == all.take(n)[n - 1]);
                    assert(view == all[n - 1]);
                    assert(preview::chip_views(rest@) =~= all.take(n - 1)) by {
                        assert forall|k: int| 0 <= k < n - 1 implies preview::chip_views(rest@)[k]
                            == all[k] by {
                            assert(preview::chip_views(held)[k] == all.take(n)[k]);
                        }
                    }
                    assert forall|i: int| 0 <= i < out@.len() implies i18n::lowercase(
                        (#[trigger] out@[i]).extension@,
                    ) != i18n::lowercase(view.extension) by {
                        assert(before[i] == out@[i]@);
                        assert(before.contains(before[i]));
                        let k = choose|k: int|
                            0 <= k < all.skip(n).len() && all.skip(n)[k] == before[i];
                        assert(all[n + k] == before[i]);
                        assert(all[n - 1] == view);
                    }
                }
                insert_ranked(&mut out, chip);
                proof {
                    let left = all.skip(n - 1);
                    assert forall|c: ChipView| #[trigger] preview::chip_views(out@).contains(c)
                        <==> left.contains(c) by {
                        if all.skip(n).contains(c) {
                            let k = choose|k: int|
                                0 <= k < all.skip(n).len() && all.skip(n)[k] == c;
                            assert(left[k + 1] == c);
                        }
                        if c == view {
                            assert(left[0] == c);
                        }
                        if left.contains(c) {
                            let k = choose|k: int| 0 <= k < left.len() && left[k] == c;
                            if k > 0 {
                                assert(all.skip(n)[k - 1] == c);
                            }
                        }
                    }
                }
            },
            None => {},
        }
    }
    proof {
        assert(all.skip(0) =~= all);
    }
    out
}

/// The file types the source holds, commonest first, then alphabetical; the long tail is cut.
pub fn extensions(files: &Vec<String>) -> (r: Vec<ExtensionChip>)
    ensures
        exists|all: Seq<ChipView>|
            #[trigger] preview::is_ranking(all, preview::found(text::texts(files@)))
                && preview::chip_views(r@) == preview::at_most(all, EXTENSION_CHIPS as int),
{
    let list = all_extensions(files);
    let mut chips = rank(count_types(&list));
    let ghost all = preview::chip_views(chips@);
    proof {
        assert(preview::is_ranking(all, text::texts(list@)));
    }
    chips.truncate(EXTENSION_CHIPS);
    proof {
        assert(preview::chip_views(chips@) =~= preview::at_most(all, EXTENSION_CHIPS as int));
    }
    chips
}

/// The order of the chips is settled by the tree alone: two rankings of the same file types are
/// the same.
pub proof fn law_the_ranking_is_unique(
    one: Seq<ChipView>,
    other: Seq<ChipView>,
    list: Seq<Seq<char>>,
)
    requires
        preview::is_ranking(one, list),
        preview::is_ranking(other, list),
    ensures
        one == other,
{
    lemma_same_members(one, other);
}

/// Two lists in rank order with the same members are the same.
proof fn lemma_same_members(one: Seq<ChipView>, other: Seq<ChipView>)
    requires
        in_rank_order(one),
        in_rank_order(other),
        forall|c: ChipView| #[trigger] one.contains(c) <==> other.contains(c),
    ensures
        one == other,
    decreases one.len(),
{
    if one.len() == 0 {
        if other.len() > 0 {
            assert(other.contains(other[0]));
            assert(one.contains(other[0]));
        }
        assert(one =~= other);
    } else {
        assert(one.contains(one[0]));
        assert(other.contains(one[0]));
        assert(other.contains(other[0]));
        assert(one.contains(other[0]));
        let a = choose|a: int| 0 <= a < other.len() && other[a] == one[0];
        let b = choose|b: int| 0 <= b < one.len() && one[b] == other[0];
        if a > 0 && b > 0 {
            assert(preview::ranks_before(other[0], other[a]));
            assert(preview::ranks_before(one[0], one[b]));
            lemma_rank_transitive(one[0], other[0], one[0]);
            lemma_rank_irreflexive(one[0]);
        }
        assert(one[0] == other[0]);
        let x = one.skip(1);
        let y = other.skip(1);
        assert forall|c: ChipView| #[trigger] x.contains(c) <==> y.contains(c) by {
            if x.contains(c) {
                let k = choose|k: int| 0 <= k < x.len() && x[k] == c;
                assert(one[k + 1] == c);
                assert(one.contains(c));
                assert(other.contains(c));
                let m = choose|m: int| 0 <= m < other.len() && other[m] == c;
                if m == 0 {
                    assert(preview::ranks_before(one[0], one[k + 1]));
                    lemma_rank_irreflexive(c);
                }
                assert(y[m - 1] == c);
            }
            if y.contains(c) {
                let k = choose|k: int| 0 <= k < y.len() && y[k] == c;
                assert(other[k + 1] == c);
                assert(other.contains(c));
                assert(one.contains(c));
                let m = choose|m: int| 0 <= m < one.len() && one[m] == c;
                if m == 0 {
                    assert(preview::ranks_before(other[0], other[k + 1]));
                    lemma_rank_irreflexive(c);
                }
                assert(x[m - 1] == c);
            }
        }
        assert forall|i: int, j: int| 0 <= i < j < x.len() implies preview::ranks_before(
            #[trigger] x[i],
            #[trigger] x[j],
        ) by {
            assert(preview::ranks_before(one[i + 1], one[j + 1]));
        }
        assert forall|i: int, j: int| 0 <= i < j < y.len() implies preview::ranks_before(
            #[trigger] y[i],
            #[trigger] y[j],
        ) by {
            assert(preview::ranks_before(other[i + 1], other[j + 1]));
        }
        lemma_same_members(x, y);
        assert(one =~= seq![one[0]] + x);
        assert(other =~= seq![other[0]] + y);
    }
}

/// Puts together what the walk of the source and the assignment of its files add up to. A source
/// that could not be read is an error rather than an empty preview.
pub fn scan(
    listing: Result<Vec<String>, String>,
    ids: &Vec<u128>,
    assignment: &Assignment,
) -> (r: Result<Scan, String>)
    requires
        listing is Ok ==> preview::fits(*assignment, listing->Ok_0@.len(), ids@.len()),
    ensures
        match (listing, r) {
            (Err(error), Err(e)) => e == error,
            (Ok(files), Ok(scan)) => {
                let paths = text::texts(files@);
                &&& scan.file_count == files@.len()
                &&& exists|all: Seq<ChipView>|
                    #[trigger] preview::is_ranking(all, preview::found(paths))
                        && preview::chip_views(scan.extensions@) == preview::at_most(
                        all,
                        EXTENSION_CHIPS as int,
                    )
                &&& match *assignment {
                    Assignment::Routed(routing) => {
                        &&& scan.taken() == preview::routed(
                            ids@,
                            routing.assigned@,
                            ids@.len() as int,
                        )
                        &&& scan.unmatched@ == preview::preview_of(
                            text::texts(routing.unmatched@),
                        )
                        &&& preview::same_contested(
                            scan.contested@,
                            preview::at_most(
                                routing.contested@,
                                preview::SAMPLE_SIZE as int,
                            ),
                        )
                    },
                    Assignment::Wanted(wanted) => {
                        &&& scan.taken() == preview::claimed(paths, wanted@, ids@)
                        &&& scan.unmatched@ == preview::preview_of(
                            preview::unclaimed(paths, wanted@, files@.len() as int),
                        )
                        &&& scan.contested@.len() == 0
                    },
                }
            },
            _ => false,
        },
{
    let files = match listing {
        Ok(files) => files,
        Err(error) => {
            return Err(error);
        },
    };
    let mut result = Scan {
        file_count: files.len(),
        per_destination: HashMap::new(),
        unmatched: DestinationPreview { count: 0, sample: Vec::new() },
        contested: Vec::new(),
        extensions: extensions(&files),
    };
    match assignment {
        Assignment::Routed(routing) => route(ids, routing, &mut result),
        Assignment::Wanted(wanted) => claim(ids, &files, wanted, &mut result),
    }
    Ok(result)
}

} // verus!
