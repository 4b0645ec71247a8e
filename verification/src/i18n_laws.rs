//! What filling a template and matching a language mean, in terms of what goes in.

use crate::i18n;
use crate::search;
use crate::strings::Language;
use crate::text;
use crate::text_laws;
use vstd::prelude::*;

verus! {

/// A run of digits is worth what it reads as.
pub proof fn lemma_numeral_is_worth(digits: Seq<char>)
    requires
        forall|i: int| 0 <= i < digits.len() ==> '0' <= #[trigger] digits[i] <= '9',
    ensures
        i18n::numeral(digits) == text_laws::worth(digits),
        text_laws::worth(digits) >= 0,
    decreases digits.len(),
{
    if digits.len() > 0 {
        assert forall|i: int| 0 <= i < digits.drop_last().len() implies '0'
            <= #[trigger] digits.drop_last()[i] <= '9' by {
            assert(digits[i] == digits.drop_last()[i]);
        }
        lemma_numeral_is_worth(digits.drop_last());
        assert('0' <= digits[digits.len() - 1] <= '9');
    }
}

/// Where digits end does not depend on what stands before them.
proof fn lemma_digits_end_shift(front: Seq<char>, rest: Seq<char>, at: int)
    requires
        0 <= at <= rest.len(),
    ensures
        i18n::digits_end(front + rest, front.len() + at) == front.len() + i18n::digits_end(
            rest,
            at,
        ),
    decreases rest.len() - at,
{
    if at < rest.len() {
        assert((front + rest)[front.len() + at] == rest[at]);
        if i18n::is_digit(rest[at]) {
            lemma_digits_end_shift(front, rest, at + 1);
        }
    }
}

/// What is filled does not depend on what stands before it.
proof fn lemma_filled_shift(
    front: Seq<char>,
    rest: Seq<char>,
    arguments: Seq<Seq<char>>,
    at: int,
)
    requires
        0 <= at <= rest.len(),
    ensures
        i18n::filled_from(front + rest, arguments, front.len() + at) == i18n::filled_from(
            rest,
            arguments,
            at,
        ),
    decreases rest.len() - at,
{
    let whole = front + rest;
    let here = front.len() + at;
    if at < rest.len() {
        assert(whole[here] == rest[at]);
        lemma_digits_end_shift(front, rest, at + 1);
        i18n::lemma_digits_end(rest, at + 1);
        let end = i18n::digits_end(rest, at + 1);
        if end < rest.len() {
            assert(whole[front.len() + end] == rest[end]);
        }
        assert(i18n::is_slot(whole, here) == i18n::is_slot(rest, at));
        if i18n::is_slot(rest, at) {
            lemma_filled_shift(front, rest, arguments, end + 1);
            assert(whole.subrange(here + 1, front.len() + end) =~= rest.subrange(at + 1, end));
            assert(whole.subrange(here, front.len() + end + 1) =~= rest.subrange(at, end + 1));
        } else {
            lemma_filled_shift(front, rest, arguments, at + 1);
        }
    }
}

/// Text before the first brace is said as it stands, and what follows is filled on its own.
proof fn lemma_filled_front(front: Seq<char>, rest: Seq<char>, arguments: Seq<Seq<char>>, at: int)
    requires
        !front.contains('{'),
        0 <= at <= front.len(),
    ensures
        i18n::filled_from(front + rest, arguments, at) == front.skip(at) + i18n::filled(
            rest,
            arguments,
        ),
    decreases front.len() - at,
{
    let whole = front + rest;
    if at < front.len() {
        assert(front.contains(front[at]));
        assert(whole[at] == front[at]);
        lemma_filled_front(front, rest, arguments, at + 1);
        assert(i18n::filled_from(whole, arguments, at) =~= front.skip(at) + i18n::filled(
            rest,
            arguments,
        ));
    } else {
        lemma_filled_shift(front, rest, arguments, 0);
        assert(front.skip(at) =~= Seq::empty());
        assert(i18n::filled_from(whole, arguments, at) =~= front.skip(at) + i18n::filled(
            rest,
            arguments,
        ));
    }
}

/// Where a run of digits ends.
proof fn lemma_run_ends(template: Seq<char>, at: int, end: int)
    requires
        0 <= at <= end < template.len(),
        forall|i: int| at <= i < end ==> '0' <= #[trigger] template[i] <= '9',
        template[end] == '}',
    ensures
        i18n::digits_end(template, at) == end,
    decreases end - at,
{
    if at < end {
        assert('0' <= template[at] <= '9');
        lemma_run_ends(template, at + 1, end);
    }
}

/// A slot gives way to the argument of its number, counted from zero; one that has no argument
/// stays as it was written. What stands before the first brace is said as it stands, and what
/// follows the slot is filled in the same way.
pub proof fn law_a_slot_gives_way_to_its_argument(
    front: Seq<char>,
    digits: Seq<char>,
    rest: Seq<char>,
    arguments: Seq<Seq<char>>,
)
    requires
        !front.contains('{'),
        digits.len() > 0,
        forall|i: int| 0 <= i < digits.len() ==> '0' <= #[trigger] digits[i] <= '9',
    ensures
        ({
            let slot = seq!['{'] + digits + seq!['}'];
            let number = text_laws::worth(digits);
            i18n::filled(front + (slot + rest), arguments) == front + (if number < arguments.len() {
                arguments[number]
            } else {
                slot
            }) + i18n::filled(rest, arguments)
        }),
{
    let slot = seq!['{'] + digits + seq!['}'];
    let tail = slot + rest;
    let end: int = digits.len() + 1int;
    lemma_numeral_is_worth(digits);
    lemma_filled_front(front, tail, arguments, 0);
    assert(front.skip(0) =~= front);
    assert forall|i: int| 1 <= i < end implies '0' <= #[trigger] tail[i] <= '9' by {
        assert(tail[i] == digits[i - 1]);
    }
    assert(tail[0] == '{');
    assert(tail[end] == '}');
    lemma_run_ends(tail, 1, end);
    assert(i18n::is_slot(tail, 0));
    assert(tail.subrange(1, end) =~= digits);
    assert(tail.subrange(0, end + 1) =~= slot);
    lemma_filled_shift(slot, rest, arguments, 0);
    let put = if text_laws::worth(digits) < arguments.len() {
        arguments[text_laws::worth(digits)]
    } else {
        slot
    };
    assert(i18n::filled(tail, arguments) == put + i18n::filled(rest, arguments));
    assert(front + (put + i18n::filled(rest, arguments)) =~= front + put + i18n::filled(
        rest,
        arguments,
    ));
}

/// What is said is the language's own string under that key, filled with the arguments in order.
pub proof fn law_what_is_said_is_the_languages_own_string(
    language: Language,
    key: int,
    a: Seq<char>,
    b: Seq<char>,
    c: Seq<char>,
    d: Seq<char>,
)
    requires
        0 <= key < language.strings@.len(),
    ensures
        language.says(key) == language.strings@[key]@,
        i18n::said1(language, key, a) == i18n::filled(language.strings@[key]@, seq![a]),
        i18n::said2(language, key, a, b) == i18n::filled(language.strings@[key]@, seq![a, b]),
        i18n::said3(language, key, a, b, c) == i18n::filled(
            language.strings@[key]@,
            seq![a, b, c],
        ),
        i18n::said4(language, key, a, b, c, d) == i18n::filled(
            language.strings@[key]@,
            seq![a, b, c, d],
        ),
{
}

/// One is counted in the singular and every other number in the plural, the number itself filled
/// in.
pub proof fn law_only_one_is_singular(language: Language, one: int, other: int, count: int)
    ensures
        count == 1 ==> i18n::counted(language, one, other, count) == i18n::filled(
            language.says(one),
            seq![text::signed_decimal(1)],
        ),
        count != 1 ==> i18n::counted(language, one, other, count) == i18n::filled(
            language.says(other),
            seq![text::signed_decimal(count)],
        ),
{
}

/// Where the first hyphen stands.
proof fn lemma_primary_end(tag: Seq<char>, at: int)
    requires
        0 <= at <= tag.len(),
    ensures
        at <= i18n::primary_end(tag, at) <= tag.len(),
        i18n::primary_end(tag, at) < tag.len() ==> tag[i18n::primary_end(tag, at)] == '-',
        forall|i: int| at <= i < i18n::primary_end(tag, at) ==> #[trigger] tag[i] != '-',
    decreases tag.len() - at,
{
    if at < tag.len() && tag[at] != '-' {
        lemma_primary_end(tag, at + 1);
    }
}

/// The primary subtag is what stands before the first hyphen, or the whole tag where there is
/// none.
pub proof fn law_the_primary_subtag_ends_at_the_first_hyphen(tag: Seq<char>)
    ensures
        !i18n::primary(tag).contains('-'),
        tag == i18n::primary(tag) || (i18n::primary(tag) + seq!['-']).is_prefix_of(tag),
{
    lemma_primary_end(tag, 0);
    let end = i18n::primary_end(tag, 0);
    let primary = i18n::primary(tag);
    if primary.contains('-') {
        let k = choose|k: int| 0 <= k < primary.len() && primary[k] == '-';
        assert(tag[k] == '-');
    }
    if end < tag.len() {
        assert(tag.subrange(0, end + 1) =~= primary + seq!['-']);
    } else {
        assert(primary =~= tag);
    }
}

/// The tag at an index is the one wanted.
pub open spec fn is_it(low: Seq<Seq<char>>, wanted: Seq<char>, i: int) -> bool {
    0 <= i < low.len() && low[i] == wanted
}

/// What is wanted is a variety of the tag at an index: `zh-hant-tw` of `zh-hant`.
pub open spec fn is_variety_of(low: Seq<Seq<char>>, wanted: Seq<char>, i: int) -> bool {
    0 <= i < low.len() && (low[i] + "-"@).is_prefix_of(wanted)
}

/// The tag itself comes first: where it ships, it is what is found.
pub proof fn law_a_tag_that_ships_is_found(
    tags: Seq<Seq<char>>,
    low: Seq<Seq<char>>,
    wanted: Seq<char>,
    i: int,
)
    requires
        is_it(low, wanted, i),
    ensures
        i18n::matched(tags, low, wanted) matches Some(found) && is_it(low, wanted, found) && found
            <= i,
{
    i18n::lemma_index_of_tag(low, wanted);
}

/// Where the tag itself does not ship, the first that it is a variety of is found.
pub proof fn law_a_variety_finds_what_it_is_a_variety_of(
    tags: Seq<Seq<char>>,
    low: Seq<Seq<char>>,
    wanted: Seq<char>,
    i: int,
)
    requires
        forall|k: int| !(#[trigger] is_it(low, wanted, k)),
        is_variety_of(low, wanted, i),
    ensures
        i18n::matched(tags, low, wanted) matches Some(found) && is_variety_of(low, wanted, found)
            && found <= i,
{
    i18n::lemma_index_of_tag(low, wanted);
    if i18n::index_of_tag(low, wanted) is Some {
        assert(is_it(low, wanted, i18n::index_of_tag(low, wanted)->0));
    }
    let holds = |k: int| (low[k] + "-"@).is_prefix_of(wanted);
    search::lemma_first(low.len(), holds);
    assert(holds(i));
    let found = i18n::index_of_region(low, wanted);
    assert(found is Some);
    assert(holds(found->0));
}

/// Chinese that names neither a tag that ships nor a variety of one goes by script: traditional
/// where the tag names that script, Taiwan, Hong Kong or Macau, simplified otherwise.
pub proof fn law_chinese_goes_by_script(
    tags: Seq<Seq<char>>,
    low: Seq<Seq<char>>,
    wanted: Seq<char>,
)
    requires
        "zh"@.is_prefix_of(wanted),
        forall|k: int| !(#[trigger] is_it(low, wanted, k)),
        forall|k: int| !(#[trigger] is_variety_of(low, wanted, k)),
    ensures
        ({
            let script = if text::occurs(wanted, "hant"@) || text::occurs(wanted, "tw"@)
                || text::occurs(wanted, "hk"@) || text::occurs(wanted, "mo"@) {
                "zh-Hant"@
            } else {
                "zh-Hans"@
            };
            match i18n::matched(tags, low, wanted) {
                Some(found) => 0 <= found < tags.len() && tags[found] == script,
                None => forall|k: int| 0 <= k < tags.len() ==> #[trigger] tags[k] != script,
            }
        }),
{
    lemma_no_direct_match(low, wanted);
    let script = if i18n::is_traditional(wanted) {
        "zh-Hant"@
    } else {
        "zh-Hans"@
    };
    i18n::lemma_index_of_tag(tags, script);
}

/// Anything else goes by its primary subtag alone, and finds nothing where that does not ship.
pub proof fn law_anything_else_goes_by_its_primary_subtag(
    tags: Seq<Seq<char>>,
    low: Seq<Seq<char>>,
    wanted: Seq<char>,
)
    requires
        !"zh"@.is_prefix_of(wanted),
        forall|k: int| !(#[trigger] is_it(low, wanted, k)),
        forall|k: int| !(#[trigger] is_variety_of(low, wanted, k)),
    ensures
        match i18n::matched(tags, low, wanted) {
            Some(found) => 0 <= found < low.len() && low[found] == i18n::primary(wanted),
            None => forall|k: int|
                0 <= k < low.len() ==> #[trigger] low[k] != i18n::primary(wanted),
        },
{
    lemma_no_direct_match(low, wanted);
    i18n::lemma_index_of_tag(low, i18n::primary(wanted));
}

proof fn lemma_no_direct_match(low: Seq<Seq<char>>, wanted: Seq<char>)
    requires
        forall|k: int| !(#[trigger] is_it(low, wanted, k)),
        forall|k: int| !(#[trigger] is_variety_of(low, wanted, k)),
    ensures
        i18n::index_of_tag(low, wanted) is None,
        i18n::index_of_region(low, wanted) is None,
{
    i18n::lemma_index_of_tag(low, wanted);
    if i18n::index_of_tag(low, wanted) is Some {
        assert(is_it(low, wanted, i18n::index_of_tag(low, wanted)->0));
    }
    let holds = |k: int| (low[k] + "-"@).is_prefix_of(wanted);
    search::lemma_first(low.len(), holds);
    if i18n::index_of_region(low, wanted) is Some {
        let found = i18n::index_of_region(low, wanted)->0;
        assert(holds(found));
        assert(is_variety_of(low, wanted, found));
    }
}

/// A tag that was asked for decides alone; without one the system's does; where neither finds a
/// language, the first is spoken.
pub proof fn law_what_is_asked_for_comes_before_the_system(
    languages: Seq<Language>,
    tag: Seq<char>,
    system: Option<Seq<char>>,
    other: Option<Seq<char>>,
)
    requires
        tag.len() > 0,
    ensures
        i18n::chosen(languages, Some(tag), system) == i18n::chosen(languages, Some(tag), other),
        i18n::chosen(languages, Some(tag), system) == match i18n::matched(
            i18n::tags_of(languages),
            i18n::lowered(i18n::tags_of(languages)),
            i18n::lowercase(tag),
        ) {
            Some(found) => found,
            None => 0,
        },
        i18n::chosen(languages, None, Some(tag)) == i18n::chosen(languages, Some(tag), None),
        i18n::chosen(languages, None, None) == 0,
{
}

/// The tags are the languages' own, and lowering lowers each.
pub proof fn law_the_tags_are_the_languages_own(languages: Seq<Language>, i: int)
    requires
        0 <= i < languages.len(),
    ensures
        i18n::tags_of(languages).len() == languages.len(),
        i18n::tags_of(languages)[i] == languages[i].tag@,
        i18n::lowered(i18n::tags_of(languages)).len() == languages.len(),
        i18n::lowered(i18n::tags_of(languages))[i] == i18n::lowercase(languages[i].tag@),
{
}

/// A locale's name ends before its encoding or its modifier, whichever comes first.
pub proof fn law_a_locales_name_ends_before_its_encoding(value: Seq<char>, at: int)
    requires
        0 <= at <= value.len(),
    ensures
        at <= i18n::locale_end(value, at) <= value.len(),
        i18n::locale_end(value, at) < value.len() ==> value[i18n::locale_end(value, at)] == '.'
            || value[i18n::locale_end(value, at)] == '@',
        forall|i: int|
            at <= i < i18n::locale_end(value, at) ==> #[trigger] value[i] != '.' && value[i] != '@',
    decreases value.len() - at,
{
    if at < value.len() && value[at] != '.' && value[at] != '@' {
        law_a_locales_name_ends_before_its_encoding(value, at + 1);
    }
}

} // verus!
