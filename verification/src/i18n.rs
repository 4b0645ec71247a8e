//! Which language the window is speaking, and the three ways a string is used: as it stands,
//! with its slots filled, and in the wording a count asks for.

use crate::search;
use crate::strings::{Language, COUNT};
use crate::text;
use crate::text::{
    begins_with, chars_of, has_text, owned, same_text, signed_decimal_text, string_of, concat2,
};
use vstd::prelude::*;

verus! {

/// The languages that ship, and which of them is spoken. The first is also the fallback.
pub struct Catalog {
    pub languages: Vec<Language>,
    pub active: usize,
}

impl Catalog {
    /// Some language is spoken, and every table is complete.
    pub open spec fn wf(self) -> bool {
        &&& self.active < self.languages@.len()
        &&& forall|i: int| 0 <= i < self.languages@.len() ==> (#[trigger] self.languages@[i]).wf()
    }
}

/// Every language that ships, in the order the settings page offers them.
pub fn languages(catalog: &Catalog) -> (r: &Vec<Language>)
    ensures
        *r == catalog.languages,
{
    &catalog.languages
}

/// The language the window is speaking.
pub fn active(catalog: &Catalog) -> (r: &Language)
    requires
        catalog.wf(),
    ensures
        *r == catalog.languages@[catalog.active as int],
        r.wf(),
{
    &catalog.languages[catalog.active]
}

/// One string, in the language given.
pub fn text(language: &Language, key: usize) -> (r: &str)
    requires
        language.wf(),
        key < COUNT,
    ensures
        r@ == language.says(key as int),
{
    language.strings[key].as_str()
}

/// Whether a character is one of the ten ASCII digits.
pub open spec fn is_digit(c: char) -> bool {
    '0' <= c && c <= '9'
}

/// Where the digits that begin at `at` end.
pub open spec fn digits_end(template: Seq<char>, at: int) -> int
    decreases template.len() - at,
{
    if 0 <= at < template.len() && is_digit(template[at]) {
        digits_end(template, at + 1)
    } else {
        at
    }
}

/// The number a run of digits writes.
pub open spec fn numeral(digits: Seq<char>) -> nat
    decreases digits.len(),
{
    if digits.len() == 0 {
        0
    } else {
        (numeral(digits.drop_last()) * 10 + (digits.last() as int - '0' as int)) as nat
    }
}

/// A slot stands at `at`: an opening brace, at least one digit, a closing brace.
pub open spec fn is_slot(template: Seq<char>, at: int) -> bool {
    let end = digits_end(template, at + 1);
    template[at] == '{' && end > at + 1 && end < template.len() && template[end] == '}'
}

/// The number in the slot at `at`.
pub open spec fn slot_number(template: Seq<char>, at: int) -> nat {
    numeral(template.subrange(at + 1, digits_end(template, at + 1)))
}

/// The digits end at or after where they begin, and not past the template.
pub proof fn lemma_digits_end(template: Seq<char>, at: int)
    requires
        0 <= at <= template.len(),
    ensures
        at <= digits_end(template, at) <= template.len(),
    decreases template.len() - at,
{
    if at < template.len() && is_digit(template[at]) {
        lemma_digits_end(template, at + 1);
    }
}

/// The template from `at` on with its slots filled. A slot with no argument stays as it was
/// written.
pub open spec fn filled_from(template: Seq<char>, arguments: Seq<Seq<char>>, at: int) -> Seq<char>
    decreases template.len() - at,
{
    if !(0 <= at < template.len()) {
        Seq::empty()
    } else if is_slot(template, at) {
        let end = digits_end(template, at + 1);
        let number = slot_number(template, at);
        let put = if number < arguments.len() {
            arguments[number as int]
        } else {
            template.subrange(at, end + 1)
        };
        put + filled_from(template, arguments, end + 1)
    } else {
        seq![template[at]] + filled_from(template, arguments, at + 1)
    }
}

/// The template with its `{0}`, `{1}` … slots filled.
pub open spec fn filled(template: Seq<char>, arguments: Seq<Seq<char>>) -> Seq<char> {
    filled_from(template, arguments, 0)
}

/// A template filled with no arguments is the template: a slot without its argument is left
/// visible.
pub proof fn law_unfilled_slots_stay_visible(template: Seq<char>)
    ensures
        filled(template, Seq::empty()) == template,
{
    lemma_unfilled_from(template, 0);
    assert(template.skip(0) =~= template);
}

proof fn lemma_unfilled_from(template: Seq<char>, at: int)
    requires
        0 <= at <= template.len(),
    ensures
        filled_from(template, Seq::empty(), at) == template.skip(at),
    decreases template.len() - at,
{
    if at < template.len() {
        if is_slot(template, at) {
            lemma_digits_end(template, at + 1);
            let end = digits_end(template, at + 1);
            lemma_unfilled_from(template, end + 1);
            assert(template.subrange(at, end + 1) + template.skip(end + 1) =~= template.skip(at));
        } else {
            lemma_unfilled_from(template, at + 1);
            assert(seq![template[at]] + template.skip(at + 1) =~= template.skip(at));
        }
    } else {
        assert(template.skip(at) =~= Seq::empty());
    }
}

/// A template with no slot in it is said as it stands, whatever the arguments. Braces that hold no
/// number, or that are never closed, are no slot.
pub proof fn law_text_without_slots_is_left_alone(template: Seq<char>, arguments: Seq<Seq<char>>)
    requires
        forall|at: int| 0 <= at < template.len() ==> !(#[trigger] is_slot(template, at)),
    ensures
        filled(template, arguments) == template,
{
    lemma_plain_from(template, arguments, 0);
    assert(template.skip(0) =~= template);
}

proof fn lemma_plain_from(template: Seq<char>, arguments: Seq<Seq<char>>, at: int)
    requires
        forall|k: int| 0 <= k < template.len() ==> !(#[trigger] is_slot(template, k)),
        0 <= at <= template.len(),
    ensures
        filled_from(template, arguments, at) == template.skip(at),
    decreases template.len() - at,
{
    if at < template.len() {
        lemma_plain_from(template, arguments, at + 1);
        assert(seq![template[at]] + template.skip(at + 1) =~= template.skip(at));
    } else {
        assert(template.skip(at) =~= Seq::empty());
    }
}

/// Where the digits that begin at `at` end.
fn end_of_digits(template: &Vec<char>, at: usize) -> (r: usize)
    requires
        at <= template@.len(),
    ensures
        r == digits_end(template@, at as int),
        at <= r <= template@.len(),
{
    let mut end: usize = at;
    while end < template.len() && '0' <= template[end] && template[end] <= '9'
        invariant
            at <= end <= template@.len(),
            digits_end(template@, at as int) == digits_end(template@, end as int),
        decreases template@.len() - end,
    {
        end = end + 1;
    }
    end
}

/// The number one digit stands for.
fn digit_value(c: char) -> (r: usize)
    requires
        is_digit(c),
    ensures
        r == c as int - '0' as int,
{
    (c as u32 - '0' as u32) as usize
}

/// The number a run of digits writes, unless it is at least `limit`.
fn number_below(template: &Vec<char>, from: usize, to: usize, limit: usize) -> (r: Option<usize>)
    requires
        from <= to <= template@.len(),
        forall|k: int| from <= k < to ==> is_digit(#[trigger] template@[k]),
    ensures
        match r {
            Some(n) => n < limit && n == numeral(template@.subrange(from as int, to as int)),
            None => numeral(template@.subrange(from as int, to as int)) >= limit,
        },
{
    let ghost digits = template@.subrange(from as int, to as int);
    let mut n: usize = 0;
    let mut i: usize = from;
    while i < to
        invariant
            from <= i <= to <= template@.len(),
            digits == template@.subrange(from as int, to as int),
            forall|k: int| from <= k < to ==> is_digit(#[trigger] template@[k]),
            n == numeral(digits.take(i - from)),
        decreases to - i,
    {
        let d: usize = digit_value(template[i]);
        proof {
            assert(digits.take(i - from + 1).drop_last() =~= digits.take(i - from));
            assert(digits.take(i - from + 1).last() == template@[i as int]);
            assert(numeral(digits.take(i - from + 1)) == n * 10 + d);
        }
        if n > (usize::MAX - d) / 10 {
            proof {
                assert(n * 10 + d > usize::MAX) by (nonlinear_arith)
                    requires
                        n > (usize::MAX - d) / 10,
                        d <= 9,
                ;
                lemma_numeral_grows(digits, i - from + 1);
            }
            return None;
        }
        n = n * 10 + d;
        i = i + 1;
    }
    proof {
        assert(digits.take(to - from) =~= digits);
    }
    if n < limit {
        Some(n)
    } else {
        None
    }
}

/// A longer run of digits writes a number at least as large.
proof fn lemma_numeral_grows(digits: Seq<char>, n: int)
    requires
        0 <= n <= digits.len(),
        forall|k: int| 0 <= k < digits.len() ==> is_digit(#[trigger] digits[k]),
    ensures
        numeral(digits.take(n)) <= numeral(digits),
    decreases digits.len(),
{
    if n == digits.len() {
        assert(digits.take(n) =~= digits);
    } else {
        let front = digits.drop_last();
        assert forall|k: int| 0 <= k < front.len() implies is_digit(#[trigger] front[k]) by {
            assert(front[k] == digits[k]);
        }
        lemma_numeral_grows(front, n);
        assert(front.take(n) =~= digits.take(n));
        assert(is_digit(digits[digits.len() - 1]));
    }
}

/// Every character of a run of digits is one.
proof fn lemma_run_is_digits(template: Seq<char>, at: int)
    requires
        0 <= at <= template.len(),
    ensures
        forall|k: int| at <= k < digits_end(template, at) ==> is_digit(#[trigger] template[k]),
    decreases template.len() - at,
{
    if at < template.len() && is_digit(template[at]) {
        lemma_run_is_digits(template, at + 1);
    }
}

/// Fills the slots of a template.
///
/// A slot with no argument is left as it was written rather than blanked: a visible `{1}` is a
/// bug report, and an empty gap is a mystery.
pub fn substitute(template: &str, arguments: &Vec<String>) -> (r: String)
    ensures
        r@ == filled(template@, text::texts(arguments@)),
{
    let ghost whole = filled(template@, text::texts(arguments@));
    let characters = chars_of(template);
    let mut out = String::new();
    let mut index: usize = 0;
    while index < characters.len()
        invariant
            index <= characters@.len(),
            characters@ == template@,
            whole == out@ + filled_from(template@, text::texts(arguments@), index as int),
        decreases characters@.len() - index,
    {
        let ghost before = out@;
        let ghost rest = filled_from(template@, text::texts(arguments@), index as int);
        if characters[index] == '{' {
            let end: usize = end_of_digits(&characters, index + 1);
            if end > index + 1 && end < characters.len() && characters[end] == '}' {
                proof {
                    lemma_run_is_digits(template@, index + 1);
                }
                match number_below(&characters, index + 1, end, arguments.len()) {
                    Some(slot) => {
                        out.append(arguments[slot].as_str());
                    },
                    None => {
                        out.append(string_of(&characters, index, end + 1).as_str());
                    },
                }
                index = end + 1;
                proof {
                    let after = filled_from(template@, text::texts(arguments@), index as int);
                    assert(before + rest =~= out@ + after);
                }
                continue;
            }
        }
        out.push(characters[index]);
        index = index + 1;
        proof {
            let after = filled_from(template@, text::texts(arguments@), index as int);
            assert(before + rest =~= out@ + after);
        }
    }
    proof {
        assert(out@ =~= whole);
    }
    out
}

/// Fills the slots of one string.
pub fn format(language: &Language, key: usize, arguments: &Vec<String>) -> (r: String)
    requires
        language.wf(),
        key < COUNT,
    ensures
        r@ == filled(language.says(key as int), text::texts(arguments@)),
{
    substitute(text(language, key), arguments)
}

/// The string with its one slot filled.
pub open spec fn said1(language: Language, key: int, a: Seq<char>) -> Seq<char> {
    filled(language.says(key), seq![a])
}

/// The string with its two slots filled.
pub open spec fn said2(language: Language, key: int, a: Seq<char>, b: Seq<char>) -> Seq<char> {
    filled(language.says(key), seq![a, b])
}

/// The string with its three slots filled.
pub open spec fn said3(
    language: Language,
    key: int,
    a: Seq<char>,
    b: Seq<char>,
    c: Seq<char>,
) -> Seq<char> {
    filled(language.says(key), seq![a, b, c])
}

/// The string with its four slots filled.
pub open spec fn said4(
    language: Language,
    key: int,
    a: Seq<char>,
    b: Seq<char>,
    c: Seq<char>,
    d: Seq<char>,
) -> Seq<char> {
    filled(language.says(key), seq![a, b, c, d])
}

/// The wording a count asks for, with the count in it.
pub open spec fn counted(language: Language, one: int, other: int, count: int) -> Seq<char> {
    said1(
        language,
        if count == 1 {
            one
        } else {
            other
        },
        text::signed_decimal(count),
    )
}

/// Fills the one slot of a string.
pub fn say1(language: &Language, key: usize, a: &str) -> (r: String)
    requires
        language.wf(),
        key < COUNT,
    ensures
        r@ == said1(*language, key as int, a@),
{
    let mut arguments: Vec<String> = Vec::new();
    arguments.push(owned(a));
    proof {
        assert(text::texts(arguments@) =~= seq![a@]);
    }
    format(language, key, &arguments)
}

/// Fills the two slots of a string.
pub fn say2(language: &Language, key: usize, a: &str, b: &str) -> (r: String)
    requires
        language.wf(),
        key < COUNT,
    ensures
        r@ == said2(*language, key as int, a@, b@),
{
    let mut arguments: Vec<String> = Vec::new();
    arguments.push(owned(a));
    arguments.push(owned(b));
    proof {
        assert(text::texts(arguments@) =~= seq![a@, b@]);
    }
    format(language, key, &arguments)
}

/// Fills the three slots of a string.
pub fn say3(language: &Language, key: usize, a: &str, b: &str, c: &str) -> (r: String)
    requires
        language.wf(),
        key < COUNT,
    ensures
        r@ == said3(*language, key as int, a@, b@, c@),
{
    let mut arguments: Vec<String> = Vec::new();
    arguments.push(owned(a));
    arguments.push(owned(b));
    arguments.push(owned(c));
    proof {
        assert(text::texts(arguments@) =~= seq![a@, b@, c@]);
    }
    format(language, key, &arguments)
}

/// Fills the four slots of a string.
pub fn say4(language: &Language, key: usize, a: &str, b: &str, c: &str, d: &str) -> (r: String)
    requires
        language.wf(),
        key < COUNT,
    ensures
        r@ == said4(*language, key as int, a@, b@, c@, d@),
{
    let mut arguments: Vec<String> = Vec::new();
    arguments.push(owned(a));
    arguments.push(owned(b));
    arguments.push(owned(c));
    arguments.push(owned(d));
    proof {
        assert(text::texts(arguments@) =~= seq![a@, b@, c@, d@]);
    }
    format(language, key, &arguments)
}

/// Picks the singular or plural wording and fills in the count.
///
/// Languages without a plural distinction simply carry the same text twice.
pub fn plural(language: &Language, one: usize, other: usize, count: i64) -> (r: String)
    requires
        language.wf(),
        one < COUNT,
        other < COUNT,
    ensures
        r@ == counted(*language, one as int, other as int, count as int),
{
    let key: usize = if count == 1 {
        one
    } else {
        other
    };
    say1(language, key, signed_decimal_text(count as i128).as_str())
}

/// What `str::to_lowercase` makes of a text.
pub uninterp spec fn lowercase(text: Seq<char>) -> Seq<char>;

/// `str::to_lowercase`: the lowercase equivalent of the text, a function of the text alone.
#[verifier::external_body]
pub(crate) fn to_lowercase(text: &str) -> (r: String)
    ensures
        r@ == lowercase(text@),
{
    text.to_lowercase()
}

/// The lowercase of each text.
pub open spec fn lowered(tags: Seq<Seq<char>>) -> Seq<Seq<char>> {
    Seq::new(tags.len(), |i: int| lowercase(tags[i]))
}

/// The part of a tag before its first hyphen.
pub open spec fn primary_end(tag: Seq<char>, at: int) -> int
    decreases tag.len() - at,
{
    if 0 <= at < tag.len() && tag[at] != '-' {
        primary_end(tag, at + 1)
    } else {
        at
    }
}

/// The part of a tag before its first hyphen.
pub open spec fn primary(tag: Seq<char>) -> Seq<char> {
    tag.take(primary_end(tag, 0))
}

/// A Chinese tag that names the traditional script, or a region that writes it.
pub open spec fn is_traditional(wanted: Seq<char>) -> bool {
    ||| text::occurs(wanted, "hant"@)
    ||| text::occurs(wanted, "tw"@)
    ||| text::occurs(wanted, "hk"@)
    ||| text::occurs(wanted, "mo"@)
}

/// The text at an index is `tag`.
pub open spec fn tag_is(tags: Seq<Seq<char>>, tag: Seq<char>) -> spec_fn(int) -> bool {
    |i: int| tags[i] == tag
}

/// The first tag equal to `tag`.
pub open spec fn index_of_tag(tags: Seq<Seq<char>>, tag: Seq<char>) -> Option<int> {
    search::first(tags.len(), tag_is(tags, tag))
}

/// The first tag that `wanted` refines: `zh-Hant` for `zh-hant-tw`.
pub open spec fn index_of_region(low: Seq<Seq<char>>, wanted: Seq<char>) -> Option<int> {
    search::first(low.len(), |i: int| (low[i] + "-"@).is_prefix_of(wanted))
}

/// The best table for a wanted tag, from the most specific match to the least: the tag itself; a
/// region under a tag that ships; Chinese by its region; the primary subtag alone.
///
/// `tags` are the tags that ship, `low` their lowercase, `wanted` the lowercase of what is asked
/// for.
pub open spec fn matched(
    tags: Seq<Seq<char>>,
    low: Seq<Seq<char>>,
    wanted: Seq<char>,
) -> Option<int> {
    if index_of_tag(low, wanted) is Some {
        index_of_tag(low, wanted)
    } else if index_of_region(low, wanted) is Some {
        index_of_region(low, wanted)
    } else if "zh"@.is_prefix_of(wanted) {
        index_of_tag(
            tags,
            if is_traditional(wanted) {
                "zh-Hant"@
            } else {
                "zh-Hans"@
            },
        )
    } else {
        index_of_tag(low, primary(wanted))
    }
}

/// The tags of the languages.
pub open spec fn tags_of(languages: Seq<Language>) -> Seq<Seq<char>> {
    Seq::new(languages.len(), |i: int| languages[i].tag@)
}

/// The index of the first text equal to `tag`.
fn find_text(tags: &Vec<String>, tag: &str) -> (r: Option<usize>)
    ensures
        search::place(r) == index_of_tag(text::texts(tags@), tag@),
{
    let ghost holds = tag_is(text::texts(tags@), tag@);
    let mut i: usize = 0;
    while i < tags.len()
        invariant
            i <= tags@.len(),
            holds == tag_is(text::texts(tags@), tag@),
            forall|k: int| 0 <= k < i ==> !(#[trigger] holds(k)),
        decreases tags@.len() - i,
    {
        if same_text(tags[i].as_str(), tag) {
            proof {
                search::lemma_found(i as int, text::texts(tags@).len(), holds);
            }
            return Some(i);
        }
        i = i + 1;
    }
    proof {
        search::lemma_absent(text::texts(tags@).len(), holds);
    }
    None
}

/// The index of the first tag that `wanted` refines.
fn find_region(low: &Vec<String>, wanted: &str) -> (r: Option<usize>)
    ensures
        search::place(r) == index_of_region(text::texts(low@), wanted@),
{
    let ghost holds = |i: int| (text::texts(low@)[i] + "-"@).is_prefix_of(wanted@);
    let mut i: usize = 0;
    while i < low.len()
        invariant
            i <= low@.len(),
            holds == (|i: int| (text::texts(low@)[i] + "-"@).is_prefix_of(wanted@)),
            forall|k: int| 0 <= k < i ==> !(#[trigger] holds(k)),
        decreases low@.len() - i,
    {
        if begins_with(wanted, concat2(low[i].as_str(), "-").as_str()) {
            proof {
                search::lemma_found(i as int, text::texts(low@).len(), holds);
            }
            return Some(i);
        }
        i = i + 1;
    }
    proof {
        search::lemma_absent(text::texts(low@).len(), holds);
    }
    None
}

/// The part of a tag before its first hyphen.
fn primary_of(tag: &str) -> (r: String)
    ensures
        r@ == primary(tag@),
{
    let chars = chars_of(tag);
    let mut end: usize = 0;
    while end < chars.len() && chars[end] != '-'
        invariant
            end <= chars@.len(),
            chars@ == tag@,
            primary_end(tag@, 0) == primary_end(tag@, end as int),
        decreases chars@.len() - end,
    {
        end = end + 1;
    }
    proof {
        assert(chars@.subrange(0, end as int) =~= tag@.take(end as int));
    }
    string_of(&chars, 0, end)
}

/// Matches a lowercase tag against what ships, from most specific to least.
pub fn match_lowered(tags: &Vec<String>, low: &Vec<String>, wanted: &str) -> (r: Option<usize>)
    ensures
        search::place(r) == matched(text::texts(tags@), text::texts(low@), wanted@),
{
    if let Some(index) = find_text(low, wanted) {
        return Some(index);
    }
    if let Some(index) = find_region(low, wanted) {
        return Some(index);
    }
    // Chinese without a script: the region decides. Traditional is used in Taiwan, Hong Kong and
    // Macau; everywhere else defaults to Simplified.
    if begins_with(wanted, "zh") {
        let traditional = has_text(wanted, "hant") || has_text(wanted, "tw") || has_text(
            wanted,
            "hk",
        ) || has_text(wanted, "mo");
        return find_text(
            tags,
            if traditional {
                "zh-Hant"
            } else {
                "zh-Hans"
            },
        );
    }
    find_text(low, primary_of(wanted).as_str())
}

/// Matches a BCP-47 tag against what ships, from most specific to least.
pub fn best_match(languages: &Vec<Language>, wanted: &str) -> (r: Option<usize>)
    ensures
        search::place(r) == matched(
            tags_of(languages@),
            lowered(tags_of(languages@)),
            lowercase(wanted@),
        ),
        r is Some ==> r->0 < languages@.len(),
{
    let mut tags: Vec<String> = Vec::new();
    let mut low: Vec<String> = Vec::new();
    let mut i: usize = 0;
    while i < languages.len()
        invariant
            i <= languages@.len(),
            text::texts(tags@) == tags_of(languages@).take(i as int),
            text::texts(low@) == lowered(tags_of(languages@)).take(i as int),
        decreases languages@.len() - i,
    {
        let tag = languages[i].tag.clone();
        let lower = to_lowercase(tag.as_str());
        proof {
            text::lemma_texts_push(tags@, tag);
            text::lemma_texts_push(low@, lower);
            assert(tags_of(languages@).take(i + 1) =~= tags_of(languages@).take(i as int).push(
                tag@,
            ));
            assert(lowered(tags_of(languages@)).take(i + 1) =~= lowered(
                tags_of(languages@),
            ).take(i as int).push(lower@));
        }
        tags.push(tag);
        low.push(lower);
        i = i + 1;
    }
    proof {
        assert(tags_of(languages@).take(languages@.len() as int) =~= tags_of(languages@));
        assert(lowered(tags_of(languages@)).take(languages@.len() as int) =~= lowered(
            tags_of(languages@),
        ));
        lemma_matched_in_range(
            tags_of(languages@),
            lowered(tags_of(languages@)),
            lowercase(wanted@),
        );
    }
    match_lowered(&tags, &low, to_lowercase(wanted).as_str())
}

/// A match is one of the languages.
pub proof fn lemma_matched_in_range(
    tags: Seq<Seq<char>>,
    low: Seq<Seq<char>>,
    wanted: Seq<char>,
)
    requires
        tags.len() == low.len(),
    ensures
        matched(tags, low, wanted) matches Some(i) ==> 0 <= i < tags.len(),
{
    let script = if is_traditional(wanted) {
        "zh-Hant"@
    } else {
        "zh-Hans"@
    };
    lemma_index_of_tag(low, wanted);
    lemma_index_of_tag(tags, script);
    lemma_index_of_tag(low, primary(wanted));
    search::lemma_first(low.len(), |i: int| (low[i] + "-"@).is_prefix_of(wanted));
}

/// What a search for a tag finds.
pub proof fn lemma_index_of_tag(tags: Seq<Seq<char>>, tag: Seq<char>)
    ensures
        match index_of_tag(tags, tag) {
            Some(at) => 0 <= at < tags.len() && tags[at] == tag && forall|k: int|
                0 <= k < at ==> #[trigger] tags[k] != tag,
            None => forall|k: int| 0 <= k < tags.len() ==> #[trigger] tags[k] != tag,
        },
{
    let holds = tag_is(tags, tag);
    search::lemma_first(tags.len(), holds);
    let end = match search::first(tags.len(), holds) {
        Some(at) => at,
        None => tags.len() as int,
    };
    assert forall|k: int| 0 <= k < end implies #[trigger] tags[k] != tag by {
        assert(!holds(k));
    }
}

/// Every shipped language is reachable by its own tag.
pub proof fn law_every_language_is_reachable_by_its_own_tag(tags: Seq<Seq<char>>, at: int)
    requires
        0 <= at < tags.len(),
        forall|i: int, j: int|
            0 <= i < j < tags.len() ==> lowered(tags)[i] != lowered(tags)[j],
    ensures
        matched(tags, lowered(tags), lowercase(tags[at])) == Some(at),
{
    let low = lowered(tags);
    lemma_index_of_tag(low, lowercase(tags[at]));
    assert(low[at] == lowercase(tags[at]));
}

/// Casing does not matter: however a shipped tag is spelled, it finds its language.
pub proof fn law_a_tag_is_found_in_any_casing(tags: Seq<Seq<char>>, at: int, wanted: Seq<char>)
    requires
        0 <= at < tags.len(),
        lowercase(wanted) == lowercase(tags[at]),
        forall|i: int, j: int|
            0 <= i < j < tags.len() ==> lowered(tags)[i] != lowered(tags)[j],
    ensures
        matched(tags, lowered(tags), lowercase(wanted)) == Some(at),
{
    law_every_language_is_reachable_by_its_own_tag(tags, at);
}

/// The index of the language with exactly this tag.
pub fn tag_index(languages: &Vec<Language>, tag: &str) -> (r: Option<usize>)
    ensures
        search::place(r) == index_of_tag(tags_of(languages@), tag@),
{
    let ghost holds = tag_is(tags_of(languages@), tag@);
    let mut i: usize = 0;
    while i < languages.len()
        invariant
            i <= languages@.len(),
            holds == tag_is(tags_of(languages@), tag@),
            forall|k: int| 0 <= k < i ==> !(#[trigger] holds(k)),
        decreases languages@.len() - i,
    {
        if same_text(languages[i].tag.as_str(), tag) {
            proof {
                search::lemma_found(i as int, languages@.len(), holds);
            }
            return Some(i);
        }
        i = i + 1;
    }
    proof {
        search::lemma_absent(languages@.len(), holds);
    }
    None
}

/// The text of a tag, where there is one.
pub open spec fn tag_text(tag: Option<&str>) -> Option<Seq<char>> {
    match tag {
        Some(t) => Some(t@),
        None => None,
    }
}

/// The index of the best table: for the tag asked for, else for the system's, else the first. An
/// empty tag asks for nothing.
pub open spec fn chosen(
    languages: Seq<Language>,
    tag: Option<Seq<char>>,
    system: Option<Seq<char>>,
) -> int {
    let wanted = if tag is Some && tag->0.len() > 0 {
        tag
    } else {
        system
    };
    match wanted {
        Some(w) => match matched(tags_of(languages), lowered(tags_of(languages)), lowercase(w)) {
            Some(i) => i,
            None => 0,
        },
        None => 0,
    }
}

/// The index of the best table for `tag`, or for the system when nothing is asked for.
pub fn choose_language(
    languages: &Vec<Language>,
    tag: Option<&str>,
    system: Option<&str>,
) -> (r: usize)
    ensures
        r == chosen(languages@, tag_text(tag), tag_text(system)),
        languages@.len() > 0 ==> r < languages@.len(),
{
    let wanted = match tag {
        Some(t) => if t.is_empty() {
            system
        } else {
            tag
        },
        None => system,
    };
    match wanted {
        Some(w) => match best_match(languages, w) {
            Some(i) => i,
            None => 0,
        },
        None => 0,
    }
}

/// The catalog after a switch of language: the same tables, with the best one for what was asked
/// for spoken.
pub open spec fn is_switched(
    before: Catalog,
    tag: Option<Seq<char>>,
    system: Option<Seq<char>>,
    after: Catalog,
) -> bool {
    &&& after.languages == before.languages
    &&& after.active == chosen(before.languages@, tag, system)
}

/// Switching to the same language again changes nothing.
pub proof fn law_switching_twice_changes_nothing(
    before: Catalog,
    tag: Option<Seq<char>>,
    system: Option<Seq<char>>,
    once: Catalog,
    twice: Catalog,
)
    requires
        is_switched(before, tag, system, once),
        is_switched(once, tag, system, twice),
    ensures
        twice == once,
{
}

/// An empty tag asks for nothing: it is followed as if none had been given.
pub proof fn law_an_empty_tag_is_none(
    before: Catalog,
    system: Option<Seq<char>>,
    empty: Catalog,
    none: Catalog,
)
    requires
        is_switched(before, Some(Seq::empty()), system, empty),
        is_switched(before, None, system, none),
    ensures
        empty == none,
{
}

/// Where no two languages share a tag, another language is another tag: what says that the
/// language changed says that its tag did.
pub proof fn law_another_language_is_another_tag(
    before: Catalog,
    tag: Option<Seq<char>>,
    system: Option<Seq<char>>,
    after: Catalog,
)
    requires
        before.wf(),
        after.wf(),
        is_switched(before, tag, system, after),
        tags_of(before.languages@).no_duplicates(),
    ensures
        (after.active != before.active) == (after.languages@[after.active as int].tag@
            != before.languages@[before.active as int].tag@),
{
    let tags = tags_of(before.languages@);
    assert(tags[after.active as int] == after.languages@[after.active as int].tag@);
    assert(tags[before.active as int] == before.languages@[before.active as int].tag@);
}

/// Switches language. `None` means "whatever the system is set to".
///
/// Returns true when the active language actually changed, which is the caller's cue to redraw
/// every window.
pub fn set_language(catalog: &mut Catalog, tag: Option<&str>, system: Option<&str>) -> (r: bool)
    requires
        old(catalog).wf(),
    ensures
        final(catalog).wf(),
        is_switched(*old(catalog), tag_text(tag), tag_text(system), *final(catalog)),
        r == (final(catalog).active != old(catalog).active),
{
    let chosen: usize = choose_language(&catalog.languages, tag, system);
    let changed = catalog.active != chosen;
    catalog.active = chosen;
    changed
}

/// Where a locale's name ends: before its encoding or its modifier.
pub open spec fn locale_end(value: Seq<char>, at: int) -> int
    decreases value.len() - at,
{
    if 0 <= at < value.len() && value[at] != '.' && value[at] != '@' {
        locale_end(value, at + 1)
    } else {
        at
    }
}

/// The tag a POSIX locale such as `zh_TW.UTF-8` names: what stands before the encoding, with
/// hyphens for underscores.
pub fn tag_of_locale(value: &str) -> (r: String)
    ensures
        r@.len() == locale_end(value@, 0),
        forall|i: int|
            0 <= i < r@.len() ==> #[trigger] r@[i] == if value@[i] == '_' {
                '-'
            } else {
                value@[i]
            },
{
    let chars = chars_of(value);
    let mut out = String::new();
    let mut end: usize = 0;
    while end < chars.len() && chars[end] != '.' && chars[end] != '@'
        invariant
            end <= chars@.len(),
            chars@ == value@,
            locale_end(value@, 0) == locale_end(value@, end as int),
            out@.len() == end,
            forall|i: int|
                0 <= i < end ==> #[trigger] out@[i] == if value@[i] == '_' {
                    '-'
                } else {
                    value@[i]
                },
        decreases chars@.len() - end,
    {
        if chars[end] == '_' {
            out.push('-');
        } else {
            out.push(chars[end]);
        }
        end = end + 1;
    }
    out
}

} // verus!
