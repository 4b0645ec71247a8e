//! What holds of text, whoever wrote it: numbers read back, joined parts are all there, and what is
//! trimmed is only what may go.

use crate::text;
use vstd::prelude::*;

verus! {

/// The number a run of decimal digits stands for.
pub open spec fn worth(digits: Seq<char>) -> int
    decreases digits.len(),
{
    if digits.len() == 0 {
        0
    } else {
        worth(digits.drop_last()) * 10 + (digits.last() as int - '0' as int)
    }
}

/// A number is written in decimal digits alone, with no zero in front of another digit, and what
/// is written reads back as the number.
pub proof fn law_a_number_reads_back(n: nat)
    ensures
        text::decimal(n).len() > 0,
        forall|i: int|
            0 <= i < text::decimal(n).len() ==> '0' <= #[trigger] text::decimal(n)[i] <= '9',
        text::decimal(n).len() > 1 ==> text::decimal(n)[0] != '0',
        worth(text::decimal(n)) == n,
    decreases n,
{
    let written = text::decimal(n);
    if n < 10 {
        assert(written.drop_last() =~= Seq::empty());
        assert(worth(Seq::<char>::empty()) == 0);
    } else {
        let front = text::decimal(n / 10);
        law_a_number_reads_back(n / 10);
        assert(written.drop_last() =~= front);
        assert forall|i: int| 0 <= i < written.len() implies '0' <= #[trigger] written[i] <= '9' by {
            if i < front.len() {
                assert(written[i] == front[i]);
            }
        }
        assert(written[0] == front[0]);
        if front.len() == 1 && front[0] == '0' {
            assert(front.drop_last() =~= Seq::empty());
            assert(worth(Seq::<char>::empty()) == 0);
            assert(worth(front) == 0);
        }
    }
}

/// A negative number is its size behind a minus sign; any other has no sign.
pub proof fn law_a_sign_is_written_for_a_negative_number_only(n: int)
    ensures
        n < 0 ==> text::signed_decimal(n).len() > 0 && text::signed_decimal(n)[0] == '-' && worth(
            text::signed_decimal(n).skip(1),
        ) == -n,
        n >= 0 ==> worth(text::signed_decimal(n)) == n && text::signed_decimal(n)[0] != '-',
{
    if n < 0 {
        law_a_number_reads_back((-n) as nat);
        assert(text::signed_decimal(n).skip(1) =~= text::decimal((-n) as nat));
    } else {
        law_a_number_reads_back(n as nat);
    }
}

/// Joining: nothing from nothing, one part as it is, and one separator more for every further
/// part, which comes last.
pub proof fn law_joining_puts_one_separator_between_two(
    parts: Seq<Seq<char>>,
    part: Seq<char>,
    separator: Seq<char>,
)
    ensures
        text::joined(Seq::empty(), separator) == Seq::<char>::empty(),
        text::joined(seq![part], separator) == part,
        parts.len() > 0 ==> text::joined(parts.push(part), separator) == text::joined(
            parts,
            separator,
        ) + separator + part,
{
    assert(parts.push(part).drop_last() =~= parts);
}

/// What is left after unwanted characters were taken off the end: the beginning of the text, up to
/// a character that is wanted; everything taken off was unwanted.
pub proof fn law_only_the_unwanted_end_is_taken_off(whole: Seq<char>, unwanted: char)
    ensures
        ({
            let left = text::without_trailing(whole, unwanted);
            &&& left.len() <= whole.len()
            &&& left == whole.take(left.len() as int)
            &&& left.len() > 0 ==> left.last() != unwanted
            &&& forall|i: int| left.len() <= i < whole.len() ==> #[trigger] whole[i] == unwanted
        }),
    decreases whole.len(),
{
    if whole.len() > 0 && whole.last() == unwanted {
        law_only_the_unwanted_end_is_taken_off(whole.drop_last(), unwanted);
        let left = text::without_trailing(whole, unwanted);
        assert(whole.drop_last().take(left.len() as int) =~= whole.take(left.len() as int));
        assert forall|i: int| left.len() <= i < whole.len() implies #[trigger] whole[i]
            == unwanted by {
            if i < whole.len() - 1 {
                assert(whole.drop_last()[i] == unwanted);
            }
        }
    } else {
        assert(whole.take(whole.len() as int) =~= whole);
    }
}

/// What leading white space leaves.
proof fn lemma_leading(whole: Seq<char>)
    ensures
        ({
            let left = text::without_leading_white(whole);
            let from = whole.len() - left.len();
            &&& 0 <= from
            &&& left == whole.skip(from)
            &&& left.len() > 0 ==> !text::is_white(left[0])
            &&& forall|i: int| 0 <= i < from ==> text::is_white(#[trigger] whole[i])
        }),
    decreases whole.len(),
{
    if whole.len() > 0 && text::is_white(whole[0]) {
        lemma_leading(whole.skip(1));
        let left = text::without_leading_white(whole);
        let from = whole.len() - left.len();
        assert(whole.skip(1).skip(from - 1) =~= whole.skip(from));
        assert forall|i: int| 0 <= i < from implies text::is_white(#[trigger] whole[i]) by {
            if i > 0 {
                assert(whole.skip(1)[i - 1] == whole[i]);
            }
        }
    } else {
        assert(whole.skip(0) =~= whole);
    }
}

/// What trailing white space leaves.
proof fn lemma_trailing(whole: Seq<char>)
    ensures
        ({
            let left = text::without_trailing_white(whole);
            &&& left.len() <= whole.len()
            &&& left == whole.take(left.len() as int)
            &&& left.len() > 0 ==> !text::is_white(left.last())
            &&& forall|i: int|
                left.len() <= i < whole.len() ==> text::is_white(#[trigger] whole[i])
        }),
    decreases whole.len(),
{
    if whole.len() > 0 && text::is_white(whole.last()) {
        lemma_trailing(whole.drop_last());
        let left = text::without_trailing_white(whole);
        assert(whole.drop_last().take(left.len() as int) =~= whole.take(left.len() as int));
        assert forall|i: int| left.len() <= i < whole.len() implies text::is_white(
            #[trigger] whole[i],
        ) by {
            if i < whole.len() - 1 {
                assert(whole.drop_last()[i] == whole[i]);
            }
        }
    } else {
        assert(whole.take(whole.len() as int) =~= whole);
    }
}

/// Trimming takes white space off both ends and nothing else: what is left is one piece of the
/// text, begins and ends with something that is not white, and what stood around it was white.
pub proof fn law_trimming_takes_white_space_off_both_ends(whole: Seq<char>)
    ensures
        ({
            let left = text::trimmed(whole);
            &&& left.len() > 0 ==> !text::is_white(left[0]) && !text::is_white(left.last())
            &&& exists|from: int|
                {
                    &&& 0 <= from
                    &&& from + left.len() <= whole.len()
                    &&& left == #[trigger] whole.subrange(from, from + left.len())
                    &&& forall|i: int|
                        (0 <= i < from || from + left.len() <= i < whole.len()) ==> text::is_white(
                            #[trigger] whole[i],
                        )
                }
        }),
{
    let left = text::trimmed(whole);
    let tail = text::without_leading_white(whole);
    lemma_leading(whole);
    lemma_trailing(tail);
    let from = whole.len() - tail.len();
    assert(left =~= whole.subrange(from, from + left.len()));
    assert forall|i: int|
        (0 <= i < from || from + left.len() <= i < whole.len()) implies text::is_white(
        #[trigger] whole[i],
    ) by {
        if i >= from {
            assert(tail[i - from] == whole[i]);
        }
    }
    if left.len() > 0 {
        assert(left[0] == tail[0]);
    }
}

/// Nothing that is printed in ASCII is white space, and every blank of it is.
pub proof fn law_what_is_printed_is_not_white(c: char)
    ensures
        '!' <= c <= '~' ==> !text::is_white(c),
        c == ' ' || c == '\t' || c == '\n' || c == '\r' ==> text::is_white(c),
{
}

/// A text mentions another exactly when it is something, the other, and something more.
pub proof fn law_a_mention_is_a_piece_of_the_text(hay: Seq<char>, needle: Seq<char>)
    ensures
        text::occurs(hay, needle) <==> exists|before: Seq<char>, after: Seq<char>|
            hay == #[trigger] (before + needle + after),
{
    if text::occurs(hay, needle) {
        let at = choose|at: int| #[trigger] text::stands_at(hay, needle, at);
        let before = hay.take(at);
        let after = hay.skip(at + needle.len());
        assert(hay =~= before + needle + after);
    }
    if exists|before: Seq<char>, after: Seq<char>| hay == #[trigger] (before + needle + after) {
        let (before, after) = choose|before: Seq<char>, after: Seq<char>|
            hay == #[trigger] (before + needle + after);
        let at = before.len() as int;
        assert(hay.subrange(at, at + needle.len()) =~= needle);
        assert(text::stands_at(hay, needle, at));
    }
}

/// The texts of some strings are theirs, one by one.
pub proof fn law_each_string_gives_its_own_text(strings: Seq<String>, i: int)
    requires
        0 <= i < strings.len(),
    ensures
        text::texts(strings).len() == strings.len(),
        text::texts(strings)[i] == strings[i]@,
{
}

} // verus!
