//! How far away a moment is said to be.

use crate::i18n;
use crate::strings;
use crate::strings::Language;
use crate::text;
use crate::views::time;
use crate::views::time::Span;
use vstd::prelude::*;

verus! {

/// How many nanoseconds a span lasts; fewer than none where it lies behind.
pub open spec fn length(span: Span) -> int {
    span.seconds * 1_000_000_000 + span.nanoseconds
}

/// A span is as long as the difference it was made from, and its nanoseconds never make up a
/// second. Where there is no difference there is no span.
pub proof fn law_a_span_is_as_long_as_the_difference(difference: (i64, i32))
    requires
        -1_000_000_000 < difference.1 < 1_000_000_000,
        difference.0 > i64::MIN,
    ensures
        time::span_of(Some(difference)) matches Some(span) && length(span) == difference.0
            * 1_000_000_000 + difference.1 && span.nanoseconds < 1_000_000_000,
        time::span_of(None) is None,
{
}

/// A span lies ahead exactly when it lasts longer than nothing.
pub proof fn law_only_a_span_of_some_length_lies_ahead(span: Span)
    requires
        span.wf(),
    ensures
        span.is_ahead() <==> length(span) > 0,
{
}

/// What lies ahead is counted in whole minutes below an hour, in whole hours below a day, and in
/// whole days from there on.
pub proof fn law_what_lies_ahead_is_said_in_its_largest_unit(words: Language, span: Span, n: int)
    requires
        span.wf(),
        n >= 1,
    ensures
        length(span) <= 0 ==> time::ahead_words(words, span) == words.says(
            strings::TIME_DUE_NOW as int,
        ),
        0 < length(span) < 60_000_000_000 ==> time::ahead_words(words, span) == words.says(
            strings::TIME_IN_UNDER_A_MINUTE as int,
        ),
        n < 60 && 60 * n <= span.seconds < 60 * (n + 1) ==> time::ahead_words(words, span)
            == i18n::said1(
            words,
            strings::TIME_IN_MINUTES_FORMAT as int,
            text::signed_decimal(n),
        ),
        n < 24 && 3_600 * n <= span.seconds < 3_600 * (n + 1) ==> time::ahead_words(words, span)
            == i18n::said1(
            words,
            strings::TIME_IN_HOURS_FORMAT as int,
            text::signed_decimal(n),
        ),
        86_400 * n <= span.seconds < 86_400 * (n + 1) ==> time::ahead_words(words, span)
            == i18n::said1(
            words,
            strings::TIME_IN_DAYS_FORMAT as int,
            text::signed_decimal(n),
        ),
{
}

/// What lies behind is counted the same way, and less than a minute is just now, as is a moment
/// that nobody knows.
pub proof fn law_what_lies_behind_is_said_in_its_largest_unit(words: Language, span: Span, n: int)
    requires
        n >= 1,
    ensures
        time::ago_words(words, None) == words.says(strings::TIME_JUST_NOW as int),
        span.seconds < 60 ==> time::ago_words(words, Some(span)) == words.says(
            strings::TIME_JUST_NOW as int,
        ),
        n < 60 && 60 * n <= span.seconds < 60 * (n + 1) ==> time::ago_words(words, Some(span))
            == i18n::said1(
            words,
            strings::TIME_MINUTES_AGO_FORMAT as int,
            text::signed_decimal(n),
        ),
        n < 24 && 3_600 * n <= span.seconds < 3_600 * (n + 1) ==> time::ago_words(
            words,
            Some(span),
        ) == i18n::said1(
            words,
            strings::TIME_HOURS_AGO_FORMAT as int,
            text::signed_decimal(n),
        ),
        86_400 * n <= span.seconds < 86_400 * (n + 1) ==> time::ago_words(words, Some(span))
            == i18n::said1(
            words,
            strings::TIME_DAYS_AGO_FORMAT as int,
            text::signed_decimal(n),
        ),
{
}

} // verus!
