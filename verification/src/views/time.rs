//! Spans of time in the coarsest unit that still says something useful.

use crate::i18n;
use crate::i18n::{say1, text};
use crate::model::Moment;
use crate::strings;
use crate::strings::Language;
use crate::text::{owned, signed_decimal_text};
use chrono::{DateTime, FixedOffset, TimeDelta};
use vstd::prelude::*;

verus! {

/// The longest span there is, in whole seconds.
pub const MAX_SECONDS: i64 = 9_223_372_036_854_774;

/// A span of time: seconds, and the nanoseconds that follow them.
#[derive(Debug, Clone, Copy, PartialEq, Eq, Structural)]
pub struct Span {
    pub seconds: i64,
    pub nanoseconds: u32,
}

impl Span {
    /// The nanoseconds are part of one second, and the span is one that can be measured.
    pub open spec fn wf(self) -> bool {
        &&& self.nanoseconds < 1_000_000_000
        &&& -MAX_SECONDS <= self.seconds <= MAX_SECONDS
    }

    /// Longer than nothing.
    pub open spec fn is_ahead(self) -> bool {
        self.seconds > 0 || (self.seconds == 0 && self.nanoseconds > 0)
    }
}

/// `TimeDelta::num_minutes` of a span that is not negative: the whole minutes in it.
#[verifier::external_body]
fn num_minutes(span: Span) -> (r: i64)
    requires
        span.wf(),
        span.seconds >= 0,
    ensures
        r == span.seconds as int / 60,
{
    TimeDelta::new(span.seconds, span.nanoseconds).unwrap_or_default().num_minutes()
}

/// `TimeDelta::num_hours` of a span that is not negative: the whole hours in it.
#[verifier::external_body]
fn num_hours(span: Span) -> (r: i64)
    requires
        span.wf(),
        span.seconds >= 0,
    ensures
        r == span.seconds as int / 3_600,
{
    TimeDelta::new(span.seconds, span.nanoseconds).unwrap_or_default().num_hours()
}

/// `TimeDelta::num_days` of a span that is not negative: the whole days in it.
#[verifier::external_body]
fn num_days(span: Span) -> (r: i64)
    requires
        span.wf(),
        span.seconds >= 0,
    ensures
        r == span.seconds as int / 86_400,
{
    TimeDelta::new(span.seconds, span.nanoseconds).unwrap_or_default().num_days()
}

/// What `DateTime::signed_duration_since` makes of two times: whole seconds and the nanoseconds
/// beyond them, both with the sign of the difference. Each time is given by its seconds and
/// nanoseconds since 1970, a leap second by more than a second's worth of nanoseconds; there is no
/// difference where one of them is not a time.
pub uninterp spec fn difference(
    later_seconds: i64,
    later_nanoseconds: u32,
    earlier_seconds: i64,
    earlier_nanoseconds: u32,
) -> Option<(i64, i32)>;

/// A time outside any leap second, within a hundred and ninety thousand years of 1970.
pub open spec fn is_plain(time: Moment) -> bool {
    &&& time.nanoseconds < 1_000_000_000
    &&& -6_000_000_000_000 <= time.seconds <= 6_000_000_000_000
}

/// A difference in nanoseconds.
pub open spec fn nanoseconds_of(difference: (i64, i32)) -> int {
    difference.0 * 1_000_000_000 + difference.1
}

/// `DateTime::signed_duration_since`: how much later one time is than another, as
/// `TimeDelta::num_seconds` and `TimeDelta::subsec_nanos` give it. The two parts have the sign of
/// the difference, and for times outside any leap second they are the plain difference.
#[verifier::external_body]
fn signed_duration_since(later: Moment, earlier: Moment) -> (r: Option<(i64, i32)>)
    ensures
        r == difference(
            later.seconds,
            later.nanoseconds,
            earlier.seconds,
            earlier.nanoseconds,
        ),
        r matches Some(d) ==> {
            &&& -MAX_SECONDS < d.0 < MAX_SECONDS
            &&& -1_000_000_000 < d.1 < 1_000_000_000
        },
        is_plain(later) && is_plain(earlier) ==> {
            &&& r is Some
            &&& nanoseconds_of(r->0) == (later.seconds - earlier.seconds)
                * 1_000_000_000 + later.nanoseconds - earlier.nanoseconds
        },
{
    let later = DateTime::from_timestamp(later.seconds, later.nanoseconds)?;
    let earlier = DateTime::from_timestamp(earlier.seconds, earlier.nanoseconds)?;
    let delta = later.signed_duration_since(earlier);
    Some((delta.num_seconds(), delta.subsec_nanos()))
}

/// The pattern for a time to the minute.
pub const TO_THE_MINUTE: &'static str = "%Y-%m-%d %H:%M";

/// The pattern for a time to the millisecond.
pub const TO_THE_MILLISECOND: &'static str = "%Y-%m-%d %H:%M:%S%.3f";

/// What `DateTime::format` writes of a time, given by its seconds and nanoseconds since 1970, on a
/// clock that is so many seconds ahead of UTC. Nothing where that is not a time or not a clock.
pub uninterp spec fn formatted(
    seconds: i64,
    nanoseconds: u32,
    offset_seconds: i32,
    pattern: Seq<char>,
) -> Option<Seq<char>>;

/// What is written of a time by a pattern.
pub open spec fn written(time: Moment, pattern: &str) -> Option<Seq<char>> {
    formatted(time.seconds, time.nanoseconds, time.offset_seconds, pattern@)
}

/// A plain time, on a clock less than a day from UTC.
pub open spec fn is_dated(time: Moment) -> bool {
    is_plain(time) && -86_400 < time.offset_seconds < 86_400
}

/// `DateTime::format`: a time on its own clock, written by a pattern. There is something to write
/// for every plain time on a clock less than a day from UTC. The two patterns are ones it knows;
/// of another it may fail.
#[verifier::external_body]
pub(crate) fn format_moment(time: Moment, pattern: &str) -> (r: Option<String>)
    requires
        pattern@ == TO_THE_MINUTE@ || pattern@ == TO_THE_MILLISECOND@,
    ensures
        match r {
            Some(text) => formatted(
                time.seconds,
                time.nanoseconds,
                time.offset_seconds,
                pattern@,
            ) == Some(text@),
            None => formatted(
                time.seconds,
                time.nanoseconds,
                time.offset_seconds,
                pattern@,
            ) is None,
        },
        is_dated(time) ==> r is Some,
{
    let offset = FixedOffset::east_opt(time.offset_seconds)?;
    let instant = DateTime::from_timestamp(time.seconds, time.nanoseconds)?;
    Some(instant.with_timezone(&offset).format(pattern).to_string())
}

/// A difference as a span: the seconds rounded down, the nanoseconds that follow them.
pub open spec fn span_of(difference: Option<(i64, i32)>) -> Option<Span> {
    match difference {
        Some(d) => Some(
            if d.1 < 0 {
                Span {
                    seconds: (d.0 - 1) as i64,
                    nanoseconds: (d.1 + 1_000_000_000) as u32,
                }
            } else {
                Span { seconds: d.0, nanoseconds: d.1 as u32 }
            },
        ),
        None => None,
    }
}

/// How much later one time is than another.
pub open spec fn later_by(later: Moment, earlier: Moment) -> Option<Span> {
    span_of(
        difference(later.seconds, later.nanoseconds, earlier.seconds, earlier.nanoseconds),
    )
}

/// A difference as a span.
pub fn normalized(difference: Option<(i64, i32)>) -> (r: Option<Span>)
    requires
        difference matches Some(d) ==> -MAX_SECONDS < d.0 < MAX_SECONDS && -1_000_000_000 < d.1
            < 1_000_000_000,
    ensures
        r == span_of(difference),
        r is Some ==> r->0.wf(),
{
    match difference {
        Some((seconds, nanoseconds)) => Some(
            if nanoseconds < 0 {
                Span {
                    seconds: seconds - 1,
                    nanoseconds: (nanoseconds + 1_000_000_000) as u32,
                }
            } else {
                Span { seconds, nanoseconds: nanoseconds as u32 }
            },
        ),
        None => None,
    }
}

/// How much later one time is than another. Nothing where one of them is not a time.
pub fn since(later: Moment, earlier: Moment) -> (r: Option<Span>)
    ensures
        r == later_by(later, earlier),
        r is Some ==> r->0.wf(),
        is_plain(later) && is_plain(earlier) ==> r is Some && r->0.seconds * 1_000_000_000
            + r->0.nanoseconds == (later.seconds - earlier.seconds) * 1_000_000_000
            + later.nanoseconds - earlier.nanoseconds,
{
    normalized(signed_duration_since(later, earlier))
}

/// How far ahead something is, rounded down to the coarsest unit. "in 90 minutes" is arithmetic;
/// "in 1 h" is an answer.
pub open spec fn ahead_words(words: Language, span: Span) -> Seq<char> {
    if !span.is_ahead() {
        words.says(strings::TIME_DUE_NOW as int)
    } else if span.seconds < 60 {
        words.says(strings::TIME_IN_UNDER_A_MINUTE as int)
    } else if span.seconds < 3_600 {
        i18n::said1(
            words,
            strings::TIME_IN_MINUTES_FORMAT as int,
            crate::text::signed_decimal(span.seconds as int / 60),
        )
    } else if span.seconds < 86_400 {
        i18n::said1(
            words,
            strings::TIME_IN_HOURS_FORMAT as int,
            crate::text::signed_decimal(span.seconds as int / 3_600),
        )
    } else {
        i18n::said1(
            words,
            strings::TIME_IN_DAYS_FORMAT as int,
            crate::text::signed_decimal(span.seconds as int / 86_400),
        )
    }
}

/// How long ago something was. What has no time is as recent as it gets.
pub open spec fn ago_words(words: Language, elapsed: Option<Span>) -> Seq<char> {
    match elapsed {
        None => words.says(strings::TIME_JUST_NOW as int),
        Some(span) => if span.seconds < 60 {
            words.says(strings::TIME_JUST_NOW as int)
        } else if span.seconds < 3_600 {
            i18n::said1(
                words,
                strings::TIME_MINUTES_AGO_FORMAT as int,
                crate::text::signed_decimal(span.seconds as int / 60),
            )
        } else if span.seconds < 86_400 {
            i18n::said1(
                words,
                strings::TIME_HOURS_AGO_FORMAT as int,
                crate::text::signed_decimal(span.seconds as int / 3_600),
            )
        } else {
            i18n::said1(
                words,
                strings::TIME_DAYS_AGO_FORMAT as int,
                crate::text::signed_decimal(span.seconds as int / 86_400),
            )
        },
    }
}

/// How far ahead something is, in words.
pub fn humanize(words: &Language, span: Span) -> (r: String)
    requires
        words.wf(),
        span.wf(),
    ensures
        r@ == ahead_words(*words, span),
{
    if span.seconds < 0 || (span.seconds == 0 && span.nanoseconds == 0) {
        return owned(text(words, strings::TIME_DUE_NOW));
    }
    if span.seconds < 60 {
        return owned(text(words, strings::TIME_IN_UNDER_A_MINUTE));
    }
    if span.seconds < 3_600 {
        let minutes = signed_decimal_text(num_minutes(span) as i128);
        return say1(words, strings::TIME_IN_MINUTES_FORMAT, minutes.as_str());
    }
    if span.seconds < 86_400 {
        let hours = signed_decimal_text(num_hours(span) as i128);
        return say1(words, strings::TIME_IN_HOURS_FORMAT, hours.as_str());
    }
    let days = signed_decimal_text(num_days(span) as i128);
    say1(words, strings::TIME_IN_DAYS_FORMAT, days.as_str())
}

/// How long ago a run finished, in words.
///
/// A status with no timestamp comes from a run this session that has not been written out yet,
/// which is as recent as it gets.
pub fn ago(words: &Language, elapsed: Option<Span>) -> (r: String)
    requires
        words.wf(),
        elapsed matches Some(span) ==> span.wf(),
    ensures
        r@ == ago_words(*words, elapsed),
{
    match elapsed {
        None => owned(text(words, strings::TIME_JUST_NOW)),
        Some(span) => {
            if span.seconds < 60 {
                return owned(text(words, strings::TIME_JUST_NOW));
            }
            if span.seconds < 3_600 {
                let minutes = signed_decimal_text(num_minutes(span) as i128);
                return say1(words, strings::TIME_MINUTES_AGO_FORMAT, minutes.as_str());
            }
            if span.seconds < 86_400 {
                let hours = signed_decimal_text(num_hours(span) as i128);
                return say1(words, strings::TIME_HOURS_AGO_FORMAT, hours.as_str());
            }
            let days = signed_decimal_text(num_days(span) as i128);
            say1(words, strings::TIME_DAYS_AGO_FORMAT, days.as_str())
        },
    }
}

} // verus!
