//! What a card and the rows on it say.

use crate::components::icon::Glyph;
use crate::i18n;
use crate::model::{
    Destination, DestinationSyncStatus, Moment, SyncOutcome, SyncStrategy, SyncTask, SyncTaskKind,
    Trigger,
};
use crate::rules::RuleView;
use crate::state::health;
use crate::strings;
use crate::strings::Language;
use crate::text;
use crate::views::task_card;
use crate::views::task_card::{
    BadgeFace, CardFacts, DestinationRow, Operation, ProgressReport, TaskCard, Tone,
};
use crate::views::time;
use vstd::prelude::*;

verus! {

/// A badge reads as it is said to, and has no tooltip.
pub proof fn law_a_badge_reads_as_it_is_said_to(
    badge: BadgeFace,
    glyph: Glyph,
    words: Seq<char>,
    tone: Tone,
)
    ensures
        badge.reads(glyph, words, tone) <==> {
            &&& badge.glyph == glyph
            &&& badge.text@ == words
            &&& badge.tone == tone
            &&& badge.tooltip is None
        },
{
}

/// A trigger's badge shows its kind, and a schedule shows its cron expression too.
pub proof fn law_a_triggers_badge_shows_its_kind(
    words: Language,
    trigger: Trigger,
    badge: BadgeFace,
)
    requires
        task_card::is_trigger_badge(words, trigger, badge),
    ensures
        badge.glyph == Glyph::Manual <==> trigger is Manual,
        badge.glyph == Glyph::Clock <==> trigger is Scheduled,
        badge.glyph == Glyph::Eye <==> trigger is Watch,
        badge.tone == Tone::Quiet,
        badge.tooltip is None,
        trigger is Manual ==> badge.text@ == words.says(strings::TASK_TRIGGER_MANUAL as int),
        trigger is Watch ==> badge.text@ == words.says(strings::TASK_TRIGGER_WATCHING as int),
        trigger matches Trigger::Scheduled { cron_expression } ==> badge.text@ == i18n::said1(
            words,
            strings::TASK_TRIGGER_SCHEDULED_FORMAT as int,
            cron_expression@,
        ),
{
}

/// A destination says that it takes all files, that it has no rules, or how many it has.
pub proof fn law_a_destination_says_how_many_rules_it_has(
    words: Language,
    destination: Destination,
)
    requires
        destination.filters@.len() <= 0x7fff_ffff_ffff_ffff,
    ensures
        ({
            let said = task_card::filter_words(words, destination);
            let n = destination.filters@.len() as int;
            &&& n == 1 && destination@.filters[0] == RuleView::AllFiles ==> said == words.says(
                strings::FILTER_ALL_FILES as int,
            )
            &&& n == 0 ==> said == words.says(strings::DEST_NO_RULES as int)
            &&& n == 1 && destination@.filters[0] != RuleView::AllFiles ==> said == i18n::said1(
                words,
                strings::DEST_FILTERS_COUNT_ONE as int,
                text::signed_decimal(1),
            )
            &&& n > 1 ==> said == i18n::said1(
                words,
                strings::DEST_FILTERS_COUNT_OTHER as int,
                text::signed_decimal(n),
            )
        }),
{
    assert(destination@.filters.len() == destination.filters@.len());
}

/// One copied file is counted in the singular, and any other number in the plural.
pub proof fn law_copied_files_are_counted(words: Language, status: DestinationSyncStatus)
    ensures
        task_card::copied_words(words, status) == if status.files_copied == 1 {
            i18n::said1(
                words,
                strings::COMMON_FILES_COUNT_ONE as int,
                text::signed_decimal(1),
            )
        } else {
            i18n::said1(
                words,
                strings::COMMON_FILES_COUNT_OTHER as int,
                text::signed_decimal(status.files_copied as int),
            )
        },
{
}

/// How long ago a run was is the time from then to now, and how far ahead one is the time from now
/// to then; where there is none, neither is known.
pub proof fn law_time_runs_from_the_earlier_to_the_later(now: Moment, other: Moment)
    ensures
        task_card::elapsed(now, Some(other)) == time::later_by(now, other),
        task_card::ahead(now, Some(other)) == time::later_by(other, now),
        task_card::elapsed(now, Some(other)) == task_card::ahead(other, Some(now)),
        task_card::elapsed(now, None) is None,
        task_card::ahead(now, None) is None,
        time::later_by(now, other) == time::span_of(
            time::difference(now.seconds, now.nanoseconds, other.seconds, other.nanoseconds),
        ),
{
}

/// A destination that has never run says so, whether it has a status or not; one that runs, or
/// asks, says that, whatever it did before.
pub proof fn law_a_status_says_how_the_last_run_went(
    words: Language,
    status: DestinationSyncStatus,
    now: Moment,
)
    ensures
        task_card::status_words(words, None, now) == words.says(strings::STATUS_NEVER_RUN as int),
        status.outcome is Never ==> task_card::status_words(words, Some(status), now)
            == task_card::status_words(words, None, now),
        status.outcome is Running ==> task_card::status_words(words, Some(status), now)
            == words.says(strings::STATUS_SYNCING as int),
        status.outcome is NeedsConfirmation ==> task_card::status_words(words, Some(status), now)
            == words.says(strings::STATUS_NEEDS_CONFIRMATION as int),
        status.outcome is Failed && status.error is None ==> task_card::status_words(
            words,
            Some(status),
            now,
        ) == words.says(strings::STATUS_FAILED as int),
        status.outcome is Failed ==> (status.error matches Some(error)
            ==> task_card::status_words(words, Some(status), now) == i18n::said1(
            words,
            strings::STATUS_FAILED_FORMAT as int,
            error@,
        )),
{
}

/// A run that went well says when it was and how many files it copied, and one that left files
/// behind says how many of those as well.
pub proof fn law_a_finished_run_says_when_and_how_many(
    words: Language,
    status: DestinationSyncStatus,
    now: Moment,
)
    ensures
        ({
            let when = time::ago_words(
                words,
                match status.last_run {
                    Some(then) => time::later_by(now, then),
                    None => None,
                },
            );
            let copied = task_card::copied_words(words, status);
            &&& status.outcome is Success ==> task_card::status_words(words, Some(status), now)
                == i18n::said2(words, strings::STATUS_SYNCED_FORMAT as int, when, copied)
            &&& status.outcome is Incomplete ==> task_card::status_words(words, Some(status), now)
                == i18n::said3(
                words,
                strings::STATUS_INCOMPLETE_FORMAT as int,
                when,
                copied,
                text::signed_decimal(status.files_deferred as int),
            )
        }),
{
}

/// Each outcome has its own drawing and tone.
pub proof fn law_each_outcome_has_its_own_look(outcome: SyncOutcome)
    ensures
        task_card::appearance(outcome).1 == match outcome {
            SyncOutcome::Never => Tone::Muted,
            SyncOutcome::Running => Tone::Primary,
            SyncOutcome::Success => Tone::Success,
            SyncOutcome::Incomplete | SyncOutcome::NeedsConfirmation => Tone::Warning,
            SyncOutcome::Failed => Tone::Danger,
        },
        task_card::appearance(outcome).0 == match outcome {
            SyncOutcome::Never | SyncOutcome::Incomplete => Glyph::Idle,
            SyncOutcome::Running => Glyph::Sync,
            SyncOutcome::Success => Glyph::Success,
            SyncOutcome::NeedsConfirmation => Glyph::Warning,
            SyncOutcome::Failed => Glyph::Failure,
        },
{
}

/// A line of progress names the operation and the file, and counts the one that is under way.
pub proof fn law_progress_counts_the_operation_under_way(words: Language, report: ProgressReport)
    ensures
        ({
            let doing = if report.operation == Operation::Copy {
                strings::PROGRESS_COPYING as int
            } else if report.operation == Operation::Move {
                strings::PROGRESS_MOVING as int
            } else if report.operation == Operation::CreateDirectory {
                strings::PROGRESS_CREATING as int
            } else if report.operation == Operation::SetDirectoryTimestamp {
                strings::PROGRESS_TIDYING as int
            } else {
                strings::PROGRESS_REMOVING as int
            };
            task_card::progress_words(words, report) == i18n::said4(
                words,
                strings::PROGRESS_LINE_FORMAT as int,
                words.says(doing),
                report.relative_path@,
                text::decimal((1 + report.completed_operations) as nat),
                text::decimal(report.total_operations as nat),
            )
        }),
{
}

/// A row shows what it is about; how it went is the live line where there is one, and otherwise
/// what its status says. Only a status that asks can be reviewed.
pub proof fn law_a_row_shows_its_destination(
    words: Language,
    destination: Destination,
    status: Option<DestinationSyncStatus>,
    progress: Option<Seq<char>>,
    now: Moment,
    row: DestinationRow,
)
    requires
        task_card::is_row(words, destination, status, progress, now, row),
    ensures
        row.id == destination.id,
        row.name@ == destination.name@,
        row.path@ == destination.path@,
        progress matches Some(line) ==> row.status@ == line,
        progress is None ==> row.status@ == task_card::status_words(words, status, now),
        row.review <==> (status matches Some(s) && s.outcome is NeedsConfirmation),
        status matches Some(s) ==> (row.glyph, row.tone) == task_card::appearance(s.outcome),
        status is None ==> (row.glyph, row.tone) == task_card::appearance(SyncOutcome::Never),
        row.filter.text@ == task_card::filter_words(words, destination),
        row.filter.glyph == Glyph::Filter,
        row.filter.tone == Tone::Quiet,
        row.strategy is None <==> destination.strategy == SyncStrategy::Move,
        destination.strategy == SyncStrategy::Mirror ==> (row.strategy matches Some(badge)
            && badge.text@ == words.says(strings::ENUM_SYNC_STRATEGY_MIRROR as int) && badge.glyph
            == Glyph::Sync),
        destination.strategy == SyncStrategy::AddOnly ==> (row.strategy matches Some(badge)
            && badge.text@ == words.says(strings::ENUM_SYNC_STRATEGY_ADD_ONLY as int)
            && badge.glyph == Glyph::Add),
{
}

/// What is recorded, and what is under way, is looked up by identifier.
pub proof fn law_a_row_is_looked_up_by_its_identifier(
    statuses: Map<u128, DestinationSyncStatus>,
    progress: Map<u128, String>,
    id: u128,
)
    ensures
        statuses.contains_key(id) ==> task_card::recorded(statuses, id) == Some(statuses[id]),
        !statuses.contains_key(id) ==> task_card::recorded(statuses, id) is None,
        progress.contains_key(id) ==> task_card::live_line(progress, id) == Some(progress[id]@),
        !progress.contains_key(id) ==> task_card::live_line(progress, id) is None,
{
}

/// A card shows its task and how it is doing. It can be run exactly when it is not running and has
/// somewhere to go.
pub proof fn law_a_card_shows_its_task(
    words: Language,
    task: SyncTask,
    facts: CardFacts,
    card: TaskCard,
)
    requires
        task_card::is_card(words, task, facts, card),
    ensures
        card.id == task.id,
        card.name@ == task.name@,
        card.source@ == task.source_path@,
        card.expanded == facts.expanded,
        card.running <==> health::card_outcome(
            health::outcomes(task.destinations@, facts.statuses@),
        ) == SyncOutcome::Running,
        card.can_run <==> !card.running && task.destinations@.len() > 0,
        card.health@ == health::card_text(task.destinations@, facts.statuses@),
        (card.health_glyph, card.health_tone) == task_card::appearance(
            health::card_outcome(health::outcomes(task.destinations@, facts.statuses@)),
        ),
        task_card::is_trigger_badge(words, task.trigger, card.trigger),
        task.kind == SyncTaskKind::Sync ==> card.kind.text@ == words.says(
            strings::ENUM_SYNC_TASK_KIND_SYNC as int,
        ) && card.kind.glyph == Glyph::Sync && card.add_hint@ == words.says(
            strings::TASK_ADD_DESTINATION_TIP as int,
        ),
        task.kind == SyncTaskKind::Move ==> card.kind.text@ == words.says(
            strings::ENUM_SYNC_TASK_KIND_MOVE as int,
        ) && card.kind.glyph == Glyph::Route && card.add_hint@ == words.says(
            strings::TASK_ADD_ROUTING_RULE_TIP as int,
        ),
{
}

/// A card says when it runs next where that is known, and warns, with the reason at hand, where its
/// trigger will not start.
pub proof fn law_a_card_says_when_it_runs_next(
    words: Language,
    task: SyncTask,
    facts: CardFacts,
    card: TaskCard,
)
    requires
        task_card::is_card(words, task, facts, card),
    ensures
        facts.next_run is None ==> card.next_run is None,
        facts.next_run matches Some(next) ==> match time::later_by(next, facts.now) {
            Some(ahead) => card.next_run matches Some(badge) && badge.text@ == i18n::said1(
                words,
                strings::TASK_NEXT_RUN_FORMAT as int,
                time::ahead_words(words, ahead),
            ) && badge.glyph == Glyph::Clock && badge.tone == Tone::Primary,
            None => card.next_run is None,
        },
        facts.trigger_error is None <==> card.trigger_error is None,
        facts.trigger_error matches Some(reason) ==> {
            &&& card.trigger_error matches Some(badge)
            &&& badge.text@ == words.says(strings::TASK_TRIGGER_ERROR_BADGE as int)
            &&& badge.glyph == Glyph::Warning
            &&& badge.tone == Tone::Warning
            &&& badge.tooltip matches Some(tip)
            &&& tip@ == reason@
        },
{
}

/// An open card has a row for each destination, in order; a closed one has none.
pub proof fn law_an_open_card_has_a_row_for_each_destination(
    words: Language,
    task: SyncTask,
    facts: CardFacts,
    card: TaskCard,
)
    requires
        task_card::is_card(words, task, facts, card),
    ensures
        !facts.expanded ==> card.rows@.len() == 0,
        facts.expanded ==> card.rows@.len() == task.destinations@.len(),
        forall|i: int|
            0 <= i < card.rows@.len() ==> {
                &&& (#[trigger] card.rows@[i]).id == task.destinations@[i].id
                &&& task_card::is_row(
                    words,
                    task.destinations@[i],
                    if facts.statuses@.contains_key(task.destinations@[i].id) {
                        Some(facts.statuses@[task.destinations@[i].id])
                    } else {
                        None
                    },
                    if facts.progress@.contains_key(task.destinations@[i].id) {
                        Some(facts.progress@[task.destinations@[i].id]@)
                    } else {
                        None
                    },
                    facts.now,
                    card.rows@[i],
                )
            },
{
}

} // verus!
