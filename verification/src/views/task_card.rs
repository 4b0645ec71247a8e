//! What a task's card and the rows beneath it show.

use crate::components::icon::Glyph;
use crate::i18n;
use crate::i18n::{plural, say1, say2, say3, say4, text};
use crate::model::{
    Destination, DestinationSyncStatus, Moment, SyncOutcome, SyncStrategy, SyncTask, SyncTaskKind,
    Trigger,
};
use crate::state::health;
use crate::state::health::health_of;
use crate::strings;
use crate::strings::Language;
use crate::text::{decimal_text, owned, signed_decimal_text};
use crate::views::time;
use crate::views::time::{ago, humanize, since, Span};
use std::collections::HashMap;
use vstd::prelude::*;

verus! {

/// What colour something is in.
#[derive(Debug, Clone, Copy, PartialEq, Eq, Structural)]
pub enum Tone {
    /// A fact, not an alert.
    Quiet,
    Muted,
    Primary,
    Success,
    Warning,
    Danger,
}

/// A pill beside a name. The badge row is a set of facts, so only the ones that are genuinely
/// about time or trouble get a colour of their own.
#[derive(Debug, PartialEq, Eq)]
pub struct BadgeFace {
    pub glyph: Glyph,
    pub text: String,
    pub tone: Tone,
    pub tooltip: Option<String>,
}

impl BadgeFace {
    /// A badge that reads this, with nothing more to tell.
    pub open spec fn reads(self, glyph: Glyph, words: Seq<char>, tone: Tone) -> bool {
        self.glyph == glyph && self.text@ == words && self.tone == tone && self.tooltip is None
    }
}

/// A quiet pill.
fn badge(glyph: Glyph, label: &str) -> (r: BadgeFace)
    ensures
        r.reads(glyph, label@, Tone::Quiet),
{
    BadgeFace { glyph, text: owned(label), tone: Tone::Quiet, tooltip: None }
}

/// What a task does.
pub fn kind_badge(words: &Language, kind: SyncTaskKind) -> (r: BadgeFace)
    requires
        words.wf(),
    ensures
        match kind {
            SyncTaskKind::Sync => r.reads(
                Glyph::Sync,
                words.says(strings::ENUM_SYNC_TASK_KIND_SYNC as int),
                Tone::Quiet,
            ),
            SyncTaskKind::Move => r.reads(
                Glyph::Route,
                words.says(strings::ENUM_SYNC_TASK_KIND_MOVE as int),
                Tone::Quiet,
            ),
        },
{
    match kind {
        SyncTaskKind::Sync => badge(
            Glyph::Sync,
            text(words, strings::ENUM_SYNC_TASK_KIND_SYNC),
        ),
        SyncTaskKind::Move => badge(
            Glyph::Route,
            text(words, strings::ENUM_SYNC_TASK_KIND_MOVE),
        ),
    }
}

/// What starts a task.
pub open spec fn is_trigger_badge(words: Language, trigger: Trigger, badge: BadgeFace) -> bool {
    match trigger {
        Trigger::Manual => badge.reads(
            Glyph::Manual,
            words.says(strings::TASK_TRIGGER_MANUAL as int),
            Tone::Quiet,
        ),
        Trigger::Scheduled { cron_expression } => badge.reads(
            Glyph::Clock,
            i18n::said1(
                words,
                strings::TASK_TRIGGER_SCHEDULED_FORMAT as int,
                cron_expression@,
            ),
            Tone::Quiet,
        ),
        Trigger::Watch { .. } => badge.reads(
            Glyph::Eye,
            words.says(strings::TASK_TRIGGER_WATCHING as int),
            Tone::Quiet,
        ),
    }
}

/// What starts a task.
pub fn trigger_badge(words: &Language, trigger: &Trigger) -> (r: BadgeFace)
    requires
        words.wf(),
    ensures
        is_trigger_badge(*words, *trigger, r),
{
    match trigger {
        Trigger::Manual => badge(Glyph::Manual, text(words, strings::TASK_TRIGGER_MANUAL)),
        Trigger::Scheduled { cron_expression } => badge(
            Glyph::Clock,
            say1(
                words,
                strings::TASK_TRIGGER_SCHEDULED_FORMAT,
                cron_expression.as_str(),
            ).as_str(),
        ),
        Trigger::Watch { .. } => badge(Glyph::Eye, text(words, strings::TASK_TRIGGER_WATCHING)),
    }
}

/// `next run in 2 h`. Relative, because that is the question being asked.
pub fn next_run_badge(words: &Language, ahead: Span) -> (r: BadgeFace)
    requires
        words.wf(),
        ahead.wf(),
    ensures
        r.reads(
            Glyph::Clock,
            i18n::said1(
                *words,
                strings::TASK_NEXT_RUN_FORMAT as int,
                time::ahead_words(*words, ahead),
            ),
            Tone::Primary,
        ),
{
    BadgeFace {
        glyph: Glyph::Clock,
        text: say1(words, strings::TASK_NEXT_RUN_FORMAT, humanize(words, ahead).as_str()),
        tone: Tone::Primary,
        tooltip: None,
    }
}

/// The task will not run by itself. Amber rather than red: what is broken is the automation, not
/// the task. The reason itself rides along as the tooltip, because a badge wide enough to hold an
/// error message is not a badge.
pub fn trigger_error_badge(words: &Language, reason: &str) -> (r: BadgeFace)
    requires
        words.wf(),
    ensures
        r.glyph == Glyph::Warning,
        r.text@ == words.says(strings::TASK_TRIGGER_ERROR_BADGE as int),
        r.tone == Tone::Warning,
        r.tooltip matches Some(tip) && tip@ == reason@,
{
    BadgeFace {
        glyph: Glyph::Warning,
        text: owned(text(words, strings::TASK_TRIGGER_ERROR_BADGE)),
        tone: Tone::Warning,
        tooltip: Some(owned(reason)),
    }
}

/// How a destination is reconciled.
pub fn strategy_badge(words: &Language, strategy: SyncStrategy) -> (r: BadgeFace)
    requires
        words.wf(),
    ensures
        match strategy {
            SyncStrategy::Mirror => r.reads(
                Glyph::Sync,
                words.says(strings::ENUM_SYNC_STRATEGY_MIRROR as int),
                Tone::Quiet,
            ),
            SyncStrategy::AddOnly => r.reads(
                Glyph::Add,
                words.says(strings::ENUM_SYNC_STRATEGY_ADD_ONLY as int),
                Tone::Quiet,
            ),
            SyncStrategy::Move => r.reads(
                Glyph::Route,
                words.says(strings::ENUM_SYNC_STRATEGY_MOVE as int),
                Tone::Quiet,
            ),
        },
{
    match strategy {
        SyncStrategy::Mirror => badge(
            Glyph::Sync,
            text(words, strings::ENUM_SYNC_STRATEGY_MIRROR),
        ),
        SyncStrategy::AddOnly => badge(
            Glyph::Add,
            text(words, strings::ENUM_SYNC_STRATEGY_ADD_ONLY),
        ),
        SyncStrategy::Move => badge(Glyph::Route, text(words, strings::ENUM_SYNC_STRATEGY_MOVE)),
    }
}

/// What the filter badge says. An empty filter list selects nothing, and the badge has to say so
/// rather than reading as "no filtering".
pub open spec fn filter_words(words: Language, destination: Destination) -> Seq<char> {
    if destination@.takes_all_files() {
        words.says(strings::FILTER_ALL_FILES as int)
    } else if destination.filters@.len() == 0 {
        words.says(strings::DEST_NO_RULES as int)
    } else {
        i18n::counted(
            words,
            strings::DEST_FILTERS_COUNT_ONE as int,
            strings::DEST_FILTERS_COUNT_OTHER as int,
            destination.filters@.len() as i64 as int,
        )
    }
}

/// What the filter badge says.
pub fn filter_summary(words: &Language, destination: &Destination) -> (r: String)
    requires
        words.wf(),
    ensures
        r@ == filter_words(*words, *destination),
{
    if destination.has_only_the_all_files_filter() {
        owned(text(words, strings::FILTER_ALL_FILES))
    } else if destination.filters.len() == 0 {
        owned(text(words, strings::DEST_NO_RULES))
    } else {
        plural(
            words,
            strings::DEST_FILTERS_COUNT_ONE,
            strings::DEST_FILTERS_COUNT_OTHER,
            destination.filters.len() as i64,
        )
    }
}

/// What a destination selects.
pub fn filter_badge(words: &Language, destination: &Destination) -> (r: BadgeFace)
    requires
        words.wf(),
    ensures
        r.reads(Glyph::Filter, filter_words(*words, *destination), Tone::Quiet),
{
    badge(Glyph::Filter, filter_summary(words, destination).as_str())
}

/// How many files were copied, in words.
pub open spec fn copied_words(words: Language, status: DestinationSyncStatus) -> Seq<char> {
    i18n::counted(
        words,
        strings::COMMON_FILES_COUNT_ONE as int,
        strings::COMMON_FILES_COUNT_OTHER as int,
        status.files_copied as int,
    )
}

/// How long ago a run finished. One with no time comes from a run this session that has not been
/// written out yet.
pub open spec fn elapsed(now: Moment, last_run: Option<Moment>) -> Option<Span> {
    match last_run {
        Some(then) => time::later_by(now, then),
        None => None,
    }
}

/// How long ago a run finished.
fn since_run(now: Moment, last_run: Option<Moment>) -> (r: Option<Span>)
    ensures
        r == elapsed(now, last_run),
        r is Some ==> r->0.wf(),
{
    match last_run {
        Some(then) => since(now, then),
        None => None,
    }
}

/// What a destination's row says. The engine's own sentence is wrapped in one that is translated:
/// paraphrasing it would lose what it said.
pub open spec fn status_words(
    words: Language,
    status: Option<DestinationSyncStatus>,
    now: Moment,
) -> Seq<char> {
    match status {
        None => words.says(strings::STATUS_NEVER_RUN as int),
        Some(status) => match status.outcome {
            SyncOutcome::Never => words.says(strings::STATUS_NEVER_RUN as int),
            SyncOutcome::Running => words.says(strings::STATUS_SYNCING as int),
            SyncOutcome::NeedsConfirmation => words.says(strings::STATUS_NEEDS_CONFIRMATION as int),
            SyncOutcome::Failed => match status.error {
                Some(error) => i18n::said1(
                    words,
                    strings::STATUS_FAILED_FORMAT as int,
                    error@,
                ),
                None => words.says(strings::STATUS_FAILED as int),
            },
            SyncOutcome::Incomplete => i18n::said3(
                words,
                strings::STATUS_INCOMPLETE_FORMAT as int,
                time::ago_words(words, elapsed(now, status.last_run)),
                copied_words(words, status),
                crate::text::signed_decimal(status.files_deferred as int),
            ),
            SyncOutcome::Success => i18n::said2(
                words,
                strings::STATUS_SYNCED_FORMAT as int,
                time::ago_words(words, elapsed(now, status.last_run)),
                copied_words(words, status),
            ),
        },
    }
}

/// The status behind a reference, if any.
pub open spec fn status_of(status: Option<&DestinationSyncStatus>) -> Option<
    DestinationSyncStatus,
> {
    match status {
        Some(s) => Some(*s),
        None => None,
    }
}

/// What a destination's row says.
pub fn status_text(
    words: &Language,
    status: Option<&DestinationSyncStatus>,
    now: Moment,
) -> (r: String)
    requires
        words.wf(),
    ensures
        r@ == status_words(*words, status_of(status), now),
{
    let status = match status {
        Some(status) => status,
        None => {
            return owned(text(words, strings::STATUS_NEVER_RUN));
        },
    };
    match status.outcome {
        SyncOutcome::Never => owned(text(words, strings::STATUS_NEVER_RUN)),
        SyncOutcome::Running => owned(text(words, strings::STATUS_SYNCING)),
        SyncOutcome::NeedsConfirmation => owned(text(words, strings::STATUS_NEEDS_CONFIRMATION)),
        SyncOutcome::Failed => match &status.error {
            Some(error) => say1(words, strings::STATUS_FAILED_FORMAT, error.as_str()),
            None => owned(text(words, strings::STATUS_FAILED)),
        },
        SyncOutcome::Incomplete => say3(
            words,
            strings::STATUS_INCOMPLETE_FORMAT,
            ago(words, since_run(now, status.last_run)).as_str(),
            plural(
                words,
                strings::COMMON_FILES_COUNT_ONE,
                strings::COMMON_FILES_COUNT_OTHER,
                status.files_copied as i64,
            ).as_str(),
            signed_decimal_text(status.files_deferred as i128).as_str(),
        ),
        SyncOutcome::Success => say2(
            words,
            strings::STATUS_SYNCED_FORMAT,
            ago(words, since_run(now, status.last_run)).as_str(),
            plural(
                words,
                strings::COMMON_FILES_COUNT_ONE,
                strings::COMMON_FILES_COUNT_OTHER,
                status.files_copied as i64,
            ).as_str(),
        ),
    }
}

/// One glyph and one colour per outcome.
pub open spec fn appearance(outcome: SyncOutcome) -> (Glyph, Tone) {
    match outcome {
        SyncOutcome::Never => (Glyph::Idle, Tone::Muted),
        SyncOutcome::Running => (Glyph::Sync, Tone::Primary),
        SyncOutcome::Success => (Glyph::Success, Tone::Success),
        SyncOutcome::Incomplete => (Glyph::Idle, Tone::Warning),
        SyncOutcome::Failed => (Glyph::Failure, Tone::Danger),
        SyncOutcome::NeedsConfirmation => (Glyph::Warning, Tone::Warning),
    }
}

/// One glyph and one colour per outcome, shared by the card summary, the rows beneath it and the
/// sidebar's health dots.
pub fn outcome_appearance(outcome: SyncOutcome) -> (r: (Glyph, Tone))
    ensures
        r == appearance(outcome),
{
    match outcome {
        SyncOutcome::Never => (Glyph::Idle, Tone::Muted),
        SyncOutcome::Running => (Glyph::Sync, Tone::Primary),
        SyncOutcome::Success => (Glyph::Success, Tone::Success),
        SyncOutcome::Incomplete => (Glyph::Idle, Tone::Warning),
        SyncOutcome::Failed => (Glyph::Failure, Tone::Danger),
        SyncOutcome::NeedsConfirmation => (Glyph::Warning, Tone::Warning),
    }
}

/// Every outcome looks different from every other.
pub proof fn law_outcomes_look_different(one: SyncOutcome, other: SyncOutcome)
    requires
        appearance(one) == appearance(other),
    ensures
        one == other,
{
}

/// What a run is doing to one file or folder.
#[derive(Debug, Clone, Copy, PartialEq, Eq, Structural)]
pub enum Operation {
    Copy,
    Move,
    Delete,
    DeleteDirectory,
    CreateDirectory,
    SetDirectoryTimestamp,
}

/// How far a run has come.
#[derive(Debug)]
pub struct ProgressReport {
    pub destination_id: u128,
    pub operation: Operation,
    pub relative_path: String,
    pub completed_operations: usize,
    pub total_operations: usize,
}

/// The verb of an operation.
pub open spec fn verb(operation: Operation) -> int {
    match operation {
        Operation::Copy => strings::PROGRESS_COPYING as int,
        Operation::Move => strings::PROGRESS_MOVING as int,
        Operation::Delete | Operation::DeleteDirectory => strings::PROGRESS_REMOVING as int,
        Operation::CreateDirectory => strings::PROGRESS_CREATING as int,
        Operation::SetDirectoryTimestamp => strings::PROGRESS_TIDYING as int,
    }
}

/// What a report says.
pub open spec fn progress_words(words: Language, report: ProgressReport) -> Seq<char> {
    i18n::said4(
        words,
        strings::PROGRESS_LINE_FORMAT as int,
        words.says(verb(report.operation)),
        report.relative_path@,
        crate::text::decimal((report.completed_operations + 1) as nat),
        crate::text::decimal(report.total_operations as nat),
    )
}

/// `Copying photos/2024/img_0042.jpg (3/120)`
pub fn describe_progress(words: &Language, report: &ProgressReport) -> (r: String)
    requires
        words.wf(),
    ensures
        r@ == progress_words(*words, *report),
{
    let verb: usize = match report.operation {
        Operation::Copy => strings::PROGRESS_COPYING,
        Operation::Move => strings::PROGRESS_MOVING,
        Operation::Delete => strings::PROGRESS_REMOVING,
        Operation::DeleteDirectory => strings::PROGRESS_REMOVING,
        Operation::CreateDirectory => strings::PROGRESS_CREATING,
        Operation::SetDirectoryTimestamp => strings::PROGRESS_TIDYING,
    };
    say4(
        words,
        strings::PROGRESS_LINE_FORMAT,
        text(words, verb),
        report.relative_path.as_str(),
        decimal_text(report.completed_operations as u128 + 1).as_str(),
        decimal_text(report.total_operations as u128).as_str(),
    )
}

/// What adding to a task is called. A Move task's list is ordered, so what is added there is the
/// next routing rule, not just another destination.
pub fn add_destination_hint<'a>(words: &'a Language, kind: SyncTaskKind) -> (r: &'a str)
    requires
        words.wf(),
    ensures
        r@ == words.says(
            match kind {
                SyncTaskKind::Move => strings::TASK_ADD_ROUTING_RULE_TIP as int,
                SyncTaskKind::Sync => strings::TASK_ADD_DESTINATION_TIP as int,
            },
        ),
{
    match kind {
        SyncTaskKind::Move => text(words, strings::TASK_ADD_ROUTING_RULE_TIP),
        SyncTaskKind::Sync => text(words, strings::TASK_ADD_DESTINATION_TIP),
    }
}

/// What one destination's row shows.
#[derive(Debug, PartialEq, Eq)]
pub struct DestinationRow {
    pub id: u128,
    pub glyph: Glyph,
    pub tone: Tone,
    pub name: String,
    pub path: String,
    /// The strategy, but for Move: those are rules in an ordered list, and naming the strategy on
    /// each one would be noise.
    pub strategy: Option<BadgeFace>,
    pub filter: BadgeFace,
    pub status: String,
    /// Whether the deletions wait for a review.
    pub review: bool,
}

/// What a destination's status is.
pub open spec fn recorded(
    statuses: Map<u128, DestinationSyncStatus>,
    id: u128,
) -> Option<DestinationSyncStatus> {
    if statuses.contains_key(id) {
        Some(statuses[id])
    } else {
        None
    }
}

/// The row is what a destination's row shows. A live progress line takes it over while a run is
/// going.
pub open spec fn is_row(
    words: Language,
    destination: Destination,
    status: Option<DestinationSyncStatus>,
    progress: Option<Seq<char>>,
    now: Moment,
    row: DestinationRow,
) -> bool {
    let outcome = match status {
        Some(s) => s.outcome,
        None => SyncOutcome::Never,
    };
    &&& row.id == destination.id
    &&& (row.glyph, row.tone) == appearance(outcome)
    &&& row.name@ == destination.name@
    &&& row.path@ == destination.path@
    &&& row.strategy is Some <==> !(destination.strategy is Move)
    &&& row.strategy matches Some(badge) ==> match destination.strategy {
        SyncStrategy::Mirror => badge.reads(
            Glyph::Sync,
            words.says(strings::ENUM_SYNC_STRATEGY_MIRROR as int),
            Tone::Quiet,
        ),
        _ => badge.reads(
            Glyph::Add,
            words.says(strings::ENUM_SYNC_STRATEGY_ADD_ONLY as int),
            Tone::Quiet,
        ),
    }
    &&& row.filter.reads(Glyph::Filter, filter_words(words, destination), Tone::Quiet)
    &&& row.status@ == match progress {
        Some(line) => line,
        None => status_words(words, status, now),
    }
    &&& row.review == (outcome is NeedsConfirmation)
}

/// The text behind a reference, if any.
pub open spec fn line_of(line: Option<&String>) -> Option<Seq<char>> {
    match line {
        Some(s) => Some(s@),
        None => None,
    }
}

/// What one destination's row shows.
pub fn destination_row(
    words: &Language,
    destination: &Destination,
    status: Option<&DestinationSyncStatus>,
    progress: Option<&String>,
    now: Moment,
) -> (r: DestinationRow)
    requires
        words.wf(),
    ensures
        is_row(*words, *destination, status_of(status), line_of(progress), now, r),
{
    let outcome = match status {
        Some(status) => status.outcome,
        None => SyncOutcome::Never,
    };
    let (glyph, tone) = outcome_appearance(outcome);
    DestinationRow {
        id: destination.id,
        glyph,
        tone,
        name: destination.name.clone(),
        path: destination.path.clone(),
        strategy: if destination.strategy != SyncStrategy::Move {
            Some(strategy_badge(words, destination.strategy))
        } else {
            None
        },
        filter: filter_badge(words, destination),
        status: match progress {
            Some(line) => line.clone(),
            None => status_text(words, status, now),
        },
        review: outcome == SyncOutcome::NeedsConfirmation,
    }
}

/// What a task's card shows.
#[derive(Debug, PartialEq, Eq)]
pub struct TaskCard {
    pub id: u128,
    pub expanded: bool,
    pub name: String,
    pub source: String,
    pub kind: BadgeFace,
    pub trigger: BadgeFace,
    pub next_run: Option<BadgeFace>,
    pub trigger_error: Option<BadgeFace>,
    pub health_glyph: Glyph,
    pub health_tone: Tone,
    pub health: String,
    /// Stop takes the place of Run while the task is running.
    pub running: bool,
    pub can_run: bool,
    pub add_hint: String,
    /// The rows beneath, while the card is open.
    pub rows: Vec<DestinationRow>,
}

/// What a card is drawn from besides its task.
#[derive(Debug)]
pub struct CardFacts<'a> {
    pub expanded: bool,
    pub statuses: &'a HashMap<u128, DestinationSyncStatus>,
    pub progress: &'a HashMap<u128, String>,
    /// Why the task will not run by itself, if it will not.
    pub trigger_error: Option<&'a String>,
    /// When the task's schedule next comes round, where it has one.
    pub next_run: Option<Moment>,
    pub now: Moment,
}

/// A destination's live progress line.
pub open spec fn live_line(progress: Map<u128, String>, id: u128) -> Option<Seq<char>> {
    if progress.contains_key(id) {
        Some(progress[id]@)
    } else {
        None
    }
}

/// How far ahead the next run is, where there is one.
pub open spec fn ahead(now: Moment, next_run: Option<Moment>) -> Option<Span> {
    match next_run {
        Some(next) => time::later_by(next, now),
        None => None,
    }
}

/// How far ahead the next run is, where there is one.
fn until_run(now: Moment, next_run: Option<Moment>) -> (r: Option<Span>)
    ensures
        r == ahead(now, next_run),
        r is Some ==> r->0.wf(),
{
    match next_run {
        Some(next) => since(next, now),
        None => None,
    }
}

/// The card is what a task's card shows.
pub open spec fn is_card(
    words: Language,
    task: SyncTask,
    facts: CardFacts,
    card: TaskCard,
) -> bool {
    let outcome = health::card_outcome(health::outcomes(task.destinations@, facts.statuses@));
    &&& card.id == task.id
    &&& card.expanded == facts.expanded
    &&& card.name@ == task.name@
    &&& card.source@ == task.source_path@
    &&& card.kind.reads(
        match task.kind {
            SyncTaskKind::Sync => Glyph::Sync,
            SyncTaskKind::Move => Glyph::Route,
        },
        words.says(
            match task.kind {
                SyncTaskKind::Sync => strings::ENUM_SYNC_TASK_KIND_SYNC as int,
                SyncTaskKind::Move => strings::ENUM_SYNC_TASK_KIND_MOVE as int,
            },
        ),
        Tone::Quiet,
    )
    &&& is_trigger_badge(words, task.trigger, card.trigger)
    &&& match (card.next_run, ahead(facts.now, facts.next_run)) {
        (Some(badge), Some(ahead)) => badge.reads(
            Glyph::Clock,
            i18n::said1(
                words,
                strings::TASK_NEXT_RUN_FORMAT as int,
                time::ahead_words(words, ahead),
            ),
            Tone::Primary,
        ),
        (None, None) => true,
        _ => false,
    }
    &&& match (card.trigger_error, line_of(facts.trigger_error)) {
        (Some(badge), Some(reason)) => {
            &&& badge.glyph == Glyph::Warning
            &&& badge.tone == Tone::Warning
            &&& badge.text@ == words.says(strings::TASK_TRIGGER_ERROR_BADGE as int)
            &&& badge.tooltip matches Some(tip) && tip@ == reason
        },
        (None, None) => true,
        _ => false,
    }
    &&& (card.health_glyph, card.health_tone) == appearance(outcome)
    &&& card.health@ == health::card_text(task.destinations@, facts.statuses@)
    &&& card.running == (outcome is Running)
    &&& card.can_run == (!(outcome is Running) && task.destinations@.len() > 0)
    &&& card.add_hint@ == words.says(
        match task.kind {
            SyncTaskKind::Move => strings::TASK_ADD_ROUTING_RULE_TIP as int,
            SyncTaskKind::Sync => strings::TASK_ADD_DESTINATION_TIP as int,
        },
    )
    &&& card.rows@.len() == if facts.expanded {
        task.destinations@.len()
    } else {
        0
    }
    &&& forall|i: int|
        0 <= i < card.rows@.len() ==> is_row(
            words,
            task.destinations@[i],
            recorded(facts.statuses@, task.destinations@[i].id),
            live_line(facts.progress@, task.destinations@[i].id),
            facts.now,
            #[trigger] card.rows@[i],
        )
}

/// What a task's card shows.
pub fn task_card(
    words: &Language,
    task: &SyncTask,
    facts: &CardFacts,
) -> (r: TaskCard)
    requires
        words.wf(),
    ensures
        is_card(*words, *task, *facts, r),
{
    broadcast use vstd::std_specs::hash::group_hash_axioms;

    let health = health_of(task, facts.statuses);
    let (health_glyph, health_tone) = outcome_appearance(health.outcome);
    let running = health.outcome == SyncOutcome::Running;
    let mut rows: Vec<DestinationRow> = Vec::new();
    if facts.expanded {
        let mut i: usize = 0;
        while i < task.destinations.len()
            invariant
                i <= task.destinations@.len(),
                words.wf(),
                rows@.len() == i,
                forall|k: int|
                    0 <= k < i ==> is_row(
                        *words,
                        task.destinations@[k],
                        recorded(facts.statuses@, task.destinations@[k].id),
                        live_line(facts.progress@, task.destinations@[k].id),
                        facts.now,
                        #[trigger] rows@[k],
                    ),
            decreases task.destinations@.len() - i,
        {
            let destination = &task.destinations[i];
            rows.push(
                destination_row(
                    words,
                    destination,
                    facts.statuses.get(&destination.id),
                    facts.progress.get(&destination.id),
                    facts.now,
                ),
            );
            i = i + 1;
        }
    }
    TaskCard {
        id: task.id,
        expanded: facts.expanded,
        name: task.name.clone(),
        source: task.source_path.clone(),
        kind: kind_badge(words, task.kind),
        trigger: trigger_badge(words, &task.trigger),
        next_run: match until_run(facts.now, facts.next_run) {
            Some(ahead) => Some(next_run_badge(words, ahead)),
            None => None,
        },
        trigger_error: match facts.trigger_error {
            Some(reason) => Some(trigger_error_badge(words, reason.as_str())),
            None => None,
        },
        health_glyph,
        health_tone,
        health: health.text,
        running,
        can_run: !running && task.destinations.len() > 0,
        add_hint: owned(add_destination_hint(words, task.kind)),
        rows,
    }
}

} // verus!
