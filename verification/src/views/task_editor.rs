//! Creating and editing a task: its name, its source, what it does, and what starts it.

use crate::components::icon::Glyph;
use crate::i18n;
use crate::i18n::{say1, text};
use crate::ids;
use crate::ids::fresh_id;
use crate::model;
use crate::model::{
    copy_destinations, copy_tasks, Destination, Moment, SyncTask, SyncTaskKind, TaskView, Trigger,
    TriggerView,
};
use crate::state::overlap;
use crate::state::overlap::source_conflict;
use crate::strings;
use crate::strings::Language;
use crate::text::{chars_of, owned, signed_decimal_text, trim};
use crate::views::time;
use vstd::prelude::*;

verus! {

/// Which of the three triggers is selected.
#[derive(Debug, Clone, Copy, PartialEq, Eq, Structural)]
pub enum TriggerChoice {
    Manual,
    Scheduled,
    Watch,
}

impl TriggerChoice {
    /// The choice that a trigger is.
    pub open spec fn chosen(trigger: TriggerView) -> TriggerChoice {
        match trigger {
            TriggerView::Manual => TriggerChoice::Manual,
            TriggerView::Scheduled(_) => TriggerChoice::Scheduled,
            TriggerView::Watch(_) => TriggerChoice::Watch,
        }
    }

    /// This choice's place among the three.
    pub open spec fn place(self) -> int {
        match self {
            TriggerChoice::Manual => 0,
            TriggerChoice::Scheduled => 1,
            TriggerChoice::Watch => 2,
        }
    }

    /// The choice that a trigger is.
    pub fn of(trigger: &Trigger) -> (r: Self)
        ensures
            r == TriggerChoice::chosen(trigger@),
    {
        match trigger {
            Trigger::Manual => TriggerChoice::Manual,
            Trigger::Scheduled { .. } => TriggerChoice::Scheduled,
            Trigger::Watch { .. } => TriggerChoice::Watch,
        }
    }

    /// The choice at `index`; anything past the last is manual.
    pub fn from_index(index: usize) -> (r: Self)
        ensures
            index < 3 ==> r.place() == index,
            index >= 3 ==> r == TriggerChoice::Manual,
    {
        match index {
            1 => TriggerChoice::Scheduled,
            2 => TriggerChoice::Watch,
            _ => TriggerChoice::Manual,
        }
    }

    /// This choice's place among the three.
    pub fn index(self) -> (r: usize)
        ensures
            r == self.place(),
    {
        match self {
            TriggerChoice::Manual => 0,
            TriggerChoice::Scheduled => 1,
            TriggerChoice::Watch => 2,
        }
    }
}

/// How long a watched source may be asked to stay quiet, in seconds.
#[derive(Debug, Clone, Copy, PartialEq, Eq, Structural)]
pub struct SettleLimits {
    pub default: i32,
    pub min: i32,
    pub max: i32,
}

/// What parsing a cron expression gave.
#[derive(Debug, PartialEq, Eq)]
pub enum CronVerdict {
    /// It will not parse.
    Invalid,
    /// It parses, and never comes round: `0 0 30 2 *` names the 30th of February.
    NeverOccurs,
    /// It next comes round then.
    Next(String),
}

impl CronVerdict {
    /// The schedule next comes round at this time, which is said to the minute. What is not a time
    /// never comes.
    pub fn next_at(next: Moment) -> (r: Self)
        ensures
            match time::written(next, time::TO_THE_MINUTE) {
                Some(text) => r matches CronVerdict::Next(when) && when@ == text,
                None => r is NeverOccurs,
            },
            time::is_dated(next) ==> r is Next,
    {
        match time::format_moment(next, time::TO_THE_MINUTE) {
            Some(when) => CronVerdict::Next(when),
            None => CronVerdict::NeverOccurs,
        }
    }
}

/// What the cron expression currently means.
#[derive(Debug, PartialEq, Eq)]
pub enum CronState {
    Empty,
    Invalid,
    NeverOccurs,
    Next(String),
}

/// A sign comes first.
pub open spec fn is_signed(typed: Seq<char>) -> bool {
    typed.len() > 0 && (typed[0] == '-' || typed[0] == '+')
}

/// What follows the sign, where there is one.
pub open spec fn unsigned(typed: Seq<char>) -> Seq<char> {
    if is_signed(typed) {
        typed.skip(1)
    } else {
        typed
    }
}

/// There is nothing but digits.
pub open spec fn only_digits(digits: Seq<char>) -> bool {
    forall|i: int| 0 <= i < digits.len() ==> i18n::is_digit(#[trigger] digits[i])
}

/// A whole number as it may be typed: an optional sign, then digits, within the range of `i32`.
pub open spec fn whole_number(typed: Seq<char>) -> Option<int> {
    let digits = unsigned(typed);
    let size = i18n::numeral(digits) as int;
    let value = if is_signed(typed) && typed[0] == '-' {
        -size
    } else {
        size
    };
    if digits.len() > 0 && only_digits(digits) && i32::MIN <= value && value <= i32::MAX {
        Some(value)
    } else {
        None
    }
}

/// A number kept within limits.
pub open spec fn clamped(value: int, limits: SettleLimits) -> int {
    if value < limits.min {
        limits.min as int
    } else if value > limits.max {
        limits.max as int
    } else {
        value
    }
}

/// A longer run of digits writes a number at least as large.
proof fn lemma_numeral_grows(digits: Seq<char>, n: int)
    requires
        0 <= n <= digits.len(),
        only_digits(digits),
    ensures
        i18n::numeral(digits.take(n)) <= i18n::numeral(digits),
    decreases digits.len(),
{
    if n == digits.len() {
        assert(digits.take(n) =~= digits);
    } else {
        let front = digits.drop_last();
        assert forall|k: int| 0 <= k < front.len() implies i18n::is_digit(#[trigger] front[k]) by {
            assert(front[k] == digits[k]);
        }
        lemma_numeral_grows(front, n);
        assert(front.take(n) =~= digits.take(n));
        assert(i18n::is_digit(digits[digits.len() - 1]));
    }
}

/// Reads a whole number as it may be typed.
pub fn parse_whole_number(typed: &str) -> (r: Option<i32>)
    ensures
        match r {
            Some(n) => whole_number(typed@) == Some(n as int),
            None => whole_number(typed@) is None,
        },
{
    let chars = chars_of(typed);
    let signed = chars.len() > 0 && (chars[0] == '-' || chars[0] == '+');
    let negative = signed && chars[0] == '-';
    let from: usize = if signed {
        1
    } else {
        0
    };
    let ghost digits = unsigned(typed@);
    proof {
        assert(digits =~= typed@.skip(from as int));
    }
    if chars.len() == from {
        return None;
    }
    // First that there is nothing but digits, so that a number too large is not mistaken for one.
    let mut k: usize = from;
    while k < chars.len()
        invariant
            from <= k <= chars@.len(),
            chars@ == typed@,
            digits == typed@.skip(from as int),
            digits == unsigned(typed@),
            forall|i: int| 0 <= i < k - from ==> i18n::is_digit(#[trigger] digits[i]),
        decreases chars@.len() - k,
    {
        if !('0' <= chars[k] && chars[k] <= '9') {
            proof {
                assert(digits[k - from] == chars@[k as int]);
                assert(!i18n::is_digit(digits[k - from]));
            }
            return None;
        }
        proof {
            assert(digits[k - from] == chars@[k as int]);
        }
        k = k + 1;
    }
    let mut size: i64 = 0;
    let mut i: usize = from;
    while i < chars.len()
        invariant
            from <= i <= chars@.len(),
            chars@ == typed@,
            digits == typed@.skip(from as int),
            digits == unsigned(typed@),
            only_digits(digits),
            size == i18n::numeral(digits.take(i - from)),
            0 <= size <= 0x8000_0000,
        decreases chars@.len() - i,
    {
        proof {
            assert(digits[i - from] == chars@[i as int]);
            assert(i18n::is_digit(digits[i - from]));
            assert(digits.take(i - from + 1).drop_last() =~= digits.take(i - from));
            assert(digits.take(i - from + 1).last() == chars@[i as int]);
        }
        size = size * 10 + (chars[i] as i64 - '0' as i64);
        i = i + 1;
        if size > 0x8000_0000 {
            proof {
                lemma_numeral_grows(digits, i - from);
            }
            return None;
        }
    }
    proof {
        assert(digits.take(digits.len() as int) =~= digits);
    }
    let value: i64 = if negative {
        -size
    } else {
        size
    };
    if value > 0x7fff_ffff {
        return None;
    }
    Some(value as i32)
}

/// What the editor is showing.
#[derive(Debug)]
pub struct TaskEditor {
    pub task_id: u128,
    /// Carried through untouched: destinations are edited in the workspace, not here.
    pub destinations: Vec<Destination>,
    /// The name as typed.
    pub name: String,
    /// The source folder as typed.
    pub source: String,
    /// The cron expression as typed.
    pub cron: String,
    /// The quiet period as typed.
    pub settle: String,
    pub kind: SyncTaskKind,
    /// A task's kind is chosen while it is empty and locked afterwards: a task that already has
    /// destinations cannot change what it is without emptying first.
    pub kind_locked: bool,
    pub trigger: TriggerChoice,
    /// Every task, for the source-overlap check. This one among them is set aside by its id.
    pub tasks: Vec<SyncTask>,
    pub limits: SettleLimits,
}

/// The quiet period a new editor shows.
pub open spec fn settle_shown(trigger: TriggerView, limits: SettleLimits) -> Seq<char> {
    match trigger {
        TriggerView::Watch(seconds) => crate::text::signed_decimal(seconds),
        _ => crate::text::signed_decimal(limits.default as int),
    }
}

/// The cron expression a new editor shows.
pub open spec fn cron_shown(trigger: TriggerView) -> Seq<char> {
    match trigger {
        TriggerView::Scheduled(expression) => expression,
        _ => Seq::empty(),
    }
}

impl TaskEditor {
    /// The editor shows a task as it stands.
    pub open spec fn shows(self, task: TaskView, tasks: Seq<SyncTask>) -> bool {
        &&& self.task_id == task.id
        &&& model::destination_views(self.destinations@) == task.destinations
        &&& self.name@ == task.name
        &&& self.source@ == task.source_path
        &&& self.cron@ == cron_shown(task.trigger)
        &&& self.settle@ == settle_shown(task.trigger, self.limits)
        &&& self.kind == task.kind
        &&& self.kind_locked == (task.destinations.len() > 0)
        &&& self.trigger == TriggerChoice::chosen(task.trigger)
        &&& model::task_views(self.tasks@) == model::task_views(tasks)
    }

    /// The name of the task this one's source would collide with, if any.
    pub open spec fn conflict(self, overlaps: Seq<bool>) -> Option<Seq<char>> {
        if crate::text::trimmed(self.source@).len() == 0 {
            None
        } else {
            overlap::source_conflict_name(self.tasks@, Some(self.task_id), overlaps)
        }
    }

    /// The schedule is one that can be saved, or none is asked for.
    pub open spec fn schedule_ok(self, verdict: CronVerdict) -> bool {
        self.trigger is Scheduled ==> crate::text::trimmed(self.cron@).len() > 0 && !(
        verdict is Invalid)
    }

    /// Save is available.
    pub open spec fn saveable(self, overlaps: Seq<bool>, verdict: CronVerdict) -> bool {
        &&& crate::text::trimmed(self.name@).len() > 0
        &&& crate::text::trimmed(self.source@).len() > 0
        &&& self.conflict(overlaps) is None
        &&& self.schedule_ok(verdict)
    }

    /// The quiet period to save.
    pub open spec fn settle_value(self) -> int {
        clamped(
            match whole_number(crate::text::trimmed(self.settle@)) {
                Some(n) => n,
                None => self.limits.default as int,
            },
            self.limits,
        )
    }

    /// The trigger to save.
    pub open spec fn saved_trigger(self) -> TriggerView {
        match self.trigger {
            TriggerChoice::Manual => TriggerView::Manual,
            TriggerChoice::Scheduled => TriggerView::Scheduled(crate::text::trimmed(self.cron@)),
            TriggerChoice::Watch => TriggerView::Watch(self.settle_value()),
        }
    }

    /// The task to save.
    pub open spec fn saved(self) -> TaskView {
        TaskView {
            id: self.task_id,
            name: crate::text::trimmed(self.name@),
            source_path: crate::text::trimmed(self.source@),
            trigger: self.saved_trigger(),
            destinations: model::destination_views(self.destinations@),
            kind: self.kind,
        }
    }

    /// A task that has not been named yet.
    pub open spec fn blank(id: u128) -> TaskView {
        TaskView {
            id,
            name: Seq::empty(),
            source_path: Seq::empty(),
            trigger: TriggerView::Manual,
            destinations: Seq::empty(),
            kind: SyncTaskKind::Sync,
        }
    }

    /// A brand-new task, under an identifier of its own.
    pub fn new_task(tasks: &Vec<SyncTask>, limits: SettleLimits) -> (r: Self)
        ensures
            ids::is_random(r.task_id),
            r.shows(TaskEditor::blank(r.task_id), tasks@),
            r.limits == limits,
    {
        TaskEditor::new_task_as(fresh_id(), tasks, limits)
    }

    /// A brand-new task, under the identifier given.
    pub fn new_task_as(id: u128, tasks: &Vec<SyncTask>, limits: SettleLimits) -> (r: Self)
        ensures
            r.shows(TaskEditor::blank(id), tasks@),
            r.limits == limits,
    {
        let blank = SyncTask {
            id,
            name: String::new(),
            source_path: String::new(),
            trigger: Trigger::Manual,
            destinations: Vec::new(),
            kind: SyncTaskKind::Sync,
        };
        proof {
            assert(blank@.destinations =~= Seq::empty());
            assert(blank@ == TaskEditor::blank(id));
        }
        TaskEditor::edit(&blank, tasks, limits)
    }

    /// An existing task, opened for editing.
    pub fn edit(task: &SyncTask, tasks: &Vec<SyncTask>, limits: SettleLimits) -> (r: Self)
        ensures
            r.shows(task@, tasks@),
            r.limits == limits,
    {
        let cron = match &task.trigger {
            Trigger::Scheduled { cron_expression } => cron_expression.clone(),
            _ => String::new(),
        };
        let settle = match &task.trigger {
            Trigger::Watch { settle_seconds } => signed_decimal_text(*settle_seconds as i128),
            _ => signed_decimal_text(limits.default as i128),
        };
        let destinations = copy_destinations(&task.destinations);
        proof {
            assert(task@.destinations.len() == task.destinations@.len());
        }
        TaskEditor {
            task_id: task.id,
            kind_locked: task.destinations.len() > 0,
            destinations,
            name: task.name.clone(),
            source: task.source_path.clone(),
            cron,
            settle,
            kind: task.kind,
            trigger: TriggerChoice::of(&task.trigger),
            tasks: copy_tasks(tasks),
            limits,
        }
    }

    /// The quiet period to save: what was typed, kept within limits; the usual one where it is
    /// not a number.
    pub fn settle_seconds(&self) -> (r: i32)
        ensures
            r == self.settle_value(),
    {
        let typed: i32 = match parse_whole_number(trim(self.settle.as_str()).as_str()) {
            Some(n) => n,
            None => self.limits.default,
        };
        if typed < self.limits.min {
            self.limits.min
        } else if typed > self.limits.max {
            self.limits.max
        } else {
            typed
        }
    }

    /// The name of the task this one's source would collide with, if any. `overlaps` answers for
    /// each task's source.
    pub fn source_conflict(&self, overlaps: &Vec<bool>) -> (r: Option<String>)
        requires
            overlaps@.len() == self.tasks@.len(),
        ensures
            match (r, self.conflict(overlaps@)) {
                (Some(a), Some(b)) => a@ == b,
                (None, None) => true,
                _ => false,
            },
    {
        if trim(self.source.as_str()).as_str().is_empty() {
            return None;
        }
        match source_conflict(&self.tasks, Some(self.task_id), overlaps) {
            Some(conflict) => Some(conflict.task_name),
            None => None,
        }
    }

    /// What the cron field has to say for itself, given what parsing it gave.
    pub fn cron_state(&self, verdict: &CronVerdict) -> (r: CronState)
        ensures
            r is Empty <==> crate::text::trimmed(self.cron@).len() == 0,
            !(r is Empty) ==> (r is Invalid <==> verdict is Invalid),
            !(r is Empty) ==> (r is NeverOccurs <==> verdict is NeverOccurs),
            r matches CronState::Next(when) ==> (verdict matches CronVerdict::Next(at) && when@
                == at@),
    {
        if trim(self.cron.as_str()).as_str().is_empty() {
            return CronState::Empty;
        }
        match verdict {
            CronVerdict::Invalid => CronState::Invalid,
            CronVerdict::NeverOccurs => CronState::NeverOccurs,
            CronVerdict::Next(when) => CronState::Next(when.clone()),
        }
    }

    /// True when Save should be available.
    pub fn can_save(&self, overlaps: &Vec<bool>, verdict: &CronVerdict) -> (r: bool)
        requires
            overlaps@.len() == self.tasks@.len(),
        ensures
            r == self.saveable(overlaps@, *verdict),
    {
        if trim(self.name.as_str()).as_str().is_empty() || trim(
            self.source.as_str(),
        ).as_str().is_empty() {
            return false;
        }
        if self.source_conflict(overlaps).is_some() {
            return false;
        }
        if self.trigger == TriggerChoice::Scheduled {
            match self.cron_state(verdict) {
                CronState::Next(_) => true,
                CronState::NeverOccurs => true,
                _ => false,
            }
        } else {
            true
        }
    }

    /// The task to save, when it can be. Its kind is always explicit: a saved task should never
    /// make the next load guess.
    pub fn save(&self, overlaps: &Vec<bool>, verdict: &CronVerdict) -> (r: Option<SyncTask>)
        requires
            overlaps@.len() == self.tasks@.len(),
        ensures
            r is Some <==> self.saveable(overlaps@, *verdict),
            r matches Some(task) ==> task@ == self.saved(),
    {
        if !self.can_save(overlaps, verdict) {
            return None;
        }
        let trigger = match self.trigger {
            TriggerChoice::Manual => Trigger::Manual,
            TriggerChoice::Scheduled => Trigger::Scheduled {
                cron_expression: trim(self.cron.as_str()),
            },
            TriggerChoice::Watch => Trigger::Watch { settle_seconds: self.settle_seconds() },
        };
        Some(
            SyncTask {
                id: self.task_id,
                name: trim(self.name.as_str()),
                source_path: trim(self.source.as_str()),
                trigger,
                destinations: copy_destinations(&self.destinations),
                kind: self.kind,
            },
        )
    }

    /// Chooses what the task does. A locked choice stays as it is.
    pub fn choose_kind(&mut self, kind: SyncTaskKind)
        ensures
            *final(self) == (TaskEditor {
                kind: if old(self).kind_locked {
                    old(self).kind
                } else {
                    kind
                },
                ..*old(self)
            }),
    {
        if !self.kind_locked {
            self.kind = kind;
        }
    }
}

/// How loud a notice is.
#[derive(Debug, Clone, Copy, PartialEq, Eq, Structural)]
pub enum NoticeTone {
    Neutral,
    Warning,
    Danger,
}

/// A sentence under a field.
#[derive(Debug, PartialEq, Eq)]
pub struct Notice {
    pub tone: NoticeTone,
    pub glyph: Option<Glyph>,
    pub text: String,
}

impl Notice {
    /// The notice says this.
    pub open spec fn says(self, tone: NoticeTone, glyph: Option<Glyph>, words: Seq<char>) -> bool {
        self.tone == tone && self.glyph == glyph && self.text@ == words
    }
}

/// What the trigger section shows.
#[derive(Debug, PartialEq, Eq)]
pub struct TriggerFace {
    /// Which of the three is chosen.
    pub choice: usize,
    /// What the cron field has to say, while a schedule is chosen.
    pub cron: Option<Notice>,
    /// Whether the quiet period is shown.
    pub settle: bool,
}

/// What the source field has to say.
#[derive(Debug, PartialEq, Eq)]
pub struct SourceFace {
    /// Another task has this source: the save is blocked.
    pub conflict: Option<Notice>,
    /// The folder is not there. Advisory: the user may be setting up ahead of the drive.
    pub missing: Option<Notice>,
}

impl TaskEditor {
    /// The cron field's notice.
    pub open spec fn cron_notice(
        self,
        words: Language,
        verdict: CronVerdict,
        notice: Notice,
    ) -> bool {
        if crate::text::trimmed(self.cron@).len() == 0 {
            notice.says(
                NoticeTone::Neutral,
                None,
                words.says(strings::TASK_EDITOR_CRON_FIELDS as int),
            )
        } else {
            match verdict {
                CronVerdict::Invalid => notice.says(
                    NoticeTone::Danger,
                    None,
                    words.says(strings::TASK_EDITOR_CRON_INVALID as int),
                ),
                CronVerdict::NeverOccurs => notice.says(
                    NoticeTone::Warning,
                    None,
                    words.says(strings::TASK_EDITOR_CRON_NO_UPCOMING as int),
                ),
                CronVerdict::Next(when) => notice.says(
                    NoticeTone::Neutral,
                    Some(Glyph::Clock),
                    i18n::said1(
                        words,
                        strings::TASK_EDITOR_CRON_NEXT_RUN_FORMAT as int,
                        when@,
                    ),
                ),
            }
        }
    }

    /// What the trigger section shows.
    pub fn trigger_face(&self, words: &Language, verdict: &CronVerdict) -> (r: TriggerFace)
        requires
            words.wf(),
        ensures
            r.choice == self.trigger.place(),
            r.cron is Some <==> self.trigger is Scheduled,
            r.cron matches Some(notice) ==> self.cron_notice(*words, *verdict, notice),
            r.settle == (self.trigger is Watch),
    {
        let cron = if self.trigger == TriggerChoice::Scheduled {
            Some(
                match self.cron_state(verdict) {
                    CronState::Empty => Notice {
                        tone: NoticeTone::Neutral,
                        glyph: None,
                        text: owned(text(words, strings::TASK_EDITOR_CRON_FIELDS)),
                    },
                    CronState::Invalid => Notice {
                        tone: NoticeTone::Danger,
                        glyph: None,
                        text: owned(text(words, strings::TASK_EDITOR_CRON_INVALID)),
                    },
                    CronState::NeverOccurs => Notice {
                        tone: NoticeTone::Warning,
                        glyph: None,
                        text: owned(text(words, strings::TASK_EDITOR_CRON_NO_UPCOMING)),
                    },
                    CronState::Next(when) => Notice {
                        tone: NoticeTone::Neutral,
                        glyph: Some(Glyph::Clock),
                        text: say1(
                            words,
                            strings::TASK_EDITOR_CRON_NEXT_RUN_FORMAT,
                            when.as_str(),
                        ),
                    },
                },
            )
        } else {
            None
        };
        TriggerFace {
            choice: self.trigger.index(),
            cron,
            settle: self.trigger == TriggerChoice::Watch,
        }
    }

    /// What the source field has to say. `exists` says whether the folder is there.
    pub fn source_face(
        &self,
        words: &Language,
        overlaps: &Vec<bool>,
        exists: bool,
    ) -> (r: SourceFace)
        requires
            words.wf(),
            overlaps@.len() == self.tasks@.len(),
        ensures
            match (r.conflict, self.conflict(overlaps@)) {
                (Some(notice), Some(name)) => notice.says(
                    NoticeTone::Danger,
                    None,
                    i18n::said1(
                        *words,
                        strings::TASK_EDITOR_SOURCE_OVERLAP_HINT_FORMAT as int,
                        name,
                    ),
                ),
                (None, None) => true,
                _ => false,
            },
            r.missing is Some <==> crate::text::trimmed(self.source@).len() > 0 && self.conflict(
                overlaps@,
            ) is None && !exists,
            r.missing matches Some(notice) ==> notice.says(
                NoticeTone::Warning,
                None,
                words.says(strings::TASK_EDITOR_MISSING_FOLDER_HINT as int),
            ),
    {
        let named = !trim(self.source.as_str()).as_str().is_empty();
        match self.source_conflict(overlaps) {
            Some(other) => SourceFace {
                conflict: Some(
                    Notice {
                        tone: NoticeTone::Danger,
                        glyph: None,
                        text: say1(
                            words,
                            strings::TASK_EDITOR_SOURCE_OVERLAP_HINT_FORMAT,
                            other.as_str(),
                        ),
                    },
                ),
                missing: None,
            },
            None => SourceFace {
                conflict: None,
                missing: if named && !exists {
                    Some(
                        Notice {
                            tone: NoticeTone::Warning,
                            glyph: None,
                            text: owned(text(words, strings::TASK_EDITOR_MISSING_FOLDER_HINT)),
                        },
                    )
                } else {
                    None
                },
            },
        }
    }
}

/// Saving a task keeps its identifier and its destinations: they are carried through untouched.
pub proof fn law_saving_carries_the_destinations_through(
    editor: TaskEditor,
    task: TaskView,
    tasks: Seq<SyncTask>,
)
    requires
        editor.shows(task, tasks),
    ensures
        editor.saved().id == task.id,
        editor.saved().destinations == task.destinations,
        editor.saved().kind == task.kind,
{
}

/// What is saved for a quiet period is always within the limits.
pub proof fn law_the_quiet_period_stays_within_limits(editor: TaskEditor)
    requires
        editor.limits.min <= editor.limits.max,
    ensures
        editor.limits.min <= editor.settle_value() <= editor.limits.max,
{
}

} // verus!
