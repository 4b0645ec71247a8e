//! What the forms for a task and for the settings take from what was typed.

use crate::components::icon::Glyph;
use crate::i18n;
use crate::i18n_laws;
use crate::model;
use crate::model::{SettingsModel, SyncTask, SyncTaskKind, TaskView, TriggerView};
use crate::search;
use crate::state::overlap_laws;
use crate::strings;
use crate::strings::Language;
use crate::text;
use crate::text_laws;
use crate::views::settings;
use crate::views::settings::LanguageOption;
use crate::views::task_editor;
use crate::views::task_editor::{
    CronVerdict, Notice, NoticeTone, SettleLimits, TaskEditor, TriggerChoice,
};
use vstd::prelude::*;

verus! {

/// Nothing but digits, and at least one.
pub open spec fn is_count(typed: Seq<char>) -> bool {
    typed.len() > 0 && forall|i: int| 0 <= i < typed.len() ==> '0' <= #[trigger] typed[i] <= '9'
}

/// A run of digits is read as what it is worth, with or without a sign, and as nothing where that
/// does not fit.
pub proof fn law_digits_are_read_as_what_they_are_worth(digits: Seq<char>)
    requires
        is_count(digits),
    ensures
        ({
            let n = text_laws::worth(digits);
            &&& task_editor::whole_number(digits) == if n <= 0x7fff_ffff {
                Some(n)
            } else {
                None
            }
            &&& task_editor::whole_number(seq!['+'] + digits) == if n <= 0x7fff_ffff {
                Some(n)
            } else {
                None
            }
            &&& task_editor::whole_number(seq!['-'] + digits) == if n <= 0x8000_0000 {
                Some(-n)
            } else {
                None
            }
        }),
{
    i18n_laws::lemma_numeral_is_worth(digits);
    assert(digits[0] != '-' && digits[0] != '+');
    assert((seq!['+'] + digits).skip(1) =~= digits);
    assert((seq!['-'] + digits).skip(1) =~= digits);
}

/// Whatever is read as a number is digits, after a sign or none.
pub proof fn law_only_digits_are_read_as_a_number(typed: Seq<char>)
    requires
        task_editor::whole_number(typed) is Some,
    ensures
        is_count(typed) || (typed.len() > 0 && (typed[0] == '-' || typed[0] == '+') && is_count(
            typed.skip(1),
        )),
{
    let digits = task_editor::unsigned(typed);
    assert forall|i: int| 0 <= i < digits.len() implies '0' <= #[trigger] digits[i] <= '9' by {
        assert(i18n::is_digit(digits[i]));
    }
}

/// A number that was written out is read as itself.
pub proof fn law_a_written_number_is_read_as_itself(n: int)
    requires
        i32::MIN <= n <= i32::MAX,
    ensures
        task_editor::whole_number(text::signed_decimal(n)) == Some(n),
{
    let size = if n < 0 {
        (-n) as nat
    } else {
        n as nat
    };
    text_laws::law_a_number_reads_back(size);
    law_digits_are_read_as_what_they_are_worth(text::decimal(size));
}

/// A quiet period within the limits is kept, and one outside them gives way to the nearer one.
pub proof fn law_a_quiet_period_is_moved_to_the_nearer_limit(value: int, limits: SettleLimits)
    requires
        limits.min <= limits.max,
    ensures
        limits.min <= value <= limits.max ==> task_editor::clamped(value, limits) == value,
        value < limits.min ==> task_editor::clamped(value, limits) == limits.min,
        value > limits.max ==> task_editor::clamped(value, limits) == limits.max,
{
}

/// A quiet period that is no number is the default.
pub proof fn law_a_quiet_period_that_is_no_number_is_the_default(editor: TaskEditor)
    requires
        task_editor::whole_number(text::trimmed(editor.settle@)) is None,
        editor.limits.min <= editor.limits.default <= editor.limits.max,
    ensures
        editor.settle_value() == editor.limits.default,
{
}

/// Text that neither begins nor ends in white space is left as it is.
proof fn lemma_trimmed_already(text: Seq<char>)
    requires
        text.len() > 0 ==> !text::is_white(text[0]) && !text::is_white(text.last()),
    ensures
        text::trimmed(text) == text,
{
}

/// There is no white space around a number.
proof fn lemma_a_number_is_trimmed(n: int)
    ensures
        text::trimmed(text::signed_decimal(n)) == text::signed_decimal(n),
{
    let size = if n < 0 {
        (-n) as nat
    } else {
        n as nat
    };
    let said = text::signed_decimal(n);
    text_laws::law_a_number_reads_back(size);
    let digits = text::decimal(size);
    assert('0' <= digits[digits.len() - 1] <= '9');
    assert(said.last() == digits[digits.len() - 1]);
    assert(said[0] == '-' || said[0] == digits[0]);
    lemma_trimmed_already(said);
}

/// Saving a form that nobody touched gives back the task it was opened on, where nothing in that
/// task is padded with white space and its quiet period is within the limits.
pub proof fn law_an_untouched_form_saves_the_same_task(
    editor: TaskEditor,
    task: TaskView,
    tasks: Seq<SyncTask>,
)
    requires
        editor.shows(task, tasks),
        text::trimmed(task.name) == task.name,
        text::trimmed(task.source_path) == task.source_path,
        task.trigger matches TriggerView::Scheduled(expression) ==> text::trimmed(expression)
            == expression,
        task.trigger matches TriggerView::Watch(seconds) ==> editor.limits.min <= seconds
            <= editor.limits.max,
    ensures
        editor.saved() == task,
{
    match task.trigger {
        TriggerView::Watch(seconds) => {
            lemma_a_number_is_trimmed(seconds);
            law_a_written_number_is_read_as_itself(seconds);
        },
        _ => {},
    }
}

/// What is saved is what was typed, without the white space around it, and the trigger that was
/// chosen.
pub proof fn law_what_was_typed_is_saved(editor: TaskEditor)
    ensures
        editor.saved().id == editor.task_id,
        editor.saved().name == text::trimmed(editor.name@),
        editor.saved().source_path == text::trimmed(editor.source@),
        editor.saved().kind == editor.kind,
        editor.saved().destinations == model::destination_views(editor.destinations@),
        editor.trigger is Manual ==> editor.saved().trigger is Manual,
        editor.trigger is Scheduled ==> editor.saved().trigger == TriggerView::Scheduled(
            text::trimmed(editor.cron@),
        ),
        editor.trigger is Watch ==> editor.saved().trigger == TriggerView::Watch(
            editor.settle_value(),
        ),
{
}

/// A form can be saved exactly when it has a name, a source that no other task shares, and, where
/// it runs on a schedule, a cron expression that is not refused.
pub proof fn law_a_form_is_saved_exactly_when_nothing_is_wrong(
    editor: TaskEditor,
    overlaps: Seq<bool>,
    verdict: CronVerdict,
)
    ensures
        editor.saveable(overlaps, verdict) <==> {
            &&& text::trimmed(editor.name@).len() > 0
            &&& text::trimmed(editor.source@).len() > 0
            &&& forall|i: int|
                !(#[trigger] overlap_laws::other_source(
                    editor.tasks@,
                    Some(editor.task_id),
                    overlaps,
                    i,
                ))
            &&& !(editor.trigger is Scheduled) || (text::trimmed(editor.cron@).len() > 0 && !(
            verdict is Invalid))
        },
{
    overlap_laws::law_a_source_conflict_names_the_first_task_that_shares_the_source(
        editor.tasks@,
        Some(editor.task_id),
        overlaps,
    );
}

/// A source that was left empty conflicts with nothing; any other with the first task that shares
/// it.
pub proof fn law_an_empty_source_conflicts_with_nothing(editor: TaskEditor, overlaps: Seq<bool>)
    ensures
        text::trimmed(editor.source@).len() == 0 ==> editor.conflict(overlaps) is None,
        editor.conflict(overlaps) matches Some(name) ==> exists|i: int|
            {
                &&& #[trigger] overlap_laws::other_source(
                    editor.tasks@,
                    Some(editor.task_id),
                    overlaps,
                    i,
                )
                &&& name == editor.tasks@[i].name@
            },
{
    overlap_laws::law_a_source_conflict_names_the_first_task_that_shares_the_source(
        editor.tasks@,
        Some(editor.task_id),
        overlaps,
    );
}

/// A form shows the task it was opened on; its kind is fixed once the task has a destination.
pub proof fn law_a_form_shows_its_task(editor: TaskEditor, task: TaskView, tasks: Seq<SyncTask>)
    requires
        editor.shows(task, tasks),
    ensures
        editor.task_id == task.id,
        editor.name@ == task.name,
        editor.source@ == task.source_path,
        editor.kind == task.kind,
        editor.kind_locked <==> task.destinations.len() > 0,
        model::destination_views(editor.destinations@) == task.destinations,
        model::task_views(editor.tasks@) == model::task_views(tasks),
        match task.trigger {
            TriggerView::Manual => editor.trigger is Manual && editor.cron@.len() == 0
                && editor.settle@ == text::signed_decimal(editor.limits.default as int),
            TriggerView::Scheduled(expression) => editor.trigger is Scheduled && editor.cron@
                == expression && editor.settle@ == text::signed_decimal(
                editor.limits.default as int,
            ),
            TriggerView::Watch(seconds) => editor.trigger is Watch && editor.cron@.len() == 0
                && editor.settle@ == text::signed_decimal(seconds),
        },
{
}

/// The three triggers stand side by side in this order.
pub proof fn law_each_trigger_has_its_place(choice: TriggerChoice)
    ensures
        choice is Manual <==> choice.place() == 0,
        choice is Scheduled <==> choice.place() == 1,
        choice is Watch <==> choice.place() == 2,
{
}

/// A new task is empty and runs by hand.
pub proof fn law_a_new_task_is_empty(id: u128)
    ensures
        TaskEditor::blank(id).id == id,
        TaskEditor::blank(id).name.len() == 0,
        TaskEditor::blank(id).source_path.len() == 0,
        TaskEditor::blank(id).trigger is Manual,
        TaskEditor::blank(id).destinations.len() == 0,
        TaskEditor::blank(id).kind == SyncTaskKind::Sync,
{
}

/// A schedule is explained where nothing was typed, is in red where it cannot be read, is a
/// warning where it never comes, and otherwise says when it comes next.
pub proof fn law_a_schedule_is_answered(
    editor: TaskEditor,
    words: Language,
    verdict: CronVerdict,
    notice: Notice,
)
    requires
        editor.cron_notice(words, verdict, notice),
    ensures
        ({
            let typed = text::trimmed(editor.cron@).len() > 0;
            &&& notice.tone is Danger <==> typed && verdict is Invalid
            &&& notice.tone is Warning <==> typed && verdict is NeverOccurs
            &&& notice.glyph == if typed && verdict is Next {
                Some(Glyph::Clock)
            } else {
                None
            }
            &&& !typed ==> notice.text@ == words.says(strings::TASK_EDITOR_CRON_FIELDS as int)
            &&& typed && verdict is Invalid ==> notice.text@ == words.says(
                strings::TASK_EDITOR_CRON_INVALID as int,
            )
            &&& typed && verdict is NeverOccurs ==> notice.text@ == words.says(
                strings::TASK_EDITOR_CRON_NO_UPCOMING as int,
            )
            &&& typed ==> (verdict matches CronVerdict::Next(when) ==> notice.text@
                == i18n::said1(
                words,
                strings::TASK_EDITOR_CRON_NEXT_RUN_FORMAT as int,
                when@,
            ))
        }),
{
}

/// A notice has the tone, the drawing and the words it is said to have.
pub proof fn law_a_notice_says_all_three(
    notice: Notice,
    tone: NoticeTone,
    glyph: Option<Glyph>,
    words: Seq<char>,
)
    ensures
        notice.says(tone, glyph, words) <==> notice.tone == tone && notice.glyph == glyph
            && notice.text@ == words,
{
}

/// The system's own language stands first, without a tag, and then each language that ships, in
/// order.
pub proof fn law_the_system_language_is_offered_first(
    words: Language,
    languages: Seq<Language>,
    index: int,
    option: LanguageOption,
)
    requires
        0 <= index <= languages.len(),
        settings::is_option(words, languages, index, option),
    ensures
        index == 0 ==> option.value@.len() == 0 && option.label@ == words.says(
            strings::SETTINGS_SYSTEM_DEFAULT as int,
        ),
        index > 0 ==> option.value@ == languages[index - 1].tag@ && option.label@
            == languages[index - 1].name@,
        option.value@ == settings::option_value(languages, index),
{
    assert(settings::option_value(languages, 0) =~= Seq::<char>::empty());
    if index == 0 {
        assert(option.value@ =~= settings::option_value(languages, index));
    }
}

/// What is stored is what is selected: the first language of that tag. Nothing stored, or a tag
/// that does not ship, is the system's own.
pub proof fn law_the_stored_language_is_selected(
    languages: Seq<Language>,
    stored: SettingsModel,
)
    ensures
        ({
            let selected = settings::selected_option(languages, stored);
            &&& 0 <= selected <= languages.len()
            &&& stored.language is None ==> selected == 0
            &&& stored.language matches Some(tag) ==> {
                &&& selected > 0 ==> languages[selected - 1].tag@ == tag && forall|k: int|
                    0 <= k < selected - 1 ==> (#[trigger] languages[k]).tag@ != tag
                &&& selected == 0 && tag.len() > 0 ==> forall|k: int|
                    0 <= k < languages.len() ==> (#[trigger] languages[k]).tag@ != tag
            }
        }),
{
    let n = (languages.len() + 1) as nat;
    let holds = settings::is_stored(languages, stored);
    search::lemma_first(n, holds);
    let selected = settings::selected_option(languages, stored);
    if stored.language is None {
        assert(holds(0));
        if selected > 0 {
            assert(!holds(0));
        }
    } else {
        let tag = stored.language->0;
        if selected > 0 {
            assert(holds(selected));
            assert forall|k: int| 0 <= k < selected - 1 implies (#[trigger] languages[k]).tag@
                != tag by {
                assert(!holds(k + 1));
            }
        } else if tag.len() > 0 {
            assert(!holds(0));
            assert forall|k: int| 0 <= k < languages.len() implies (#[trigger] languages[k]).tag@
                != tag by {
                if search::first(n, holds) is Some {
                    assert(holds(0));
                }
                assert(!holds(k + 1));
            }
        }
    }
}

/// Picking the first option pins nothing; picking another pins its tag.
pub proof fn law_picking_a_language_pins_its_tag(languages: Seq<Language>, index: int)
    requires
        0 <= index <= languages.len(),
    ensures
        index == 0 ==> settings::pinned(languages, index) is None,
        index > 0 && languages[index - 1].tag@.len() > 0 ==> settings::pinned(languages, index)
            == Some(languages[index - 1].tag@),
        index > 0 && languages[index - 1].tag@.len() == 0 ==> settings::pinned(
            languages,
            index,
        ) is None,
{
}

} // verus!
