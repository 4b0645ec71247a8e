//! The wording of the two destructive confirmations.

use crate::i18n;
use crate::i18n::{plural, say1, say2, text};
use crate::strings;
use crate::strings::Language;
use crate::text::owned;
use vstd::prelude::*;

verus! {

/// A confirmation the user asked for by clicking something destructive.
#[derive(Debug, PartialEq, Eq)]
pub struct Prompt {
    pub title: String,
    pub message: String,
    pub confirm_label: String,
    pub destructive: bool,
}

/// What deleting a task asks, with the count of what goes with it.
pub open spec fn delete_task_words(words: Language, name: Seq<char>, destinations: usize) -> Seq<
    char,
> {
    i18n::said2(
        words,
        strings::MAIN_DELETE_TASK_MESSAGE_FORMAT as int,
        name,
        i18n::counted(
            words,
            strings::MAIN_DELETE_TASK_SUFFIX_ONE as int,
            strings::MAIN_DELETE_TASK_SUFFIX_OTHER as int,
            destinations as i64 as int,
        ),
    )
}

impl Prompt {
    /// A question. It is about removing something unless told otherwise.
    pub fn new(title: &str, message: &str, confirm_label: &str) -> (r: Self)
        ensures
            r.title@ == title@,
            r.message@ == message@,
            r.confirm_label@ == confirm_label@,
            r.destructive,
    {
        Prompt {
            title: owned(title),
            message: owned(message),
            confirm_label: owned(confirm_label),
            destructive: true,
        }
    }

    /// Deleting a task, with the count of what goes with it.
    pub fn delete_task(words: &Language, name: &str, destinations: usize) -> (r: Self)
        requires
            words.wf(),
        ensures
            r.title@ == words.says(strings::MAIN_DELETE_TASK_TITLE as int),
            r.message@ == delete_task_words(*words, name@, destinations),
            r.confirm_label@ == words.says(strings::MAIN_DELETE_TASK_CONFIRM as int),
            r.destructive,
    {
        let suffix = plural(
            words,
            strings::MAIN_DELETE_TASK_SUFFIX_ONE,
            strings::MAIN_DELETE_TASK_SUFFIX_OTHER,
            destinations as i64,
        );
        let message = say2(
            words,
            strings::MAIN_DELETE_TASK_MESSAGE_FORMAT,
            name,
            suffix.as_str(),
        );
        Prompt::new(
            text(words, strings::MAIN_DELETE_TASK_TITLE),
            message.as_str(),
            text(words, strings::MAIN_DELETE_TASK_CONFIRM),
        )
    }

    /// Deleting one destination from a task.
    pub fn delete_destination(words: &Language, name: &str) -> (r: Self)
        requires
            words.wf(),
        ensures
            r.title@ == words.says(strings::TASK_DELETE_DESTINATION_TITLE as int),
            r.message@ == i18n::said1(
                *words,
                strings::TASK_DELETE_DESTINATION_MESSAGE_FORMAT as int,
                name@,
            ),
            r.confirm_label@ == words.says(strings::TASK_DELETE_DESTINATION_CONFIRM as int),
            r.destructive,
    {
        let message = say1(words, strings::TASK_DELETE_DESTINATION_MESSAGE_FORMAT, name);
        Prompt::new(
            text(words, strings::TASK_DELETE_DESTINATION_TITLE),
            message.as_str(),
            text(words, strings::TASK_DELETE_DESTINATION_CONFIRM),
        )
    }

    /// A confirmation that is not about removing anything.
    pub fn benign(self) -> (r: Self)
        ensures
            r == (Prompt { destructive: false, ..self }),
    {
        Prompt { destructive: false, ..self }
    }
}

} // verus!
