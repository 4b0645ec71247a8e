//! The mirror mass-delete confirmation.
//!
//! Closing it by the title bar means keep: the destructive answer is only ever given by pressing
//! the destructive button. And an approval covers this run only.

use crate::model::{DeleteMode, Destination};
use crate::text;
use crate::text::{clone_texts, concat2, concat3, decimal_text, owned};
use vstd::prelude::*;

verus! {

/// What the user decided.
#[derive(Debug, Clone, Copy, PartialEq, Eq, Structural)]
pub enum MirrorDeleteDecision {
    /// Go ahead, for this run only.
    Delete,
    /// Leave them. Also what closing the window means.
    Keep,
}

/// What happens to the confirmation window.
#[derive(Debug, Clone, Copy, PartialEq, Eq, Structural)]
pub enum WindowEvent {
    /// One of the buttons was pressed.
    Pressed(MirrorDeleteDecision),
    /// The window was closed by its title bar.
    Closed,
    /// The window could not be opened, so there is no way to ask.
    NotOpened,
}

/// What an event answers. "Could not ask" must never read as "yes".
pub open spec fn answer_of(event: WindowEvent) -> MirrorDeleteDecision {
    match event {
        WindowEvent::Pressed(decision) => decision,
        WindowEvent::Closed => MirrorDeleteDecision::Keep,
        WindowEvent::NotOpened => MirrorDeleteDecision::Keep,
    }
}

/// See the module docs.
#[derive(Debug)]
pub struct ConfirmMirrorDelete {
    pub destination_name: String,
    pub destination_path: String,
    pub recycle: bool,
    pub count: usize,
    pub sample: Vec<String>,
    /// The answer has been given. It is given once: the caller is holding a run that is waiting
    /// for it, and two answers would start two runs.
    pub answered: bool,
}

/// `1 file` / `128 files`.
pub open spec fn files_words(count: nat) -> Seq<char> {
    if count == 1 {
        "1 file"@
    } else {
        text::decimal(count) + " files"@
    }
}

/// `1 file` / `128 files`.
fn files(count: usize) -> (r: String)
    ensures
        r@ == files_words(count as nat),
{
    if count == 1 {
        owned("1 file")
    } else {
        concat2(decimal_text(count as u128).as_str(), " files")
    }
}

/// The answers a run of events hands to the caller.
pub open spec fn answers(answered: bool, events: Seq<WindowEvent>) -> Seq<MirrorDeleteDecision>
    decreases events.len(),
{
    if events.len() == 0 {
        Seq::empty()
    } else if answered {
        answers(true, events.skip(1))
    } else {
        seq![answer_of(events[0])] + answers(true, events.skip(1))
    }
}

impl ConfirmMirrorDelete {
    /// The confirmation for a destination that would lose `count` files, some of them named.
    pub fn new(destination: &Destination, count: usize, sample: &Vec<String>) -> (r: Self)
        ensures
            r.destination_name@ == destination.name@,
            r.destination_path@ == destination.path@,
            r.recycle == (destination.delete_mode is Recycle),
            r.count == count,
            text::texts(r.sample@) == text::texts(sample@),
            !r.answered,
    {
        ConfirmMirrorDelete {
            destination_name: destination.name.clone(),
            destination_path: destination.path.clone(),
            recycle: destination.delete_mode == DeleteMode::Recycle,
            count,
            sample: clone_texts(sample),
            answered: false,
        }
    }

    /// What to hand to the caller. Answering is a one-shot: the window closing behind it must not
    /// count as a second, quieter answer.
    pub fn decide(&mut self, event: WindowEvent) -> (r: Option<MirrorDeleteDecision>)
        ensures
            r == if old(self).answered {
                None
            } else {
                Some(answer_of(event))
            },
            *final(self) == (ConfirmMirrorDelete { answered: true, ..*old(self) }),
    {
        if self.answered {
            return None;
        }
        self.answered = true;
        Some(
            match event {
                WindowEvent::Pressed(decision) => decision,
                WindowEvent::Closed => MirrorDeleteDecision::Keep,
                WindowEvent::NotOpened => MirrorDeleteDecision::Keep,
            },
        )
    }

    /// Why the run stopped, in the words of what is about to happen to the files.
    pub fn explanation(&self) -> (r: String)
        ensures
            r@ == "Syncing \""@ + self.destination_name@ + if self.recycle {
                "\" would move "@ + files_words(self.count as nat)
                    + " to the Recycle Bin, because they are no longer in the source. That is more than this destination's threshold, so the run stopped to ask."@
            } else {
                "\" would permanently delete "@ + files_words(self.count as nat)
                    + ", because they are no longer in the source. That is more than this destination's threshold, so the run stopped to ask."@
            },
    {
        let files = files(self.count);
        let front = concat2("Syncing \"", self.destination_name.as_str());
        let rest = if self.recycle {
            concat3(
                "\" would move ",
                files.as_str(),
                " to the Recycle Bin, because they are no longer in the source. That is more than this destination's threshold, so the run stopped to ask.",
            )
        } else {
            concat3(
                "\" would permanently delete ",
                files.as_str(),
                ", because they are no longer in the source. That is more than this destination's threshold, so the run stopped to ask.",
            )
        };
        concat2(front.as_str(), rest.as_str())
    }

    /// What the destructive button says. A permanent delete has to name the number: it is the last
    /// chance to notice it.
    pub fn confirm_label(&self) -> (r: String)
        ensures
            r@ == if self.recycle {
                "Move to Recycle Bin"@
            } else {
                "Delete "@ + files_words(self.count as nat)
            },
    {
        if self.recycle {
            owned("Move to Recycle Bin")
        } else {
            concat2("Delete ", files(self.count).as_str())
        }
    }

    /// How many of the files are not named, in words; nothing when all of them are.
    pub fn hidden(&self) -> (r: Option<String>)
        ensures
            r is Some <==> self.count > self.sample@.len(),
            r matches Some(said) ==> said@ == "…and "@ + text::decimal(
                (self.count - self.sample@.len()) as nat,
            ) + " more."@,
    {
        let shown: usize = self.sample.len();
        if self.count <= shown {
            return None;
        }
        let hidden: usize = self.count - shown;
        Some(concat3("…and ", decimal_text(hidden as u128).as_str(), " more."))
    }
}

/// Whatever happens to the window, the caller is answered once, by the first thing that happens.
pub proof fn law_the_caller_is_answered_exactly_once(events: Seq<WindowEvent>)
    requires
        events.len() > 0,
    ensures
        answers(false, events) == seq![answer_of(events[0])],
{
    lemma_silent(events.skip(1));
    assert(answers(false, events) =~= seq![answer_of(events[0])]);
}

/// After the answer nothing more is said.
proof fn lemma_silent(events: Seq<WindowEvent>)
    ensures
        answers(true, events) == Seq::<MirrorDeleteDecision>::empty(),
    decreases events.len(),
{
    if events.len() > 0 {
        lemma_silent(events.skip(1));
    }
}

/// The destructive answer comes from the destructive button and from nothing else.
pub proof fn law_only_the_button_deletes(event: WindowEvent)
    ensures
        answer_of(event) is Delete <==> event == WindowEvent::Pressed(MirrorDeleteDecision::Delete),
{
}

} // verus!
