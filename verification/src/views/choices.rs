//! The choices the two editors offer, as cards and rows.

use crate::components::choice_card::ChoiceCard;
use crate::components::icon::Glyph;
use crate::components::segment::{Segment, SegmentOption};
use crate::i18n::text;
use crate::model::{DeleteMode, FileNameCollisionPolicy, SyncStrategy, SyncTaskKind};
use crate::strings;
use crate::strings::Language;
use crate::views::destination_editor::DestinationEditor;
use crate::views::task_editor::TaskEditor;
use vstd::prelude::*;

verus! {

/// A card that reads this.
pub open spec fn is_choice(
    words: Language,
    card: ChoiceCard,
    glyph: Glyph,
    title: usize,
    description: usize,
    selected: bool,
    disabled: bool,
) -> bool {
    &&& card.glyph == glyph
    &&& card.title@ == words.says(title as int)
    &&& card.description@ == words.says(description as int)
    &&& card.selected == selected
    &&& card.disabled == disabled
}

/// An entry of a row that reads this.
pub open spec fn is_entry(words: Language, option: SegmentOption, label: usize, glyph: Glyph) -> bool {
    option.label@ == words.says(label as int) && option.glyph == Some(glyph)
}

/// A card for one of a few choices.
fn choice(
    words: &Language,
    id: &str,
    glyph: Glyph,
    title: usize,
    description: usize,
    selected: bool,
    disabled: bool,
) -> (r: ChoiceCard)
    requires
        words.wf(),
        title < strings::COUNT,
        description < strings::COUNT,
    ensures
        r.id@ == id@,
        is_choice(*words, r, glyph, title, description, selected, disabled),
{
    ChoiceCard::new(id, glyph, text(words, title), text(words, description)).selected(
        selected,
    ).disabled(disabled)
}

/// A row of two entries, of which the first or the second is taken.
fn pair(
    words: &Language,
    id: &str,
    first: (usize, Glyph),
    second: (usize, Glyph),
    takes_second: bool,
) -> (r: Segment)
    requires
        words.wf(),
        first.0 < strings::COUNT,
        second.0 < strings::COUNT,
    ensures
        r.id@ == id@,
        r.options@.len() == 2,
        is_entry(*words, r.options@[0], first.0, first.1),
        is_entry(*words, r.options@[1], second.0, second.1),
        r.selected == if takes_second {
            1int
        } else {
            0int
        },
        !r.small,
        !r.wrap,
{
    let mut options: Vec<SegmentOption> = Vec::new();
    options.push(SegmentOption::new(text(words, first.0)).glyph(first.1));
    options.push(SegmentOption::new(text(words, second.0)).glyph(second.1));
    let selected: usize = if takes_second {
        1
    } else {
        0
    };
    Segment::new(id, options, selected)
}

impl TaskEditor {
    /// What the task does: sync, or move. Both cards are locked once there is a destination.
    pub fn kind_cards(&self, words: &Language) -> (r: (ChoiceCard, ChoiceCard))
        requires
            words.wf(),
        ensures
            is_choice(
                *words,
                r.0,
                Glyph::Sync,
                strings::ENUM_SYNC_TASK_KIND_SYNC,
                strings::TASK_EDITOR_KIND_SYNC_DESC,
                self.kind is Sync,
                self.kind_locked,
            ),
            is_choice(
                *words,
                r.1,
                Glyph::Route,
                strings::ENUM_SYNC_TASK_KIND_MOVE,
                strings::TASK_EDITOR_KIND_MOVE_DESC,
                self.kind is Move,
                self.kind_locked,
            ),
    {
        (
            choice(
                words,
                "kind-sync",
                Glyph::Sync,
                strings::ENUM_SYNC_TASK_KIND_SYNC,
                strings::TASK_EDITOR_KIND_SYNC_DESC,
                self.kind == SyncTaskKind::Sync,
                self.kind_locked,
            ),
            choice(
                words,
                "kind-move",
                Glyph::Route,
                strings::ENUM_SYNC_TASK_KIND_MOVE,
                strings::TASK_EDITOR_KIND_MOVE_DESC,
                self.kind == SyncTaskKind::Move,
                self.kind_locked,
            ),
        )
    }

    /// What starts the task.
    pub fn trigger_row(&self, words: &Language) -> (r: Segment)
        requires
            words.wf(),
        ensures
            r.options@.len() == 3,
            is_entry(*words, r.options@[0], strings::TASK_TRIGGER_MANUAL, Glyph::Manual),
            is_entry(*words, r.options@[1], strings::TASK_EDITOR_TRIGGER_SCHEDULED, Glyph::Clock),
            is_entry(*words, r.options@[2], strings::TASK_EDITOR_TRIGGER_WATCH, Glyph::Eye),
            r.selected == self.trigger.place(),
    {
        let mut options: Vec<SegmentOption> = Vec::new();
        options.push(
            SegmentOption::new(text(words, strings::TASK_TRIGGER_MANUAL)).glyph(Glyph::Manual),
        );
        options.push(
            SegmentOption::new(text(words, strings::TASK_EDITOR_TRIGGER_SCHEDULED)).glyph(
                Glyph::Clock,
            ),
        );
        options.push(
            SegmentOption::new(text(words, strings::TASK_EDITOR_TRIGGER_WATCH)).glyph(Glyph::Eye),
        );
        Segment::new("trigger", options, self.trigger.index())
    }
}

impl DestinationEditor {
    /// How the destination is reconciled: mirror, or add only.
    pub fn strategy_cards(&self, words: &Language) -> (r: (ChoiceCard, ChoiceCard))
        requires
            words.wf(),
        ensures
            is_choice(
                *words,
                r.0,
                Glyph::Sync,
                strings::ENUM_SYNC_STRATEGY_MIRROR,
                strings::DEST_EDITOR_MIRROR_DESC2,
                self.strategy is Mirror,
                false,
            ),
            is_choice(
                *words,
                r.1,
                Glyph::Add,
                strings::ENUM_SYNC_STRATEGY_ADD_ONLY,
                strings::DEST_EDITOR_ADD_ONLY_DESC,
                self.strategy is AddOnly,
                false,
            ),
    {
        (
            choice(
                words,
                "strategy-mirror",
                Glyph::Sync,
                strings::ENUM_SYNC_STRATEGY_MIRROR,
                strings::DEST_EDITOR_MIRROR_DESC2,
                self.strategy == SyncStrategy::Mirror,
                false,
            ),
            choice(
                words,
                "strategy-add-only",
                Glyph::Add,
                strings::ENUM_SYNC_STRATEGY_ADD_ONLY,
                strings::DEST_EDITOR_ADD_ONLY_DESC,
                self.strategy == SyncStrategy::AddOnly,
                false,
            ),
        )
    }

    /// Where a moved file lands: in the source's tree, or all in one folder.
    pub fn layout_row(&self, words: &Language) -> (r: Segment)
        requires
            words.wf(),
        ensures
            r.options@.len() == 2,
            is_entry(*words, r.options@[0], strings::DEST_EDITOR_KEEP_STRUCTURE, Glyph::Tree),
            is_entry(*words, r.options@[1], strings::DEST_EDITOR_FLATTEN, Glyph::Folder),
            r.selected == if self.flatten {
                1int
            } else {
                0int
            },
    {
        pair(
            words,
            "move-layout",
            (strings::DEST_EDITOR_KEEP_STRUCTURE, Glyph::Tree),
            (strings::DEST_EDITOR_FLATTEN, Glyph::Folder),
            self.flatten,
        )
    }

    /// What happens when two moved files share a name.
    pub fn collision_row(&self, words: &Language) -> (r: Segment)
        requires
            words.wf(),
        ensures
            r.options@.len() == 2,
            is_entry(
                *words,
                r.options@[0],
                strings::ENUM_FILE_NAME_COLLISION_POLICY_SKIP,
                Glyph::Remove,
            ),
            is_entry(
                *words,
                r.options@[1],
                strings::ENUM_FILE_NAME_COLLISION_POLICY_SUFFIX,
                Glyph::Copy,
            ),
            r.selected == if self.collision is Suffix {
                1int
            } else {
                0int
            },
    {
        pair(
            words,
            "collision",
            (strings::ENUM_FILE_NAME_COLLISION_POLICY_SKIP, Glyph::Remove),
            (strings::ENUM_FILE_NAME_COLLISION_POLICY_SUFFIX, Glyph::Copy),
            self.collision == FileNameCollisionPolicy::Suffix,
        )
    }

    /// Where deleted files go.
    pub fn delete_mode_row(&self, words: &Language) -> (r: Segment)
        requires
            words.wf(),
        ensures
            r.options@.len() == 2,
            is_entry(*words, r.options@[0], strings::ENUM_DELETE_MODE_RECYCLE, Glyph::Recycle),
            is_entry(*words, r.options@[1], strings::ENUM_DELETE_MODE_PERMANENT, Glyph::Trash),
            r.selected == if self.delete_mode is Permanent {
                1int
            } else {
                0int
            },
    {
        pair(
            words,
            "delete-mode",
            (strings::ENUM_DELETE_MODE_RECYCLE, Glyph::Recycle),
            (strings::ENUM_DELETE_MODE_PERMANENT, Glyph::Trash),
            self.delete_mode == DeleteMode::Permanent,
        )
    }

    /// Chooses where a moved file lands. The second choice is one folder for all.
    pub fn choose_layout(&mut self, choice: usize)
        ensures
            *final(self) == (DestinationEditor { flatten: choice == 1, ..*old(self) }),
    {
        self.flatten = choice == 1;
    }
}

} // verus!
