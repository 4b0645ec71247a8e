//! Adding and editing a destination: where files go, which ones, and how they are reconciled.
//!
//! Every destination edit goes through the task workspace, so the editor holds its fields and
//! nothing else; the row it opens inside owns what happens to the result.

use crate::i18n;
use crate::i18n::{say1, text};
use crate::model;
use crate::model::{
    copy_tasks, DeleteMode, Destination, DestinationView, FileNameCollisionPolicy, SyncStrategy,
    SyncTask, SyncTaskKind,
};
use crate::rules;
use crate::rules::{FilterRule, RuleView};
use crate::search;
use crate::state::filters::{EntryView, FilterEntry, FilterKind, FilterModel, ModelView};
use crate::state::overlap;
use crate::state::overlap::destination_conflict;
use crate::strings;
use crate::strings::Language;
use crate::text::{owned, trim};
use vstd::prelude::*;

verus! {

/// What the editor is showing.
#[derive(Debug)]
pub struct DestinationEditor {
    pub destination_id: u128,
    pub task_id: u128,
    /// A Move task's destinations are routing rules and are always Move; the choice is hidden.
    pub task_kind: SyncTaskKind,
    pub source_path: String,
    /// The "everything else" rule. It takes whatever the rules above it left, so there is no file
    /// selection to edit.
    pub catch_all: bool,
    /// The rows beside this one in the workspace, which are not on the task yet.
    pub siblings: Vec<Destination>,
    /// The name as typed.
    pub name: String,
    /// The folder as typed.
    pub path: String,
    /// The threshold as typed, in percent.
    pub threshold: String,
    /// One "new rule" field per group.
    pub group_inputs: Vec<String>,
    pub group_kinds: Vec<FilterKind>,
    pub strategy: SyncStrategy,
    pub verify_contents: bool,
    pub delete_mode: DeleteMode,
    pub flatten: bool,
    pub collision: FileNameCollisionPolicy,
    pub confirm_large_deletions: bool,
    pub filters: FilterModel,
    /// Every task, for the overlap check.
    pub tasks: Vec<SyncTask>,
}

/// What the file system says about the folder an editor names.
#[derive(Debug)]
pub struct OverlapProbe {
    /// It overlaps the task's source.
    pub source: bool,
    /// It overlaps each of the rows beside this one.
    pub siblings: Vec<bool>,
    /// It overlaps each destination of each task.
    pub destinations: Vec<Vec<bool>>,
}

impl OverlapProbe {
    /// The probe answers everything the editor asks.
    pub open spec fn fits(self, editor: DestinationEditor) -> bool {
        &&& self.siblings@.len() == editor.siblings@.len()
        &&& overlap::covers_destinations(self.destinations@, editor.tasks@)
    }
}

/// The last name of a folder, where it has one.
pub open spec fn leaf_name(leaf: Option<&str>) -> Option<Seq<char>> {
    match leaf {
        Some(name) => Some(name@),
        None => None,
    }
}

/// A row beside this one overlaps.
pub open spec fn sibling_clash(
    editor: DestinationEditor,
    probe: OverlapProbe,
) -> spec_fn(int) -> bool {
    |i: int| editor.siblings@[i].id != editor.destination_id && probe.siblings@[i]
}

impl DestinationEditor {
    /// Every group has its kind and its "new rule" field.
    pub open spec fn wf(self) -> bool {
        &&& self.group_kinds@.len() == self.group_inputs@.len()
        &&& self.filters.groups@.len() <= self.group_kinds@.len()
        &&& self.group_kinds@.len() > 0
    }

    /// Everything but the file selection and the fields it is typed in is the same.
    pub open spec fn same_but_filters(self, other: DestinationEditor) -> bool {
        &&& self.destination_id == other.destination_id
        &&& self.task_id == other.task_id
        &&& self.task_kind == other.task_kind
        &&& self.source_path == other.source_path
        &&& self.catch_all == other.catch_all
        &&& self.siblings == other.siblings
        &&& self.name == other.name
        &&& self.path == other.path
        &&& self.threshold == other.threshold
        &&& self.strategy == other.strategy
        &&& self.verify_contents == other.verify_contents
        &&& self.delete_mode == other.delete_mode
        &&& self.flatten == other.flatten
        &&& self.collision == other.collision
        &&& self.confirm_large_deletions == other.confirm_large_deletions
        &&& self.tasks == other.tasks
    }

    /// The folder, without the white space around it.
    pub open spec fn folder(self) -> Seq<char> {
        crate::text::trimmed(self.path@)
    }

    /// The file selection is shown. Mirror's contract is tree identity, which a filtered subset
    /// contradicts; the catch-all takes what the rules above it left.
    pub open spec fn selects_files(self) -> bool {
        !(self.strategy is Mirror) && !self.catch_all
    }

    /// The name to save: what was typed, else the folder's own name, else the folder.
    pub open spec fn saved_name(self, leaf: Option<Seq<char>>) -> Seq<char> {
        let typed = crate::text::trimmed(self.name@);
        if typed.len() > 0 {
            typed
        } else {
            match leaf {
                Some(name) => name,
                None => self.folder(),
            }
        }
    }

    /// Why the folder clashes with another destination, if it does: first with a row beside this
    /// one, then with another task's.
    ///
    /// With rows beside it the whole owning task is set aside, because its saved destinations are
    /// exactly those rows. Without them the saved list is the only sibling list there is.
    pub open spec fn clash(self, words: Language, probe: OverlapProbe) -> Option<Seq<char>> {
        match search::first(self.siblings@.len(), sibling_clash(self, probe)) {
            Some(i) => Some(
                i18n::said1(
                    words,
                    strings::DEST_EDITOR_SIBLING_OVERLAP_HINT_FORMAT as int,
                    self.siblings@[i].name@,
                ),
            ),
            None => {
                let task = if self.siblings@.len() == 0 {
                    None
                } else {
                    Some(self.task_id)
                };
                let destination = if self.siblings@.len() == 0 {
                    Some(self.destination_id)
                } else {
                    None
                };
                match overlap::destination_conflict_name(
                    self.tasks@,
                    task,
                    destination,
                    probe.destinations@,
                ) {
                    Some(name) => Some(
                        i18n::said1(
                            words,
                            strings::DEST_EDITOR_DESTINATION_OVERLAP_HINT_FORMAT as int,
                            name,
                        ),
                    ),
                    None => None,
                }
            },
        }
    }

    /// Why the edit cannot be accepted, if it cannot.
    pub open spec fn reason(self, words: Language, probe: OverlapProbe) -> Option<Seq<char>> {
        if self.folder().len() == 0 {
            Some(words.says(strings::DEST_EDITOR_NEEDS_FOLDER as int))
        } else if probe.source {
            Some(words.says(strings::DEST_EDITOR_NEEDS_SEPARATE_FOLDER as int))
        } else if self.clash(words, probe) is Some {
            self.clash(words, probe)
        } else if self.selects_files() && self.filters@.nothing() {
            Some(words.says(strings::DEST_EDITOR_NEEDS_FILTER_RULE as int))
        } else {
            None
        }
    }

    /// The rules to save. Mirror saves the lone all-files filter whatever the editor was showing.
    pub open spec fn saved_rules(self) -> Seq<RuleView> {
        if self.strategy is Mirror {
            seq![RuleView::AllFiles]
        } else {
            self.filters@.stored()
        }
    }

    /// The destination the editor describes.
    pub open spec fn described(self, leaf: Option<Seq<char>>, threshold: u64) -> DestinationView {
        DestinationView {
            id: self.destination_id,
            name: self.saved_name(leaf),
            path: self.folder(),
            filters: self.saved_rules(),
            strategy: self.strategy,
            verify_contents: self.verify_contents,
            delete_mode: self.delete_mode,
            flatten_structure: self.strategy is Move && self.flatten,
            collision_policy: self.collision,
            mass_delete_threshold: if self.confirm_large_deletions {
                threshold
            } else {
                0
            },
        }
    }

    /// The fields are those of this destination, and nothing has been typed into the groups.
    pub open spec fn shows(
        self,
        task: SyncTask,
        destination: DestinationView,
        percent: Seq<char>,
        guarded: bool,
    ) -> bool {
        let groups = ModelView::of(destination.filters).groups.len();
        &&& self.destination_id == destination.id
        &&& self.task_id == task.id
        &&& self.task_kind == task.kind
        &&& self.source_path@ == task.source_path@
        &&& self.name@ == destination.name
        &&& self.path@ == destination.path
        &&& self.threshold@ == percent
        &&& self.group_kinds@.len() == if groups == 0 {
            1
        } else {
            groups
        }
        &&& self.group_inputs@.len() == self.group_kinds@.len()
        &&& forall|i: int|
            0 <= i < self.group_kinds@.len() ==> #[trigger] self.group_kinds@[i] == FilterKind::Path
        &&& forall|i: int|
            0 <= i < self.group_inputs@.len() ==> (#[trigger] self.group_inputs@[i])@.len() == 0
        &&& self.strategy == destination.strategy
        &&& self.verify_contents == destination.verify_contents
        &&& self.delete_mode == destination.delete_mode
        &&& self.flatten == destination.flatten_structure
        &&& self.collision == destination.collision_policy
        &&& self.confirm_large_deletions == guarded
    }

    /// An existing destination, opened for editing. `threshold` is its limit in percent, as text;
    /// `guarded` says whether it has one.
    pub fn edit(
        task: &SyncTask,
        destination: &Destination,
        tasks: &Vec<SyncTask>,
        threshold: &str,
        guarded: bool,
    ) -> (r: Self)
        ensures
            r.wf(),
            r.shows(*task, destination@, threshold@, guarded),
            !r.catch_all,
            r.siblings@.len() == 0,
            r.filters@ == ModelView::of(destination@.filters),
            model::task_views(r.tasks@) == model::task_views(tasks@),
    {
        let filters = FilterModel::of(&destination.filters);
        let groups: usize = if filters.groups.len() == 0 {
            1
        } else {
            filters.groups.len()
        };
        let mut group_inputs: Vec<String> = Vec::new();
        let mut group_kinds: Vec<FilterKind> = Vec::new();
        let mut i: usize = 0;
        while i < groups
            invariant
                i <= groups,
                group_inputs@.len() == i,
                group_kinds@.len() == i,
                forall|k: int| 0 <= k < i ==> #[trigger] group_kinds@[k] == FilterKind::Path,
                forall|k: int| 0 <= k < i ==> (#[trigger] group_inputs@[k])@.len() == 0,
            decreases groups - i,
        {
            group_inputs.push(String::new());
            group_kinds.push(FilterKind::default());
            i = i + 1;
        }
        DestinationEditor {
            destination_id: destination.id,
            task_id: task.id,
            task_kind: task.kind,
            source_path: task.source_path.clone(),
            catch_all: false,
            siblings: Vec::new(),
            name: destination.name.clone(),
            path: destination.path.clone(),
            threshold: owned(threshold),
            group_inputs,
            group_kinds,
            strategy: destination.strategy,
            verify_contents: destination.verify_contents,
            delete_mode: destination.delete_mode,
            flatten: destination.flatten_structure,
            collision: destination.collision_policy,
            confirm_large_deletions: guarded,
            filters,
            tasks: copy_tasks(tasks),
        }
    }

    /// Marks this as the "everything else" rule: it has no file selection to edit, and it saves
    /// the lone all-files filter that makes it one.
    pub fn catch_all(self) -> (r: Self)
        requires
            self.wf(),
        ensures
            r.wf(),
            r.same_but_filters((DestinationEditor { catch_all: true, ..self })),
            r.filters@ == ModelView::all(),
            r.group_inputs == self.group_inputs,
            r.group_kinds == self.group_kinds,
    {
        let filters = FilterModel::all();
        proof {
            assert(filters@.groups.len() == filters.groups@.len());
        }
        DestinationEditor { catch_all: true, filters, ..self }
    }

    /// The rows beside this one that are not on the task yet, for the overlap check.
    pub fn with_siblings(self, siblings: Vec<Destination>) -> (r: Self)
        ensures
            r == (DestinationEditor { siblings, ..self }),
    {
        DestinationEditor { siblings, ..self }
    }

    /// Why this editor cannot be accepted yet, in one sentence; none when it can.
    pub fn incomplete_reason(&self, words: &Language, probe: &OverlapProbe) -> (r: Option<String>)
        requires
            words.wf(),
            probe.fits(*self),
        ensures
            match (r, self.reason(*words, *probe)) {
                (Some(a), Some(b)) => a@ == b,
                (None, None) => true,
                _ => false,
            },
    {
        self.blocked_reason(words, probe)
    }

    /// The folder, without the white space around it.
    pub fn path_text(&self) -> (r: String)
        ensures
            r@ == self.folder(),
    {
        trim(self.path.as_str())
    }

    /// The name to save: what the user typed, or the folder's own name. `leaf` is the last name
    /// of the folder, where it has one.
    pub fn resolved_name(&self, leaf: Option<&str>) -> (r: String)
        ensures
            r@ == self.saved_name(leaf_name(leaf)),
    {
        let typed = trim(self.name.as_str());
        if !typed.as_str().is_empty() {
            return typed;
        }
        match leaf {
            Some(name) => owned(name),
            None => self.path_text(),
        }
    }

    /// Whether the file selection is shown.
    pub fn shows_filters(&self) -> (r: bool)
        ensures
            r == self.selects_files(),
    {
        self.strategy != SyncStrategy::Mirror && !self.catch_all
    }

    /// Why the save is blocked, if it is.
    pub fn blocked_reason(&self, words: &Language, probe: &OverlapProbe) -> (r: Option<String>)
        requires
            words.wf(),
            probe.fits(*self),
        ensures
            match (r, self.reason(*words, *probe)) {
                (Some(a), Some(b)) => a@ == b,
                (None, None) => true,
                _ => false,
            },
    {
        let path = self.path_text();
        if path.as_str().is_empty() {
            return Some(owned(text(words, strings::DEST_EDITOR_NEEDS_FOLDER)));
        }
        // Task shape: a destination never sits inside its own source, and never contains it.
        if probe.source {
            return Some(owned(text(words, strings::DEST_EDITOR_NEEDS_SEPARATE_FOLDER)));
        }
        if let Some(conflict) = self.overlapping_destination(words, probe) {
            return Some(conflict);
        }
        if self.shows_filters() && self.filters.selects_nothing() {
            return Some(owned(text(words, strings::DEST_EDITOR_NEEDS_FILTER_RULE)));
        }
        None
    }

    /// Task shape: destinations never overlap, neither the rows beside this one nor any other
    /// task's destinations.
    pub fn overlapping_destination(
        &self,
        words: &Language,
        probe: &OverlapProbe,
    ) -> (r: Option<String>)
        requires
            words.wf(),
            probe.fits(*self),
        ensures
            match (r, self.clash(*words, *probe)) {
                (Some(a), Some(b)) => a@ == b,
                (None, None) => true,
                _ => false,
            },
    {
        let ghost holds = sibling_clash(*self, *probe);
        let mut i: usize = 0;
        while i < self.siblings.len()
            invariant
                i <= self.siblings@.len(),
                words.wf(),
                probe.fits(*self),
                holds == sibling_clash(*self, *probe),
                forall|k: int| 0 <= k < i ==> !(#[trigger] holds(k)),
            decreases self.siblings@.len() - i,
        {
            if self.siblings[i].id != self.destination_id && probe.siblings[i] {
                proof {
                    search::lemma_found(i as int, self.siblings@.len(), holds);
                }
                return Some(
                    say1(
                        words,
                        strings::DEST_EDITOR_SIBLING_OVERLAP_HINT_FORMAT,
                        self.siblings[i].name.as_str(),
                    ),
                );
            }
            i = i + 1;
        }
        proof {
            search::lemma_absent(self.siblings@.len(), holds);
        }
        let found = if self.siblings.len() == 0 {
            destination_conflict(
                &self.tasks,
                None,
                Some(self.destination_id),
                &probe.destinations,
            )
        } else {
            destination_conflict(&self.tasks, Some(self.task_id), None, &probe.destinations)
        };
        match found {
            Some(conflict) => Some(
                say1(
                    words,
                    strings::DEST_EDITOR_DESTINATION_OVERLAP_HINT_FORMAT,
                    conflict.task_name.as_str(),
                ),
            ),
            None => None,
        }
    }

    /// The destination this editor currently describes, or `None` while `incomplete_reason` has
    /// something to say. `leaf` is the last name of the folder; `threshold`, the limit as typed,
    /// in the form it is stored in.
    pub fn build_destination(
        &self,
        words: &Language,
        probe: &OverlapProbe,
        leaf: Option<&str>,
        threshold: u64,
    ) -> (r: Option<Destination>)
        requires
            words.wf(),
            probe.fits(*self),
        ensures
            r is Some <==> self.reason(*words, *probe) is None,
            r matches Some(d) ==> d@ == self.described(leaf_name(leaf), threshold),
    {
        if self.blocked_reason(words, probe).is_some() {
            return None;
        }
        let filters = if self.strategy == SyncStrategy::Mirror {
            let mut all: Vec<FilterRule> = Vec::new();
            all.push(FilterRule::AllFiles);
            proof {
                assert(rules::rule_views(all@) =~= seq![RuleView::AllFiles]);
            }
            all
        } else {
            self.filters.to_rules()
        };
        Some(
            Destination {
                id: self.destination_id,
                name: self.resolved_name(leaf),
                path: self.path_text(),
                filters,
                strategy: self.strategy,
                verify_contents: self.verify_contents,
                delete_mode: self.delete_mode,
                flatten_structure: self.strategy == SyncStrategy::Move && self.flatten,
                collision_policy: self.collision,
                mass_delete_threshold: if self.confirm_large_deletions {
                    threshold
                } else {
                    0
                },
            },
        )
    }
}

/// Which parts of the editor are shown.
#[derive(Debug, Clone, Copy, PartialEq, Eq, Structural)]
pub struct EditorSections {
    /// The choice between Mirror and Add-only.
    pub strategy: bool,
    /// Where a moved file lands.
    pub move_options: bool,
    /// What happens when two moved files share a name.
    pub collision: bool,
    /// The file selection.
    pub filters: bool,
    /// What the catch-all is for.
    pub catch_all_hint: bool,
    /// That reading every file back over a network is slow.
    pub network_warning: bool,
    /// What happens to files the source no longer has.
    pub deletions: bool,
    /// The share that may be deleted unasked.
    pub threshold: bool,
}

impl DestinationEditor {
    /// Which parts of the editor are shown. `network` says whether the folder is on a network.
    pub fn sections(&self, network: bool) -> (r: EditorSections)
        ensures
            r == (EditorSections {
                strategy: self.task_kind is Sync,
                move_options: self.strategy is Move,
                collision: self.strategy is Move && self.flatten,
                filters: self.selects_files(),
                catch_all_hint: self.catch_all,
                network_warning: network && self.verify_contents && self.folder().len() > 0,
                deletions: self.strategy is Mirror,
                threshold: self.strategy is Mirror && self.confirm_large_deletions,
            }),
    {
        let named = !self.path_text().as_str().is_empty();
        EditorSections {
            strategy: self.task_kind == SyncTaskKind::Sync,
            move_options: self.strategy == SyncStrategy::Move,
            collision: self.strategy == SyncStrategy::Move && self.flatten,
            filters: self.shows_filters(),
            catch_all_hint: self.catch_all,
            network_warning: network && self.verify_contents && named,
            deletions: self.strategy == SyncStrategy::Mirror,
            threshold: self.strategy == SyncStrategy::Mirror && self.confirm_large_deletions,
        }
    }

    /// Chooses what happens when two moved files share a name. The second choice adds a suffix.
    pub fn choose_collision(&mut self, choice: usize)
        ensures
            *final(self) == (DestinationEditor {
                collision: if choice == 1 {
                    FileNameCollisionPolicy::Suffix
                } else {
                    FileNameCollisionPolicy::Skip
                },
                ..*old(self)
            }),
    {
        self.collision = if choice == 1 {
            FileNameCollisionPolicy::Suffix
        } else {
            FileNameCollisionPolicy::Skip
        };
    }

    /// Chooses where deleted files go. The second choice is for good.
    pub fn choose_delete_mode(&mut self, choice: usize)
        ensures
            *final(self) == (DestinationEditor {
                delete_mode: if choice == 1 {
                    DeleteMode::Permanent
                } else {
                    DeleteMode::Recycle
                },
                ..*old(self)
            }),
    {
        self.delete_mode = if choice == 1 {
            DeleteMode::Permanent
        } else {
            DeleteMode::Recycle
        };
    }
}

/// One rule as its own row reads it: the kind named, then the pattern.
pub open spec fn rule_words(words: Language, rule: EntryView) -> Seq<char> {
    let body = i18n::said1(
        words,
        match rule.kind {
            FilterKind::Path => strings::FILTER_PATH_ROW_FORMAT as int,
            FilterKind::Extension => strings::FILTER_EXTENSION_ROW_FORMAT as int,
            FilterKind::Wildcard => strings::FILTER_WILDCARD_ROW_FORMAT as int,
        },
        rule.pattern,
    );
    if rule.excluded {
        i18n::said1(words, strings::FILTER_EXCLUDE_ROW_FORMAT as int, body)
    } else {
        body
    }
}

/// One rule as its own row reads it: the kind named, then the pattern.
pub fn describe_rule(words: &Language, rule: &FilterEntry) -> (r: String)
    requires
        words.wf(),
    ensures
        r@ == rule_words(*words, rule@),
{
    let key: usize = match rule.kind {
        FilterKind::Path => strings::FILTER_PATH_ROW_FORMAT,
        FilterKind::Extension => strings::FILTER_EXTENSION_ROW_FORMAT,
        FilterKind::Wildcard => strings::FILTER_WILDCARD_ROW_FORMAT,
    };
    let body = say1(words, key, rule.pattern.as_str());
    if rule.excluded {
        say1(words, strings::FILTER_EXCLUDE_ROW_FORMAT, body.as_str())
    } else {
        body
    }
}

/// An accepted edit describes a destination that the editor reads back as it was: with a file
/// selection the editor can draw, opening the result shows the same selection.
pub proof fn law_an_accepted_selection_reads_back(editor: DestinationEditor)
    requires
        !(editor.strategy is Mirror),
        crate::state::filter_laws::is_settled(editor.filters@),
    ensures
        ModelView::of(editor.saved_rules()) == editor.filters@,
{
    crate::state::filter_laws::law_a_settled_model_reads_back_as_itself(editor.filters@);
}

/// What an editor that may be accepted saves is never an empty selection.
pub proof fn law_an_accepted_edit_selects_something(
    editor: DestinationEditor,
    words: Language,
    probe: OverlapProbe,
)
    requires
        editor.reason(words, probe) is None,
        editor.catch_all ==> editor.filters@ == ModelView::all(),
    ensures
        editor.saved_rules().len() > 0,
        editor.folder().len() > 0,
        !probe.source,
{
    crate::state::filter_laws::law_selecting_nothing_is_storing_nothing(editor.filters@);
}

/// A catch-all editor of a Move rule saves a catch-all again.
pub proof fn law_a_catch_all_stays_one(
    editor: DestinationEditor,
    leaf: Option<Seq<char>>,
    threshold: u64,
)
    requires
        editor.filters@ == ModelView::all(),
        editor.strategy is Move,
    ensures
        editor.described(leaf, threshold).takes_all_files(),
        editor.described(leaf, threshold).strategy is Move,
{
}

} // verus!
