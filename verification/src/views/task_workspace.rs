//! Every destination of one task, in one place.
//!
//! A routing task is a rule set, and a rule set can only be judged as a whole: which rule catches
//! a given file, which one wins when two match, what nothing matches. So the rules are listed
//! together and edited in place rather than one modal at a time.

use crate::i18n;
use crate::i18n::{say2, text};
use crate::model;
use crate::model::{
    Destination, DestinationDefaults, DestinationView, SyncStrategy, SyncTask, SyncTaskKind,
};
use crate::search;
use crate::state::filters::{FilterModel, ModelView, Summary};
use crate::state::preview::{DestinationPreview, ExtensionChip};
use crate::state::routing;
use crate::state::routing::subsumes;
use crate::strings;
use crate::strings::Language;
use crate::text::{decimal_text, owned};
use crate::views::destination_editor::{DestinationEditor, OverlapProbe};
use vstd::prelude::*;

verus! {

/// One destination as a row: a one-line summary that expands in place into the full editor.
#[derive(Debug)]
pub struct Row {
    pub destination: Destination,
    /// True until an edit is applied: the row exists but the destination does not.
    pub draft: bool,
    pub editor: Option<DestinationEditor>,
    /// What the last preview says this rule would take; cleared whenever the rules change.
    pub preview: Option<DestinationPreview>,
    /// The earlier rule that provably takes everything this one would, if there is one.
    pub shadowed_by: Option<String>,
}

/// What a [`Row`] holds, without what is worked out from the list as a whole.
pub struct RowModel {
    pub destination: DestinationView,
    pub draft: bool,
    pub editor: Option<DestinationEditor>,
}

impl RowModel {
    /// The "everything else" rule: a Move destination taking all files.
    pub open spec fn is_catch_all(self) -> bool {
        self.destination.strategy is Move && self.destination.takes_all_files()
    }

    /// A row that holds this destination, and nothing typed yet.
    pub open spec fn fresh(destination: DestinationView) -> RowModel {
        RowModel { destination, draft: destination.path.len() == 0, editor: None }
    }
}

impl View for Row {
    type V = RowModel;

    open spec fn view(&self) -> RowModel {
        RowModel { destination: self.destination@, draft: self.draft, editor: self.editor }
    }
}

/// What a list of rows holds.
pub open spec fn row_models(rows: Seq<Row>) -> Seq<RowModel> {
    Seq::new(rows.len(), |i: int| rows[i]@)
}

/// The row at an index is about this destination.
pub open spec fn is_about(rows: Seq<RowModel>, id: u128) -> spec_fn(int) -> bool {
    |i: int| rows[i].destination.id == id
}

/// The first row about a destination.
pub open spec fn index_of_row(rows: Seq<RowModel>, id: u128) -> Option<int> {
    search::first(rows.len(), is_about(rows, id))
}

/// The row at an index is an "everything else" rule.
pub open spec fn takes_the_rest(rows: Seq<RowModel>) -> spec_fn(int) -> bool {
    |i: int| rows[i].is_catch_all()
}

/// There is an "everything else" rule.
pub open spec fn has_catch_all(rows: Seq<RowModel>) -> bool {
    exists|i: int| 0 <= i < rows.len() && (#[trigger] rows[i]).is_catch_all()
}

/// Where a new rule goes: above the first "everything else" rule, else last.
pub open spec fn insertion_point(rows: Seq<RowModel>) -> int {
    match search::first(rows.len(), takes_the_rest(rows)) {
        Some(i) => i,
        None => rows.len() as int,
    }
}

/// The destinations of the rows that are not drafts, in order.
pub open spec fn saved_destinations(rows: Seq<RowModel>) -> Seq<DestinationView>
    decreases rows.len(),
{
    if rows.len() == 0 {
        Seq::empty()
    } else if rows.last().draft {
        saved_destinations(rows.drop_last())
    } else {
        saved_destinations(rows.drop_last()).push(rows.last().destination)
    }
}

/// An earlier rule takes everything this one would.
pub open spec fn hides(rows: Seq<RowModel>, index: int) -> spec_fn(int) -> bool {
    |earlier: int| routing::takes_all_of(rows[earlier].destination, rows[index].destination)
}

/// What a row says about the rule that hides it, if one does.
pub open spec fn hidden_words(words: Language, rows: Seq<RowModel>, index: int) -> Option<
    Seq<char>,
> {
    match search::first(index as nat, hides(rows, index)) {
        Some(earlier) => Some(
            i18n::said2(
                words,
                strings::WORKSPACE_SHADOWED_BY_FORMAT as int,
                crate::text::decimal((earlier + 1) as nat),
                rows[earlier].destination.name,
            ),
        ),
        None => None,
    }
}

/// A text that may be missing is the one expected.
pub open spec fn reads(shown: Option<String>, expected: Option<Seq<char>>) -> bool {
    match (shown, expected) {
        (Some(a), Some(b)) => a@ == b,
        (None, None) => true,
        _ => false,
    }
}

/// What a row selects, in one line.
pub open spec fn row_summary(words: Language, row: RowModel) -> Seq<char> {
    if row.is_catch_all() {
        words.says(strings::WORKSPACE_EVERYTHING_ELSE as int)
    } else {
        match ModelView::of(row.destination.filters).selection_words() {
            Some(what) => what,
            None => words.says(strings::WORKSPACE_NOTHING_YET as int),
        }
    }
}

impl Row {
    /// A row for a destination. One without a folder has never been through the editor and holds
    /// nothing worth keeping: it is dropped if the user backs out.
    pub fn new(destination: Destination) -> (r: Self)
        ensures
            r@ == RowModel::fresh(destination@),
            r.preview is None,
            r.shadowed_by is None,
    {
        Row {
            draft: destination.path.as_str().is_empty(),
            destination,
            editor: None,
            preview: None,
            shadowed_by: None,
        }
    }

    /// True for the "everything else" rule. Under first-match-wins it collects whatever the rules
    /// above it left, which is only meaningful at the end of the list, so it is pinned there and
    /// never reordered.
    pub fn is_catch_all(&self) -> (r: bool)
        ensures
            r == self@.is_catch_all(),
    {
        self.destination.strategy == SyncStrategy::Move
            && self.destination.has_only_the_all_files_filter()
    }

    /// What this destination selects, in one line.
    pub fn summary(&self, words: &Language) -> (r: String)
        requires
            words.wf(),
        ensures
            r@ == row_summary(*words, self@),
    {
        if self.is_catch_all() {
            return owned(text(words, strings::WORKSPACE_EVERYTHING_ELSE));
        }
        match FilterModel::of(&self.destination.filters).summary() {
            Summary::Nothing => owned(text(words, strings::WORKSPACE_NOTHING_YET)),
            Summary::Selection(what) => what,
        }
    }
}

/// The share of a destination that may be deleted unasked, as an editor shows it.
#[derive(Debug)]
pub struct Limit {
    /// In percent.
    pub percent: String,
    /// Whether there is a limit at all.
    pub guarded: bool,
}

/// What a new destination begins with.
#[derive(Debug)]
pub struct Blank {
    pub defaults: DestinationDefaults,
    pub limit: Limit,
}

/// What the file system says about the folder an open editor names.
#[derive(Debug)]
pub struct Answers {
    pub probe: OverlapProbe,
    /// The last name of the folder, where it has one.
    pub leaf: Option<String>,
    /// The limit as typed, in the form it is stored in.
    pub threshold: u64,
}

impl Answers {
    /// The last name of the folder, where it has one.
    pub open spec fn leaf_name(self) -> Option<Seq<char>> {
        match self.leaf {
            Some(name) => Some(name@),
            None => None,
        }
    }
}

/// See the module docs.
#[derive(Debug)]
pub struct TaskWorkspace {
    pub task: SyncTask,
    pub tasks: Vec<SyncTask>,
    pub rows: Vec<Row>,
    /// Why the last save was refused, or none. A refusal only ever comes from a rule that is not
    /// finished: the workspace itself has nothing to validate.
    pub save_blocked: Option<String>,
    pub scanning: bool,
    /// The preview's headline: how many files the source holds, or why it could not be read.
    pub preview_summary: Option<String>,
    /// What no rule claims, and so stays in the source.
    pub preview_unmatched: Option<String>,
    pub contested: Vec<String>,
    pub extensions: Vec<ExtensionChip>,
}

impl TaskWorkspace {
    /// What the rows hold.
    pub open spec fn held(self) -> Seq<RowModel> {
        row_models(self.rows@)
    }

    /// The destinations are an ordered rule list.
    pub open spec fn routes(self) -> bool {
        self.task.kind is Move
    }

    /// Everything but the rows, the refusal and the preview is the same.
    pub open spec fn same_frame(self, other: TaskWorkspace) -> bool {
        self.task == other.task && self.tasks == other.tasks && self.scanning == other.scanning
    }

    /// Nothing of a preview is left.
    pub open spec fn shows_no_preview(self) -> bool {
        &&& self.preview_summary is None
        &&& self.preview_unmatched is None
        &&& self.contested@.len() == 0
        &&& self.extensions@.len() == 0
        &&& forall|i: int| 0 <= i < self.rows@.len() ==> (#[trigger] self.rows@[i]).preview is None
    }

    /// Each row of a rule list says which earlier rule hides it, if one does.
    pub open spec fn marks_hidden_rules(self, words: Language) -> bool {
        forall|i: int|
            0 <= i < self.rows@.len() ==> reads(
                (#[trigger] self.rows@[i]).shadowed_by,
                if self.routes() {
                    hidden_words(words, self.held(), i)
                } else {
                    None
                },
            )
    }

    /// The rows hold this, and what is worked out from the list as a whole is up to date.
    pub open spec fn lists(self, words: Language, held: Seq<RowModel>) -> bool {
        &&& self.held() == held
        &&& self.marks_hidden_rules(words)
        &&& self.shows_no_preview()
    }

    /// True when the destinations are an ordered rule list rather than independent sync targets:
    /// numbering, reordering and the catch-all only mean something here.
    pub fn is_routing(&self) -> (r: bool)
        ensures
            r == self.routes(),
    {
        self.task.kind == SyncTaskKind::Move
    }

    /// True when a Move task has no "everything else" rule, so files nothing matches stay in the
    /// source. That is a legitimate choice: the catch-all is added deliberately, never conjured,
    /// so this only decides whether the button is offered.
    pub fn can_add_catch_all(&self) -> (r: bool)
        ensures
            r == (self.routes() && !has_catch_all(self.held())),
    {
        if !self.is_routing() {
            return false;
        }
        let mut i: usize = 0;
        while i < self.rows.len()
            invariant
                i <= self.rows@.len(),
                self.routes(),
                forall|k: int| 0 <= k < i ==> !(#[trigger] self.held()[k]).is_catch_all(),
            decreases self.rows@.len() - i,
        {
            if self.rows[i].is_catch_all() {
                proof {
                    assert(self.held()[i as int].is_catch_all());
                }
                return false;
            }
            i = i + 1;
        }
        true
    }

    /// The first row about a destination.
    pub fn index_of(&self, id: u128) -> (r: Option<usize>)
        ensures
            search::place(r) == index_of_row(self.held(), id),
            r matches Some(i) ==> i < self.rows@.len() && self.rows@[i as int].destination.id == id,
    {
        let ghost holds = is_about(self.held(), id);
        let mut i: usize = 0;
        while i < self.rows.len()
            invariant
                i <= self.rows@.len(),
                holds == is_about(self.held(), id),
                forall|k: int| 0 <= k < i ==> !(#[trigger] holds(k)),
            decreases self.rows@.len() - i,
        {
            if self.rows[i].destination.id == id {
                proof {
                    search::lemma_found(i as int, self.held().len(), holds);
                }
                return Some(i);
            }
            i = i + 1;
        }
        proof {
            search::lemma_absent(self.held().len(), holds);
        }
        None
    }

    /// The destinations the rules are checked against, including rows the user has not saved yet;
    /// rows that are only the frame of an editor do not count.
    pub fn siblings(&self) -> (r: Vec<Destination>)
        ensures
            model::destination_views(r@) == saved_destinations(self.held()),
    {
        let ghost held = self.held();
        let mut out: Vec<Destination> = Vec::new();
        let mut i: usize = 0;
        proof {
            assert(model::destination_views(out@) =~= Seq::empty());
        }
        while i < self.rows.len()
            invariant
                i <= self.rows@.len(),
                held == self.held(),
                model::destination_views(out@) == saved_destinations(held.take(i as int)),
            decreases self.rows@.len() - i,
        {
            proof {
                assert(held.take(i + 1).drop_last() =~= held.take(i as int));
                assert(held.take(i + 1).last() == self.rows@[i as int]@);
            }
            if !self.rows[i].draft {
                let copy = self.rows[i].destination.copy();
                proof {
                    assert(model::destination_views(out@.push(copy)) =~= model::destination_views(
                        out@,
                    ).push(copy@));
                }
                out.push(copy);
            }
            i = i + 1;
        }
        proof {
            assert(held.take(self.rows@.len() as int) =~= held);
        }
        out
    }

    /// The earlier rule that provably takes everything this one would.
    ///
    /// Deliberately partial: it reports only what it can prove, so a rule it stays quiet about may
    /// still overlap. The point is to catch a rule that can never match at all.
    pub fn shadowed_by(&self, words: &Language, index: usize) -> (r: Option<String>)
        requires
            words.wf(),
            index < self.rows@.len(),
        ensures
            reads(r, hidden_words(*words, self.held(), index as int)),
    {
        let ghost holds = hides(self.held(), index as int);
        let mut earlier: usize = 0;
        while earlier < index
            invariant
                earlier <= index < self.rows@.len(),
                words.wf(),
                holds == hides(self.held(), index as int),
                forall|k: int| 0 <= k < earlier ==> !(#[trigger] holds(k)),
            decreases index - earlier,
        {
            if subsumes(&self.rows[earlier].destination, &self.rows[index].destination) {
                proof {
                    search::lemma_found(earlier as int, index as nat, holds);
                }
                return Some(
                    say2(
                        words,
                        strings::WORKSPACE_SHADOWED_BY_FORMAT,
                        decimal_text(earlier as u128 + 1).as_str(),
                        self.rows[earlier].destination.name.as_str(),
                    ),
                );
            }
            earlier = earlier + 1;
        }
        proof {
            search::lemma_absent(index as nat, holds);
        }
        None
    }

    /// A preview describes one set of rules; the moment they change it is a claim about something
    /// that no longer exists, so it goes rather than quietly going stale.
    pub fn clear_preview(&mut self)
        ensures
            final(self).same_frame(*old(self)),
            final(self).save_blocked == old(self).save_blocked,
            final(self).held() == old(self).held(),
            final(self).shows_no_preview(),
            forall|i: int|
                0 <= i < old(self).rows@.len() ==> (#[trigger] final(self).rows@[i]).shadowed_by
                    == old(self).rows@[i].shadowed_by,
    {
        self.preview_summary = None;
        self.preview_unmatched = None;
        self.contested = Vec::new();
        self.extensions = Vec::new();
        let n: usize = self.rows.len();
        let mut i: usize = 0;
        while i < n
            invariant
                i <= n,
                n == self.rows@.len(),
                n == old(self).rows@.len(),
                self.same_frame(*old(self)),
                self.save_blocked == old(self).save_blocked,
                self.preview_summary is None,
                self.preview_unmatched is None,
                self.contested@.len() == 0,
                self.extensions@.len() == 0,
                forall|k: int|
                    0 <= k < n ==> (#[trigger] self.rows@[k])@ == old(self).rows@[k]@
                        && self.rows@[k].shadowed_by == old(self).rows@[k].shadowed_by,
                forall|k: int| 0 <= k < i ==> (#[trigger] self.rows@[k]).preview is None,
            decreases n - i,
        {
            self.rows[i].preview = None;
            i = i + 1;
        }
        proof {
            assert(self.held() =~= old(self).held());
        }
    }

    /// Positions change whenever the list does, and the shadowed-rule warnings depend on the same
    /// order, so the two are recomputed together.
    pub fn renumber(&mut self, words: &Language)
        requires
            words.wf(),
        ensures
            final(self).same_frame(*old(self)),
            final(self).save_blocked == old(self).save_blocked,
            final(self).lists(*words, old(self).held()),
    {
        let routing = self.is_routing();
        let ghost held = self.held();
        let n: usize = self.rows.len();
        let mut i: usize = 0;
        while i < n
            invariant
                i <= n,
                n == self.rows@.len(),
                words.wf(),
                held == old(self).held(),
                self.held() == held,
                routing == self.routes(),
                self.same_frame(*old(self)),
                self.save_blocked == old(self).save_blocked,
                forall|k: int|
                    0 <= k < i ==> reads(
                        (#[trigger] self.rows@[k]).shadowed_by,
                        if routing {
                            hidden_words(*words, held, k)
                        } else {
                            None
                        },
                    ),
            decreases n - i,
        {
            let mark = if routing {
                self.shadowed_by(words, i)
            } else {
                None
            };
            let ghost before = self.rows@;
            self.rows[i].shadowed_by = mark;
            proof {
                assert(self.held() =~= held) by {
                    assert forall|k: int| 0 <= k < n implies (#[trigger] self.rows@[k])@
                        == before[k]@ by {}
                    assert(row_models(before) == held);
                    assert forall|k: int| 0 <= k < n implies #[trigger] self.held()[k]
                        == held[k] by {
                        assert(held[k] == before[k]@);
                        assert(self.held()[k] == self.rows@[k]@);
                    }
                }
            }
            i = i + 1;
        }
        self.clear_preview();
    }
}

} // verus!
