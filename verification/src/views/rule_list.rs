//! What can be done to the rows of a task workspace: opening and closing their editors, adding,
//! removing and reordering rules, and saving.

use crate::i18n::text;
use crate::ids;
use crate::ids::fresh_id;
use crate::model;
use crate::model::{
    copy_tasks, Destination, DestinationDefaults, DestinationView, SyncStrategy, SyncTask,
};
use crate::rules;
use crate::rules::{FilterRule, RuleView};
use crate::search;
use crate::state::filters::ModelView;
use crate::strings;
use crate::strings::Language;
use crate::views::destination_editor::DestinationEditor;
use crate::views::task_workspace;
use crate::views::task_workspace::{Answers, Blank, Limit, Row, RowModel, TaskWorkspace};
use vstd::prelude::*;

verus! {

/// One of a list has moved to the end, where it is asked to.
pub open spec fn sunk<A>(list: Seq<A>, index: int, sinks: bool) -> Seq<A> {
    if sinks && index != list.len() - 1 {
        list.remove(index).push(list[index])
    } else {
        list
    }
}

/// An "everything else" rule that was just accepted has moved to the end, the only place it means
/// anything.
pub open spec fn settled(rows: Seq<RowModel>, index: int) -> Seq<RowModel> {
    sunk(rows, index, rows[index].is_catch_all())
}

/// The row has traded places with the one above it, where it may.
pub open spec fn raised(rows: Seq<RowModel>, index: int) -> Seq<RowModel> {
    if index > 0 && !rows[index].is_catch_all() {
        rows.update(index, rows[index - 1]).update(index - 1, rows[index])
    } else {
        rows
    }
}

/// The row has traded places with the one below it, where it may.
pub open spec fn lowered(rows: Seq<RowModel>, index: int) -> Seq<RowModel> {
    if index + 1 < rows.len() && !rows[index].is_catch_all() && !rows[index + 1].is_catch_all() {
        rows.update(index, rows[index + 1]).update(index + 1, rows[index])
    } else {
        rows
    }
}

/// The rows about anything else.
pub open spec fn without(rows: Seq<RowModel>, id: u128) -> Seq<RowModel>
    decreases rows.len(),
{
    if rows.len() == 0 {
        Seq::empty()
    } else if rows.last().destination.id == id {
        without(rows.drop_last(), id)
    } else {
        without(rows.drop_last(), id).push(rows.last())
    }
}

/// The row's edit has been dropped, and the row with it if it was only the editor's frame.
pub open spec fn dropped(rows: Seq<RowModel>, index: int) -> Seq<RowModel> {
    if rows[index].draft {
        rows.remove(index)
    } else {
        rows.update(index, (RowModel { editor: None, ..rows[index] }))
    }
}

/// A row as it is once its edit has been accepted.
pub open spec fn finished(row: RowModel, answers: Answers) -> RowModel {
    RowModel {
        destination: row.editor->0.described(answers.leaf_name(), answers.threshold),
        draft: false,
        editor: None,
    }
}

/// The row's edit has been taken in.
pub open spec fn taken_in(rows: Seq<RowModel>, index: int, answers: Answers) -> Seq<RowModel> {
    settled(rows.update(index, finished(rows[index], answers)), index)
}

impl TaskWorkspace {
    /// What an editor shows when the row at an index is opened.
    pub open spec fn opens(self, index: int, limit: Limit, editor: DestinationEditor) -> bool {
        let row = self.held()[index];
        &&& editor.wf()
        &&& editor.shows(self.task, row.destination, limit.percent@, limit.guarded)
        &&& editor.catch_all == row.is_catch_all()
        &&& editor.filters@ == if row.is_catch_all() {
            ModelView::all()
        } else {
            ModelView::of(row.destination.filters)
        }
        &&& model::destination_views(editor.siblings@) == task_workspace::saved_destinations(
            self.held(),
        )
        &&& model::task_views(editor.tasks@) == model::task_views(self.tasks@)
    }

    /// The row about a destination has been opened. One that is open already keeps its edit.
    pub open spec fn expanded(self, id: u128, limit: Limit, after: TaskWorkspace) -> bool {
        match task_workspace::index_of_row(self.held(), id) {
            None => after == self,
            Some(i) => if self.rows@[i].editor is Some {
                after == self
            } else {
                &&& after.rows@[i].editor is Some
                &&& self.opens(i, limit, after.rows@[i].editor->0)
                &&& after.rows@ == self.rows@.update(
                    i,
                    (Row { editor: after.rows@[i].editor, ..self.rows@[i] }),
                )
                &&& after.save_blocked is None
                &&& after.same_frame(self)
                &&& after.preview_summary == self.preview_summary
                &&& after.preview_unmatched == self.preview_unmatched
                &&& after.contested == self.contested
                &&& after.extensions == self.extensions
            },
        }
    }

    /// The list is this, and nothing else has changed.
    pub open spec fn relisted(self, words: Language, held: Seq<RowModel>) -> spec_fn(
        TaskWorkspace,
    ) -> bool {
        |after: TaskWorkspace|
            after.same_frame(self) && after.save_blocked == self.save_blocked && after.lists(
                words,
                held,
            )
    }

    /// A row has come in at an index, and has been opened.
    pub open spec fn inserted(
        self,
        words: Language,
        at: int,
        row: RowModel,
        limit: Limit,
        after: TaskWorkspace,
    ) -> bool {
        exists|between: TaskWorkspace|
            #[trigger] self.relisted(words, self.held().insert(at, row))(between)
                && between.expanded(row.destination.id, limit, after)
    }

    /// The rule a new row begins as. A Sync destination takes everything unless told otherwise; a
    /// Move rule must say what it routes, so it starts with a selection to make.
    pub open spec fn new_rule(self, id: u128, defaults: DestinationDefaults) -> DestinationView {
        DestinationView::fresh(
            id,
            Seq::empty(),
            Seq::empty(),
            if self.routes() {
                Seq::empty()
            } else {
                seq![RuleView::AllFiles]
            },
            if self.routes() {
                SyncStrategy::Move
            } else {
                SyncStrategy::AddOnly
            },
            defaults,
        )
    }

    /// The workspace of a task, all rows closed.
    pub fn of_task(words: &Language, task: &SyncTask, tasks: &Vec<SyncTask>) -> (r: Self)
        requires
            words.wf(),
        ensures
            r.task@ == task@,
            model::task_views(r.tasks@) == model::task_views(tasks@),
            r.lists(
                *words,
                Seq::new(
                    task.destinations@.len(),
                    |i: int| RowModel::fresh(task.destinations@[i]@),
                ),
            ),
            r.save_blocked is None,
            !r.scanning,
    {
        let mut rows: Vec<Row> = Vec::new();
        let mut i: usize = 0;
        while i < task.destinations.len()
            invariant
                i <= task.destinations@.len(),
                rows@.len() == i,
                forall|k: int|
                    0 <= k < i ==> (#[trigger] rows@[k])@ == RowModel::fresh(
                        task.destinations@[k]@,
                    ),
            decreases task.destinations@.len() - i,
        {
            rows.push(Row::new(task.destinations[i].copy()));
            i = i + 1;
        }
        let mut workspace = TaskWorkspace {
            task: task.copy(),
            tasks: copy_tasks(tasks),
            rows,
            save_blocked: None,
            scanning: false,
            preview_summary: None,
            preview_unmatched: None,
            contested: Vec::new(),
            extensions: Vec::new(),
        };
        proof {
            assert(workspace.held() =~= Seq::new(
                task.destinations@.len(),
                |i: int| RowModel::fresh(task.destinations@[i]@),
            ));
        }
        workspace.renumber(words);
        workspace
    }

    /// Opens the row about a destination. Reopening keeps the pending edit.
    pub fn expand(&mut self, id: u128, limit: &Limit)
        ensures
            old(self).expanded(id, *limit, *final(self)),
    {
        let index: usize = match self.index_of(id) {
            Some(index) => index,
            None => {
                return ;
            },
        };
        if self.rows[index].editor.is_some() {
            return ;
        }
        let editor = DestinationEditor::edit(
            &self.task,
            &self.rows[index].destination,
            &self.tasks,
            limit.percent.as_str(),
            limit.guarded,
        ).with_siblings(self.siblings());
        let editor = if self.rows[index].is_catch_all() {
            editor.catch_all()
        } else {
            editor
        };
        self.rows[index].editor = Some(editor);
        // Whatever the refusal was about, opening an editor is the user acting on it.
        self.save_blocked = None;
        proof {
            assert(self.rows@ =~= old(self).rows@.update(
                index as int,
                (Row { editor: self.rows@[index as int].editor, ..old(self).rows@[index as int] }),
            ));
        }
    }

    /// Puts a row in at an index and opens it.
    fn insert_row(&mut self, words: &Language, at: usize, row: Row, limit: &Limit)
        requires
            words.wf(),
            at <= old(self).rows@.len(),
        ensures
            old(self).inserted(*words, at as int, row@, *limit, *final(self)),
    {
        let id = row.destination.id;
        let ghost new = row@;
        self.rows.insert(at, row);
        proof {
            assert(self.held() =~= old(self).held().insert(at as int, new));
        }
        self.renumber(words);
        let ghost between = *self;
        self.expand(id, limit);
        proof {
            assert(old(self).relisted(*words, old(self).held().insert(at as int, new))(between));
        }
    }

    /// Adds a rule above the catch-all: a rule below "everything else" could never match.
    pub fn add_rule(&mut self, words: &Language, blank: &Blank) -> (id: u128)
        requires
            words.wf(),
        ensures
            ids::is_random(id),
            old(self).inserted(
                *words,
                task_workspace::insertion_point(old(self).held()),
                RowModel::fresh(old(self).new_rule(id, blank.defaults)),
                blank.limit,
                *final(self),
            ),
    {
        let id: u128 = fresh_id();
        self.add_rule_as(id, words, blank);
        id
    }

    /// Adds a rule under the identifier given.
    pub fn add_rule_as(&mut self, id: u128, words: &Language, blank: &Blank)
        requires
            words.wf(),
        ensures
            old(self).inserted(
                *words,
                task_workspace::insertion_point(old(self).held()),
                RowModel::fresh(old(self).new_rule(id, blank.defaults)),
                blank.limit,
                *final(self),
            ),
    {
        let routing = self.is_routing();
        // Add-only is the safe default for anyone unsure: it never deletes.
        let strategy = if routing {
            SyncStrategy::Move
        } else {
            SyncStrategy::AddOnly
        };
        let mut filters: Vec<FilterRule> = Vec::new();
        if !routing {
            filters.push(FilterRule::AllFiles);
        }
        proof {
            reveal_strlit("");
            assert(rules::rule_views(filters@) =~= if routing {
                Seq::empty()
            } else {
                seq![RuleView::AllFiles]
            });
            assert(""@ =~= Seq::empty());
        }
        let row = Row::new(Destination::new(id, "", "", filters, strategy, &blank.defaults));
        let at: usize = self.first_catch_all();
        self.insert_row(words, at, row, &blank.limit);
    }

    /// Where a new rule goes.
    fn first_catch_all(&self) -> (r: usize)
        ensures
            r == task_workspace::insertion_point(self.held()),
            r <= self.rows@.len(),
    {
        let ghost holds = task_workspace::takes_the_rest(self.held());
        let mut i: usize = 0;
        while i < self.rows.len()
            invariant
                i <= self.rows@.len(),
                holds == task_workspace::takes_the_rest(self.held()),
                forall|k: int| 0 <= k < i ==> !(#[trigger] holds(k)),
            decreases self.rows@.len() - i,
        {
            if self.rows[i].is_catch_all() {
                proof {
                    search::lemma_found(i as int, self.held().len(), holds);
                }
                return i;
            }
            i = i + 1;
        }
        proof {
            search::lemma_absent(self.held().len(), holds);
        }
        i
    }

    /// The "everything else" rule a row begins as.
    pub open spec fn new_catch_all(
        words: Language,
        id: u128,
        defaults: DestinationDefaults,
    ) -> DestinationView {
        DestinationView::fresh(
            id,
            words.says(strings::WORKSPACE_EVERYTHING_ELSE as int),
            Seq::empty(),
            seq![RuleView::AllFiles],
            SyncStrategy::Move,
            defaults,
        )
    }

    /// Adds the "everything else" rule: an all-files Move destination, which under
    /// first-match-wins takes exactly what the rules above it left. Says under which identifier,
    /// where there was room for one.
    pub fn add_catch_all(&mut self, words: &Language, blank: &Blank) -> (r: Option<u128>)
        requires
            words.wf(),
        ensures
            r is Some <==> old(self).routes() && !task_workspace::has_catch_all(old(self).held()),
            r matches Some(id) ==> ids::is_random(id),
            match r {
                Some(id) => old(self).inserted(
                    *words,
                    old(self).rows@.len() as int,
                    RowModel::fresh(TaskWorkspace::new_catch_all(*words, id, blank.defaults)),
                    blank.limit,
                    *final(self),
                ),
                None => *final(self) == *old(self),
            },
    {
        let id: u128 = fresh_id();
        if self.add_catch_all_as(id, words, blank) {
            Some(id)
        } else {
            None
        }
    }

    /// Adds the "everything else" rule under the identifier given, where there is room for one.
    pub fn add_catch_all_as(&mut self, id: u128, words: &Language, blank: &Blank) -> (r: bool)
        requires
            words.wf(),
        ensures
            r == (old(self).routes() && !task_workspace::has_catch_all(old(self).held())),
            if r {
                old(self).inserted(
                    *words,
                    old(self).rows@.len() as int,
                    RowModel::fresh(TaskWorkspace::new_catch_all(*words, id, blank.defaults)),
                    blank.limit,
                    *final(self),
                )
            } else {
                *final(self) == *old(self)
            },
    {
        if !self.can_add_catch_all() {
            return false;
        }
        let mut filters: Vec<FilterRule> = Vec::new();
        filters.push(FilterRule::AllFiles);
        proof {
            reveal_strlit("");
            assert(rules::rule_views(filters@) =~= seq![RuleView::AllFiles]);
            assert(""@ =~= Seq::empty());
        }
        let row = Row::new(
            Destination::new(
                id,
                text(words, strings::WORKSPACE_EVERYTHING_ELSE),
                "",
                filters,
                SyncStrategy::Move,
                &blank.defaults,
            ),
        );
        let at: usize = self.rows.len();
        self.insert_row(words, at, row, &blank.limit);
        true
    }

    /// The copy a duplicated row becomes. It has the first one's folder, which is an overlap with
    /// it, so it is a draft until the user gives it one of its own.
    pub open spec fn twin(row: RowModel, id: u128) -> RowModel {
        RowModel {
            destination: DestinationView { id, ..row.destination },
            draft: true,
            editor: None,
        }
    }

    /// Copies a row, and says under which identifier. The identifier is a new one: the copy is a
    /// different destination, and sharing one would make both rows report the same last-run
    /// status.
    pub fn duplicate(&mut self, id: u128, words: &Language, limit: &Limit) -> (r: Option<u128>)
        requires
            words.wf(),
        ensures
            r is Some <==> task_workspace::index_of_row(old(self).held(), id) is Some,
            r matches Some(copy) ==> ids::is_random(copy),
            match (r, task_workspace::index_of_row(old(self).held(), id)) {
                (Some(copy), Some(i)) => old(self).inserted(
                    *words,
                    i + 1,
                    TaskWorkspace::twin(old(self).held()[i], copy),
                    *limit,
                    *final(self),
                ),
                _ => *final(self) == *old(self),
            },
    {
        let copy: u128 = fresh_id();
        if self.duplicate_as(id, copy, words, limit) {
            Some(copy)
        } else {
            None
        }
    }

    /// Copies a row under the identifier given.
    pub fn duplicate_as(&mut self, id: u128, copy: u128, words: &Language, limit: &Limit) -> (r:
        bool)
        requires
            words.wf(),
        ensures
            r == (task_workspace::index_of_row(old(self).held(), id) is Some),
            match task_workspace::index_of_row(old(self).held(), id) {
                Some(i) => old(self).inserted(
                    *words,
                    i + 1,
                    TaskWorkspace::twin(old(self).held()[i], copy),
                    *limit,
                    *final(self),
                ),
                None => *final(self) == *old(self),
            },
    {
        let index: usize = match self.index_of(id) {
            Some(index) => index,
            None => {
                return false;
            },
        };
        let mut twin = self.rows[index].destination.copy();
        twin.id = copy;
        let mut row = Row::new(twin);
        row.draft = true;
        let n: usize = self.rows.len();
        assert(index < n);
        self.insert_row(words, index + 1, row, limit);
        true
    }

    /// Takes the rows about a destination out.
    pub fn delete(&mut self, id: u128, words: &Language)
        requires
            words.wf(),
        ensures
            old(self).relisted(*words, without(old(self).held(), id))(*final(self)),
    {
        let ghost held = self.held();
        let ghost mut seen: int = 0;
        let mut i: usize = 0;
        proof {
            assert(held.take(0) =~= Seq::empty());
            assert(self.held() =~= without(held.take(0), id) + held.skip(0));
        }
        while i < self.rows.len()
            invariant
                held == old(self).held(),
                0 <= seen <= held.len(),
                i == without(held.take(seen), id).len(),
                self.held() == without(held.take(seen), id) + held.skip(seen),
                self.same_frame(*old(self)),
                self.save_blocked == old(self).save_blocked,
            decreases self.rows@.len() - i,
        {
            let ghost front = without(held.take(seen), id);
            proof {
                assert(self.held().len() == self.rows@.len());
                assert(self.held()[i as int] == held.skip(seen)[0]);
                assert(self.rows@[i as int]@ == held[seen]);
                assert(held.take(seen + 1).drop_last() =~= held.take(seen));
                assert(held.take(seen + 1).last() == held[seen]);
            }
            if self.rows[i].destination.id == id {
                let ghost before = self.rows@;
                let _ = self.rows.remove(i);
                proof {
                    assert(self.held() =~= task_workspace::row_models(before).remove(i as int));
                    assert(self.held() =~= front + held.skip(seen + 1));
                }
            } else {
                proof {
                    assert(front + held.skip(seen) =~= front.push(held[seen]) + held.skip(
                        seen + 1,
                    ));
                }
                i = i + 1;
            }
            proof {
                seen = seen + 1;
            }
        }
        proof {
            assert(self.held().len() == self.rows@.len());
            assert(held.skip(seen).len() == 0);
            assert(held.take(held.len() as int) =~= held);
            assert(self.held() =~= without(held, id));
        }
        self.renumber(words);
    }

    /// Moves a row up by one. The catch-all stays last.
    pub fn move_up(&mut self, id: u128, words: &Language)
        requires
            words.wf(),
        ensures
            match task_workspace::index_of_row(old(self).held(), id) {
                Some(i) => if i > 0 && !old(self).held()[i].is_catch_all() {
                    old(self).relisted(*words, raised(old(self).held(), i))(*final(self))
                } else {
                    *final(self) == *old(self)
                },
                None => *final(self) == *old(self),
            },
    {
        let index: usize = match self.index_of(id) {
            Some(index) => index,
            None => {
                return ;
            },
        };
        if index > 0 && !self.rows[index].is_catch_all() {
            let row = self.rows.remove(index);
            self.rows.insert(index - 1, row);
            proof {
                assert(self.held() =~= raised(old(self).held(), index as int));
            }
            self.renumber(words);
        }
    }

    /// Moves a row down by one. The catch-all stays last: a rule below "everything else" could
    /// never match.
    pub fn move_down(&mut self, id: u128, words: &Language)
        requires
            words.wf(),
        ensures
            match task_workspace::index_of_row(old(self).held(), id) {
                Some(i) => if i + 1 < old(self).rows@.len() && !old(self).held()[i].is_catch_all()
                    && !old(self).held()[i + 1].is_catch_all() {
                    old(self).relisted(*words, lowered(old(self).held(), i))(*final(self))
                } else {
                    *final(self) == *old(self)
                },
                None => *final(self) == *old(self),
            },
    {
        let index: usize = match self.index_of(id) {
            Some(index) => index,
            None => {
                return ;
            },
        };
        let n: usize = self.rows.len();
        assert(index < n);
        if index + 1 < n && !self.rows[index].is_catch_all() && !self.rows[index
            + 1].is_catch_all() {
            let row = self.rows.remove(index);
            self.rows.insert(index + 1, row);
            proof {
                assert(self.held() =~= lowered(old(self).held(), index as int));
            }
            self.renumber(words);
        }
    }

    /// An "everything else" rule that was just accepted has to move to the end, the only place it
    /// means anything.
    fn settle(&mut self, index: usize)
        requires
            index < old(self).rows@.len(),
        ensures
            final(self).held() == settled(old(self).held(), index as int),
            final(self).same_frame(*old(self)),
            final(self).save_blocked == old(self).save_blocked,
    {
        if self.rows[index].is_catch_all() && index != self.rows.len() - 1 {
            let row = self.rows.remove(index);
            self.rows.push(row);
            proof {
                assert(self.held() =~= settled(old(self).held(), index as int));
            }
        }
    }

    /// Takes an edit in.
    pub(crate) fn take_in(&mut self, index: usize, destination: Destination, words: &Language)
        requires
            words.wf(),
            index < old(self).rows@.len(),
        ensures
            final(self).same_frame(*old(self)),
            final(self).save_blocked is None,
            final(self).lists(
                *words,
                settled(
                    old(self).held().update(
                        index as int,
                        RowModel { destination: destination@, draft: false, editor: None },
                    ),
                    index as int,
                ),
            ),
    {
        let ghost new = RowModel { destination: destination@, draft: false, editor: None };
        self.rows[index].destination = destination;
        self.rows[index].draft = false;
        self.rows[index].editor = None;
        self.save_blocked = None;
        proof {
            assert(self.held() =~= old(self).held().update(index as int, new));
        }
        self.settle(index);
        self.renumber(words);
    }

    /// Accepts the row's open editor, or explains why it cannot be accepted yet.
    pub fn accept(&mut self, id: u128, words: &Language, answers: &Answers)
        requires
            words.wf(),
            match task_workspace::index_of_row(old(self).held(), id) {
                Some(i) => old(self).held()[i].editor is Some ==> answers.probe.fits(
                    old(self).held()[i].editor->0,
                ),
                None => true,
            },
        ensures
            match task_workspace::index_of_row(old(self).held(), id) {
                Some(i) => match old(self).held()[i].editor {
                    Some(editor) => match editor.reason(*words, answers.probe) {
                        None => {
                            &&& final(self).same_frame(*old(self))
                            &&& final(self).save_blocked is None
                            &&& final(self).lists(*words, taken_in(old(self).held(), i, *answers))
                        },
                        Some(why) => {
                            &&& final(self).save_blocked matches Some(said) && said@ == why
                            &&& *final(self) == (TaskWorkspace {
                                save_blocked: final(self).save_blocked,
                                ..*old(self)
                            })
                        },
                    },
                    None => *final(self) == *old(self),
                },
                None => *final(self) == *old(self),
            },
    {
        let index: usize = match self.index_of(id) {
            Some(index) => index,
            None => {
                return ;
            },
        };
        let built = match &self.rows[index].editor {
            None => {
                return ;
            },
            Some(editor) => {
                let leaf = match &answers.leaf {
                    Some(name) => Some(name.as_str()),
                    None => None,
                };
                match editor.build_destination(words, &answers.probe, leaf, answers.threshold) {
                    Some(destination) => Ok(destination),
                    None => Err(editor.incomplete_reason(words, &answers.probe)),
                }
            },
        };
        match built {
            Ok(destination) => {
                self.take_in(index, destination, words);
            },
            Err(reason) => {
                self.save_blocked = reason;
            },
        }
    }

    /// Discards a row's pending edit. Backing out of a rule that was never saved leaves nothing
    /// behind: the row was only ever the editor's frame.
    pub fn discard(&mut self, id: u128, words: &Language)
        requires
            words.wf(),
        ensures
            match task_workspace::index_of_row(old(self).held(), id) {
                Some(i) => {
                    &&& final(self).same_frame(*old(self))
                    &&& final(self).save_blocked is None
                    &&& final(self).lists(*words, dropped(old(self).held(), i))
                },
                None => *final(self) == *old(self),
            },
    {
        let index: usize = match self.index_of(id) {
            Some(index) => index,
            None => {
                return ;
            },
        };
        self.rows[index].editor = None;
        if self.rows[index].draft {
            let _ = self.rows.remove(index);
        }
        proof {
            assert(self.held() =~= dropped(old(self).held(), index as int));
        }
        self.save_blocked = None;
        self.renumber(words);
    }
}

} // verus!
