//! Opening a task workspace and saving it.
//!
//! Saving means "keep what I typed", so a rule still being edited is committed rather than
//! dropped.

use crate::ids;
use crate::i18n;
use crate::i18n::say1;
use crate::model;
use crate::model::{Destination, SyncStrategy, SyncTask};
use crate::strings;
use crate::strings::Language;
use crate::views::rule_list;
use crate::views::task_workspace;
use crate::views::task_workspace::{Answers, Blank, Limit, RowModel, TaskWorkspace};
use vstd::prelude::*;

verus! {

/// The destinations of the rows that are open, in order.
pub open spec fn open_ids(rows: Seq<RowModel>) -> Seq<u128>
    decreases rows.len(),
{
    if rows.len() == 0 {
        Seq::empty()
    } else if rows.last().editor is Some {
        open_ids(rows.drop_last()).push(rows.last().destination.id)
    } else {
        open_ids(rows.drop_last())
    }
}

/// How far a commit came.
pub struct Commit {
    /// The rows it left.
    pub rows: Seq<RowModel>,
    /// At least one editor was accepted.
    pub any: bool,
    /// Why it stopped, if it did.
    pub blocked: Option<Seq<char>>,
}

/// Accepting the open editors one after the other, stopping at the first that cannot be accepted.
/// A row is looked up by its destination each time, because accepting can reorder the list;
/// `places` says where each row stood when the answers were given.
pub open spec fn committed(
    words: Language,
    rows: Seq<RowModel>,
    places: Seq<int>,
    open: Seq<u128>,
    answers: Seq<Option<Answers>>,
    any: bool,
) -> Commit
    decreases open.len(),
{
    if open.len() == 0 {
        Commit { rows, any, blocked: None }
    } else {
        let rest = open.skip(1);
        match task_workspace::index_of_row(rows, open[0]) {
            None => committed(words, rows, places, rest, answers, any),
            Some(i) => match rows[i].editor {
                None => committed(words, rows, places, rest, answers, any),
                Some(editor) => {
                    let answer = answers[places[i]]->0;
                    match editor.reason(words, answer.probe) {
                        Some(why) => Commit { rows, any, blocked: Some(why) },
                        None => {
                            let done = rule_list::finished(rows[i], answer);
                            committed(
                                words,
                                rule_list::settled(rows.update(i, done), i),
                                rule_list::sunk(places, i, done.is_catch_all()),
                                rest,
                                answers,
                                true,
                            )
                        },
                    }
                },
            },
        }
    }
}

/// The places of rows that have not moved.
pub open spec fn in_place(n: nat) -> Seq<int> {
    Seq::new(n, |i: int| i)
}

/// There is an answer for every open editor.
pub open spec fn answered(
    rows: Seq<RowModel>,
    places: Seq<int>,
    answers: Seq<Option<Answers>>,
) -> bool {
    &&& places.len() == rows.len()
    &&& forall|i: int|
        0 <= i < rows.len() ==> {
            &&& 0 <= #[trigger] places[i] < answers.len()
            &&& rows[i].editor is Some ==> {
                &&& answers[places[i]] is Some
                &&& answers[places[i]]->0.probe.fits(rows[i].editor->0)
            }
        }
}

/// Executable places as mathematical ones.
pub open spec fn as_places(places: Seq<usize>) -> Seq<int> {
    Seq::new(places.len(), |i: int| places[i] as int)
}

/// What blocks a save, as the workspace says it.
pub open spec fn refusal(words: Language, blocked: Option<Seq<char>>) -> Option<Seq<char>> {
    match blocked {
        Some(why) => Some(
            i18n::said1(words, strings::WORKSPACE_SAVE_BLOCKED_FORMAT as int, why),
        ),
        None => None,
    }
}

/// The workspace of a task, all rows closed.
pub open spec fn is_closed_workspace(
    words: Language,
    task: SyncTask,
    tasks: Seq<SyncTask>,
    workspace: TaskWorkspace,
) -> bool {
    &&& workspace.task@ == task@
    &&& model::task_views(workspace.tasks@) == model::task_views(tasks)
    &&& workspace.lists(
        words,
        Seq::new(task.destinations@.len(), |i: int| RowModel::fresh(task.destinations@[i]@)),
    )
    &&& workspace.save_blocked is None
    &&& !workspace.scanning
}

/// A workspace with the row that was asked for open.
pub open spec fn is_opened_workspace(
    closed: TaskWorkspace,
    expand: Option<u128>,
    limit: Limit,
    opened: TaskWorkspace,
) -> bool {
    match expand {
        Some(id) => closed.expanded(id, limit, opened),
        None => opened == closed,
    }
}

impl TaskWorkspace {
    /// The workspace of a task. Opened from a row's edit button that row starts open, so the click
    /// lands where the user aimed it instead of on a list they have to search; opened from "add",
    /// it starts with a new rule. `limit` is for the row that opens.
    pub fn new(
        words: &Language,
        task: &SyncTask,
        tasks: &Vec<SyncTask>,
        expand: Option<u128>,
        limit: &Limit,
        start_with_new_rule: bool,
        blank: &Blank,
    ) -> (r: Self)
        requires
            words.wf(),
        ensures
            exists|closed: TaskWorkspace, opened: TaskWorkspace|
                {
                    &&& is_closed_workspace(*words, *task, tasks@, closed)
                    &&& #[trigger] is_opened_workspace(closed, expand, *limit, opened)
                    &&& if start_with_new_rule {
                        exists|id: u128|
                            ids::is_random(id) && opened.inserted(
                                *words,
                                task_workspace::insertion_point(opened.held()),
                                RowModel::fresh(#[trigger] opened.new_rule(id, blank.defaults)),
                                blank.limit,
                                r,
                            )
                    } else {
                        r == opened
                    }
                },
    {
        let mut workspace = TaskWorkspace::of_task(words, task, tasks);
        let ghost closed = workspace;
        if let Some(id) = expand {
            workspace.expand(id, limit);
        }
        let ghost opened = workspace;
        proof {
            assert(is_closed_workspace(*words, *task, tasks@, closed));
            assert(is_opened_workspace(closed, expand, *limit, opened));
        }
        if start_with_new_rule {
            let id: u128 = workspace.add_rule(words, blank);
            proof {
                let rule = opened.new_rule(id, blank.defaults);
                assert(opened.inserted(
                    *words,
                    task_workspace::insertion_point(opened.held()),
                    RowModel::fresh(rule),
                    blank.limit,
                    workspace,
                ));
            }
        }
        workspace
    }

    /// The destinations of the rows that are open, in order.
    fn open_rows(&self) -> (r: Vec<u128>)
        ensures
            r@ == open_ids(self.held()),
    {
        let ghost held = self.held();
        let mut out: Vec<u128> = Vec::new();
        let mut i: usize = 0;
        while i < self.rows.len()
            invariant
                i <= self.rows@.len(),
                held == self.held(),
                out@ == open_ids(held.take(i as int)),
            decreases self.rows@.len() - i,
        {
            proof {
                assert(held.take(i + 1).drop_last() =~= held.take(i as int));
                assert(held.take(i + 1).last() == self.rows@[i as int]@);
            }
            if self.rows[i].editor.is_some() {
                out.push(self.rows[i].destination.id);
            }
            i = i + 1;
        }
        proof {
            assert(held.take(self.rows@.len() as int) =~= held);
        }
        out
    }

    /// Accepts every open editor, stopping at the first one that cannot be accepted: that rule
    /// stays open with the reason shown, so what needs finishing is on screen rather than
    /// discarded. There is an answer for each row that is open.
    pub fn commit_open_editors(
        &mut self,
        words: &Language,
        answers: &Vec<Option<Answers>>,
    ) -> (r: bool)
        requires
            words.wf(),
            answered(old(self).held(), in_place(old(self).rows@.len()), answers@),
        ensures
            ({
                let commit = committed(
                    *words,
                    old(self).held(),
                    in_place(old(self).rows@.len()),
                    open_ids(old(self).held()),
                    answers@,
                    false,
                );
                &&& r == (commit.blocked is None)
                &&& final(self).held() == commit.rows
                &&& final(self).same_frame(*old(self))
                &&& task_workspace::reads(
                    final(self).save_blocked,
                    refusal(*words, commit.blocked),
                )
                &&& commit.any ==> final(self).lists(*words, commit.rows)
                &&& !commit.any ==> *final(self) == (TaskWorkspace {
                    save_blocked: final(self).save_blocked,
                    ..*old(self)
                })
            }),
    {
        let open = self.open_rows();
        let n: usize = self.rows.len();
        let mut places: Vec<usize> = Vec::new();
        let mut p: usize = 0;
        while p < n
            invariant
                p <= n,
                places@.len() == p,
                forall|k: int| 0 <= k < p ==> #[trigger] places@[k] == k,
            decreases n - p,
        {
            places.push(p);
            p = p + 1;
        }
        let ghost start = committed(
            *words,
            self.held(),
            in_place(n as nat),
            open@,
            answers@,
            false,
        );
        let mut any = false;
        let mut k: usize = 0;
        proof {
            assert(as_places(places@) =~= in_place(n as nat));
            assert(open@.skip(0) =~= open@);
        }
        while k < open.len()
            invariant
                k <= open@.len(),
                n == self.rows@.len(),
                words.wf(),
                answered(self.held(), as_places(places@), answers@),
                committed(
                    *words,
                    self.held(),
                    as_places(places@),
                    open@.skip(k as int),
                    answers@,
                    any,
                ) == start,
                start == committed(
                    *words,
                    old(self).held(),
                    in_place(old(self).rows@.len()),
                    open_ids(old(self).held()),
                    answers@,
                    false,
                ),
                self.same_frame(*old(self)),
                any ==> self.lists(*words, self.held()),
                !any ==> *self == (TaskWorkspace { save_blocked: self.save_blocked, ..*old(self) }),
            decreases open@.len() - k,
        {
            let ghost held = self.held();
            let ghost rest = open@.skip(k as int);
            proof {
                assert(rest.skip(1) =~= open@.skip(k + 1));
                assert(rest[0] == open@[k as int]);
            }
            if let Some(index) = self.index_of(open[k]) {
                let place: usize = places[index];
                proof {
                    assert(as_places(places@)[index as int] == place);
                    assert(held[index as int].editor == self.rows@[index as int].editor);
                }
                let mut built: Option<Destination> = None;
                let mut blocked: Option<String> = None;
                if let (Some(editor), Some(answer)) = (&self.rows[index].editor, &answers[place]) {
                    let leaf = match &answer.leaf {
                        Some(name) => Some(name.as_str()),
                        None => None,
                    };
                    blocked = editor.incomplete_reason(words, &answer.probe);
                    built =
                    editor.build_destination(words, &answer.probe, leaf, answer.threshold);
                }
                if let Some(reason) = blocked {
                    self.save_blocked =
                    Some(
                        say1(words, strings::WORKSPACE_SAVE_BLOCKED_FORMAT, reason.as_str()),
                    );
                    return false;
                }
                if let Some(destination) = built {
                    let ghost done = RowModel {
                        destination: destination@,
                        draft: false,
                        editor: None,
                    };
                    let ghost before = as_places(places@);
                    // An "everything else" rule sinks to the end and takes its place along.
                    let sinks = destination.strategy == SyncStrategy::Move
                        && destination.has_only_the_all_files_filter();
                    self.take_in(index, destination, words);
                    any = true;
                    if sinks && index != n - 1 {
                        let moved: usize = places.remove(index);
                        places.push(moved);
                    }
                    proof {
                        let updated = held.update(index as int, done);
                        assert(updated[index as int] == done);
                        assert(self.held() == rule_list::settled(updated, index as int));
                        assert(as_places(places@) =~= rule_list::sunk(before, index as int, sinks));
                        assert(answered(self.held(), as_places(places@), answers@));
                    }
                }
            }
            k = k + 1;
        }
        self.save_blocked = None;
        true
    }

    /// The destinations to save, in order, or nothing while a rule needs finishing. Anything still
    /// a draft is a rule the user abandoned rather than one they were editing: the commit accepted
    /// every editor that could be accepted.
    pub fn save(&mut self, words: &Language, answers: &Vec<Option<Answers>>) -> (r: Option<
        Vec<Destination>,
    >)
        requires
            words.wf(),
            answered(old(self).held(), in_place(old(self).rows@.len()), answers@),
        ensures
            ({
                let commit = committed(
                    *words,
                    old(self).held(),
                    in_place(old(self).rows@.len()),
                    open_ids(old(self).held()),
                    answers@,
                    false,
                );
                &&& r is Some <==> commit.blocked is None
                &&& r matches Some(list) ==> model::destination_views(list@)
                    == task_workspace::saved_destinations(commit.rows)
                &&& final(self).held() == commit.rows
                &&& final(self).same_frame(*old(self))
                &&& task_workspace::reads(
                    final(self).save_blocked,
                    refusal(*words, commit.blocked),
                )
                &&& commit.any ==> final(self).lists(*words, commit.rows)
                &&& !commit.any ==> *final(self) == (TaskWorkspace {
                    save_blocked: final(self).save_blocked,
                    ..*old(self)
                })
            }),
    {
        if !self.commit_open_editors(words, answers) {
            return None;
        }
        Some(self.siblings())
    }
}

} // verus!
