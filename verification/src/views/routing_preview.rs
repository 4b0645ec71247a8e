//! What a task workspace shows: its rows, and where each file of the source would go.

use crate::i18n;
use crate::i18n::{plural, say1, say2, say3, text};
use crate::model;
use crate::model::Destination;
use crate::state::preview::{ContestedFile, DestinationPreview, Scan};
use crate::strings;
use crate::strings::Language;
use crate::text::{decimal_text, join_texts, owned};
use crate::views::task_workspace;
use crate::views::task_workspace::{Row, RowModel, TaskWorkspace};
use vstd::prelude::*;

verus! {

/// `1 file` / `12 files`.
pub open spec fn files_words(words: Language, count: usize) -> Seq<char> {
    i18n::counted(
        words,
        strings::COMMON_FILES_COUNT_ONE as int,
        strings::COMMON_FILES_COUNT_OTHER as int,
        count as i64 as int,
    )
}

/// `1 file` / `12 files`.
pub fn files(words: &Language, count: usize) -> (r: String)
    requires
        words.wf(),
    ensures
        r@ == files_words(*words, count),
{
    plural(
        words,
        strings::COMMON_FILES_COUNT_ONE,
        strings::COMMON_FILES_COUNT_OTHER,
        count as i64,
    )
}

/// The positions of rules as a scan counts them, from one on.
pub open spec fn positions(rules: Seq<usize>) -> Seq<Seq<char>> {
    Seq::new(rules.len(), |i: int| crate::text::decimal((rules[i] + 1) as nat))
}

/// The name of the rule that wins a contested file: the first of the scanned rules that match it.
/// A scan goes over the rows that are not drafts alone, so it is one of these. The list may have
/// changed since the scan.
pub open spec fn winner(rows: Seq<RowModel>, rules: Seq<usize>) -> Seq<char> {
    let saved = task_workspace::saved_destinations(rows);
    if rules.len() > 0 && rules[0] < saved.len() {
        saved[rules[0] as int].name
    } else {
        Seq::empty()
    }
}

/// One line about a contested file.
pub open spec fn contested_words(
    words: Language,
    rows: Seq<RowModel>,
    file: ContestedFile,
) -> Seq<char> {
    i18n::said3(
        words,
        strings::WORKSPACE_PREVIEW_CONTESTED_FORMAT as int,
        file.relative_path@,
        crate::text::joined(positions(file.rules@), ", "@),
        winner(rows, file.rules@),
    )
}

/// What a preview says is left in the source.
pub open spec fn unmatched_words(words: Language, unmatched: DestinationPreview) -> Option<
    Seq<char>,
> {
    if unmatched.count > 0 {
        Some(
            i18n::said2(
                words,
                strings::WORKSPACE_PREVIEW_UNMATCHED_FORMAT as int,
                files_words(words, unmatched.count),
                crate::text::joined(unmatched@.sample, ", "@),
            ),
        )
    } else {
        None
    }
}

/// A row shows what the scan says its rule would take.
pub open spec fn shows_share(row: Row, scan: Scan) -> bool {
    if scan.per_destination@.contains_key(row.destination.id) {
        row.preview matches Some(share) && share@ == scan.per_destination@[row.destination.id]@
    } else {
        row.preview is None
    }
}

/// The positions of rules as a scan counts them.
fn numbered(rules: &Vec<usize>) -> (r: Vec<String>)
    ensures
        crate::text::texts(r@) == positions(rules@),
{
    let mut out: Vec<String> = Vec::new();
    let mut i: usize = 0;
    while i < rules.len()
        invariant
            i <= rules@.len(),
            out@.len() == i,
            forall|k: int| 0 <= k < i ==> (#[trigger] out@[k])@ == positions(rules@)[k],
        decreases rules@.len() - i,
    {
        out.push(decimal_text(rules[i] as u128 + 1));
        i = i + 1;
    }
    proof {
        assert(crate::text::texts(out@) =~= positions(rules@));
    }
    out
}

impl TaskWorkspace {
    /// The preview shown is that of this scan.
    pub open spec fn previews(self, words: Language, scan: Scan) -> bool {
        &&& task_workspace::reads(
            self.preview_summary,
            Some(
                i18n::said1(
                    words,
                    strings::WORKSPACE_PREVIEW_SOURCE_FORMAT as int,
                    files_words(words, scan.file_count),
                ),
            ),
        )
        &&& task_workspace::reads(self.preview_unmatched, unmatched_words(words, scan.unmatched))
        &&& forall|i: int| 0 <= i < self.rows@.len() ==> shows_share(#[trigger] self.rows@[i], scan)
        &&& self.contested@.len() == scan.contested@.len()
        &&& forall|i: int|
            0 <= i < self.contested@.len() ==> (#[trigger] self.contested@[i])@ == contested_words(
                words,
                self.held(),
                scan.contested@[i],
            )
        &&& self.extensions == scan.extensions
    }

    /// The marks of hidden rules are the same.
    pub open spec fn same_marks(self, other: TaskWorkspace) -> bool {
        forall|i: int|
            0 <= i < self.rows@.len() ==> (#[trigger] self.rows@[i]).shadowed_by
                == other.rows@[i].shadowed_by
    }

    /// Begins a scan, unless one is under way, and says what to scan for. Only rules that exist: a
    /// row still being written has no destination behind it.
    pub fn begin_scan(&mut self) -> (r: Option<Vec<Destination>>)
        ensures
            *final(self) == (TaskWorkspace { scanning: true, ..*old(self) }),
            r is Some <==> !old(self).scanning,
            r matches Some(list) ==> model::destination_views(list@)
                == task_workspace::saved_destinations(old(self).held()),
    {
        if self.scanning {
            return None;
        }
        let destinations = self.siblings();
        self.scanning = true;
        Some(destinations)
    }

    /// Ends a scan and shows what it found. A source that cannot be read is worth saying out loud:
    /// an empty preview would otherwise read as "no files match your rules".
    pub fn finish_scan(&mut self, words: &Language, scanned: Result<Scan, String>)
        requires
            words.wf(),
        ensures
            final(self).same_frame((TaskWorkspace { scanning: false, ..*old(self) })),
            final(self).save_blocked == old(self).save_blocked,
            final(self).held() == old(self).held(),
            final(self).same_marks(*old(self)),
            match scanned {
                Ok(scan) => final(self).previews(*words, scan),
                Err(error) => {
                    &&& task_workspace::reads(
                        final(self).preview_summary,
                        Some(
                            i18n::said1(
                                *words,
                                strings::WORKSPACE_PREVIEW_FAILED_FORMAT as int,
                                error@,
                            ),
                        ),
                    )
                    &&& (TaskWorkspace {
                        preview_summary: None,
                        ..*final(self)
                    }).shows_no_preview()
                },
            },
    {
        self.scanning = false;
        match scanned {
            Ok(scan) => {
                self.show_preview(words, scan);
            },
            Err(error) => {
                self.clear_preview();
                self.preview_summary =
                Some(say1(words, strings::WORKSPACE_PREVIEW_FAILED_FORMAT, error.as_str()));
            },
        }
    }

    /// Shows what a scan found.
    pub fn show_preview(&mut self, words: &Language, scan: Scan)
        requires
            words.wf(),
        ensures
            final(self).same_frame(*old(self)),
            final(self).save_blocked == old(self).save_blocked,
            final(self).held() == old(self).held(),
            final(self).same_marks(*old(self)),
            final(self).previews(*words, scan),
    {
        broadcast use vstd::std_specs::hash::group_hash_axioms;

        self.preview_summary =
        Some(
            say1(
                words,
                strings::WORKSPACE_PREVIEW_SOURCE_FORMAT,
                files(words, scan.file_count).as_str(),
            ),
        );
        let n: usize = self.rows.len();
        let mut i: usize = 0;
        while i < n
            invariant
                i <= n,
                n == self.rows@.len(),
                n == old(self).rows@.len(),
                self.same_frame(*old(self)),
                self.save_blocked == old(self).save_blocked,
                task_workspace::reads(
                    self.preview_summary,
                    Some(
                        i18n::said1(
                            *words,
                            strings::WORKSPACE_PREVIEW_SOURCE_FORMAT as int,
                            files_words(*words, scan.file_count),
                        ),
                    ),
                ),
                forall|k: int|
                    0 <= k < n ==> (#[trigger] self.rows@[k])@ == old(self).rows@[k]@
                        && self.rows@[k].shadowed_by == old(self).rows@[k].shadowed_by,
                forall|k: int| 0 <= k < i ==> shows_share(#[trigger] self.rows@[k], scan),
            decreases n - i,
        {
            let id: u128 = self.rows[i].destination.id;
            let share = match scan.per_destination.get(&id) {
                Some(share) => Some(share.copy()),
                None => None,
            };
            self.rows[i].preview = share;
            i = i + 1;
        }
        proof {
            assert(self.held() =~= old(self).held());
        }
        self.preview_unmatched =
        if scan.unmatched.count > 0 {
            Some(
                say2(
                    words,
                    strings::WORKSPACE_PREVIEW_UNMATCHED_FORMAT,
                    files(words, scan.unmatched.count).as_str(),
                    join_texts(&scan.unmatched.sample, ", ").as_str(),
                ),
            )
        } else {
            None
        };
        let contested = self.contested_lines(words, &scan.contested);
        self.contested = contested;
        self.extensions = scan.extensions;
    }

    /// One line for each contested file.
    fn contested_lines(&self, words: &Language, files: &Vec<ContestedFile>) -> (r: Vec<String>)
        requires
            words.wf(),
        ensures
            r@.len() == files@.len(),
            forall|i: int|
                0 <= i < r@.len() ==> (#[trigger] r@[i])@ == contested_words(
                    *words,
                    self.held(),
                    files@[i],
                ),
    {
        let saved = self.siblings();
        let ghost views = model::destination_views(saved@);
        let mut out: Vec<String> = Vec::new();
        let mut i: usize = 0;
        while i < files.len()
            invariant
                i <= files@.len(),
                words.wf(),
                views == model::destination_views(saved@),
                views == task_workspace::saved_destinations(self.held()),
                out@.len() == i,
                forall|k: int|
                    0 <= k < i ==> (#[trigger] out@[k])@ == contested_words(
                        *words,
                        self.held(),
                        files@[k],
                    ),
            decreases files@.len() - i,
        {
            let rules = &files[i].rules;
            let winner = if rules.len() > 0 && rules[0] < saved.len() {
                proof {
                    assert(views[rules@[0] as int] == saved@[rules@[0] as int]@);
                }
                saved[rules[0]].name.clone()
            } else {
                String::new()
            };
            out.push(
                say3(
                    words,
                    strings::WORKSPACE_PREVIEW_CONTESTED_FORMAT,
                    files[i].relative_path.as_str(),
                    join_texts(&numbered(rules), ", ").as_str(),
                    winner.as_str(),
                ),
            );
            i = i + 1;
        }
        out
    }
}

/// Which of a row's buttons are there, and which can be pressed.
#[derive(Debug, PartialEq, Eq)]
pub struct RowActions {
    /// How many files the last preview says this rule would take.
    pub taken: Option<String>,
    /// Some of those files, under the count: a count alone does not tell whether the rule caught
    /// the right things.
    pub sample: Option<String>,
    /// The reordering pair, on a rule list.
    pub reorders: bool,
    pub can_move_up: bool,
    pub can_move_down: bool,
    /// Opening the editor, while the row is closed.
    pub edit: bool,
    /// Accepting and discarding, while it is open: beside the row they belong to, because at the
    /// foot of a tall editor they sat below the fold.
    pub finish: bool,
}

/// What one row shows.
#[derive(Debug, PartialEq, Eq)]
pub struct RowFace {
    pub id: u128,
    /// The rule's position, which for a Move task is the order it is matched in.
    pub number: Option<usize>,
    pub summary: String,
    pub name: String,
    pub path: String,
    /// That an earlier rule takes everything. Advisory only: saving is never blocked on it.
    pub warning: Option<String>,
    pub actions: RowActions,
    /// The file types the preview found, offered as one-click rules inside an open editor.
    pub chips: Vec<String>,
}

/// What stands around the rows.
#[derive(Debug, PartialEq, Eq)]
pub struct WorkspaceFace {
    pub title: String,
    pub subtitle: String,
    pub source: String,
    /// What an empty list says.
    pub empty: Option<String>,
    pub add: String,
    /// Whether "everything else" is offered.
    pub catch_all: bool,
    /// Whether a preview can be asked for.
    pub can_preview: bool,
}

impl TaskWorkspace {
    /// What a row's buttons are.
    pub open spec fn row_actions(self, words: Language, index: int, actions: RowActions) -> bool {
        let row = self.rows@[index];
        &&& task_workspace::reads(
            actions.taken,
            match row.preview {
                Some(share) => Some(files_words(words, share.count)),
                None => None,
            },
        )
        &&& task_workspace::reads(
            actions.sample,
            match row.preview {
                Some(share) => Some(crate::text::joined(share@.sample, ", "@)),
                None => None,
            },
        )
        &&& actions.reorders == self.routes()
        &&& actions.can_move_up == (self.routes() && index > 0 && !row@.is_catch_all())
        &&& actions.can_move_down == (self.routes() && index + 1 < self.rows@.len()
            && !row@.is_catch_all())
        &&& actions.edit == (row.editor is None)
        &&& actions.finish == (row.editor is Some)
    }

    /// Which of a row's buttons are there, and which can be pressed.
    pub fn actions(&self, words: &Language, index: usize) -> (r: RowActions)
        requires
            words.wf(),
            index < self.rows@.len(),
        ensures
            self.row_actions(*words, index as int, r),
    {
        let row = &self.rows[index];
        let routing = self.is_routing();
        let catch_all = row.is_catch_all();
        let last = index == self.rows.len() - 1;
        let taken = match &row.preview {
            Some(share) => Some(files(words, share.count)),
            None => None,
        };
        let sample = match &row.preview {
            Some(share) => Some(join_texts(&share.sample, ", ")),
            None => None,
        };
        let open = row.editor.is_some();
        RowActions {
            taken,
            sample,
            reorders: routing,
            can_move_up: routing && index > 0 && !catch_all,
            can_move_down: routing && !last && !catch_all,
            edit: !open,
            finish: open,
        }
    }

    /// What one row shows.
    pub fn row_face(&self, words: &Language, index: usize) -> (r: RowFace)
        requires
            words.wf(),
            index < self.rows@.len(),
        ensures
            r.id == self.rows@[index as int].destination.id,
            r.number == if self.routes() {
                Some((index + 1) as usize)
            } else {
                None
            },
            r.summary@ == task_workspace::row_summary(*words, self.held()[index as int]),
            r.name@ == self.rows@[index as int].destination.name@,
            r.path@ == self.rows@[index as int].destination.path@,
            r.warning == self.rows@[index as int].shadowed_by,
            self.row_actions(*words, index as int, r.actions),
            r.chips@.len() == if self.rows@[index as int].editor is Some {
                self.extensions@.len()
            } else {
                0
            },
            forall|i: int|
                0 <= i < r.chips@.len() ==> (#[trigger] r.chips@[i])@ == self.extensions@[i]@.words(),
    {
        let row = &self.rows[index];
        let n: usize = self.rows.len();
        assert(index < n);
        let mut chips: Vec<String> = Vec::new();
        if row.editor.is_some() {
            let mut i: usize = 0;
            while i < self.extensions.len()
                invariant
                    i <= self.extensions@.len(),
                    chips@.len() == i,
                    forall|k: int|
                        0 <= k < i ==> (#[trigger] chips@[k])@ == self.extensions@[k]@.words(),
                decreases self.extensions@.len() - i,
            {
                chips.push(self.extensions[i].label());
                i = i + 1;
            }
        }
        RowFace {
            id: row.destination.id,
            number: if self.is_routing() {
                Some(index + 1)
            } else {
                None
            },
            summary: row.summary(words),
            name: row.destination.name.clone(),
            path: row.destination.path.clone(),
            warning: row.shadowed_by.clone(),
            actions: self.actions(words, index),
            chips,
        }
    }

    /// What stands around the rows.
    pub fn face(&self, words: &Language) -> (r: WorkspaceFace)
        requires
            words.wf(),
        ensures
            r.title@ == words.says(
                if self.routes() {
                    strings::WORKSPACE_RULES_TITLE as int
                } else {
                    strings::WORKSPACE_DESTINATIONS_TITLE as int
                },
            ),
            r.subtitle@ == words.says(
                if self.routes() {
                    strings::WORKSPACE_ROUTING_SUBTITLE as int
                } else {
                    strings::WORKSPACE_SYNC_SUBTITLE as int
                },
            ),
            r.source@ == self.task.source_path@,
            task_workspace::reads(
                r.empty,
                if self.rows@.len() == 0 {
                    Some(
                        words.says(
                            if self.routes() {
                                strings::WORKSPACE_ROUTING_EMPTY as int
                            } else {
                                strings::WORKSPACE_SYNC_EMPTY as int
                            },
                        ),
                    )
                } else {
                    None
                },
            ),
            r.add@ == words.says(
                if self.routes() {
                    strings::WORKSPACE_ADD_RULE as int
                } else {
                    strings::WORKSPACE_ADD_DESTINATION as int
                },
            ),
            r.catch_all == (self.routes() && !task_workspace::has_catch_all(self.held())),
            r.can_preview == !self.scanning,
    {
        let routing = self.is_routing();
        let title: usize = if routing {
            strings::WORKSPACE_RULES_TITLE
        } else {
            strings::WORKSPACE_DESTINATIONS_TITLE
        };
        let subtitle: usize = if routing {
            strings::WORKSPACE_ROUTING_SUBTITLE
        } else {
            strings::WORKSPACE_SYNC_SUBTITLE
        };
        let empty: usize = if routing {
            strings::WORKSPACE_ROUTING_EMPTY
        } else {
            strings::WORKSPACE_SYNC_EMPTY
        };
        let add: usize = if routing {
            strings::WORKSPACE_ADD_RULE
        } else {
            strings::WORKSPACE_ADD_DESTINATION
        };
        WorkspaceFace {
            title: owned(text(words, title)),
            subtitle: owned(text(words, subtitle)),
            source: self.task.source_path.clone(),
            empty: if self.rows.len() == 0 {
                Some(owned(text(words, empty)))
            } else {
                None
            },
            add: owned(text(words, add)),
            catch_all: self.can_add_catch_all(),
            can_preview: !self.scanning,
        }
    }
}

} // verus!
