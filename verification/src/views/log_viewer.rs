//! One destination's own lines out of the log file.
//!
//! Nothing lives in it that is not on disk. The file is read on open and on refresh, so what is
//! shown is a snapshot.

use crate::i18n;
use crate::i18n::say1;
use crate::model::{DestinationSyncStatus, SyncTask};
use crate::search;
use crate::services::logging;
use crate::services::logging::{destination_tag, tail_matching, Level};
use crate::strings;
use crate::strings::Language;
use crate::text::{begins_with, chars_of, concat3, owned, same_text, string_of};
use crate::views::task_card::Tone;
use vstd::prelude::*;

verus! {

/// How many of a destination's lines the window shows. Enough to see a failure and the runs around
/// it; past that the file itself is the better tool.
pub const TAIL_LINES: usize = 20;

/// Which destination's lines to show, and where to read them from.
#[derive(Debug, PartialEq, Eq)]
pub struct LogRequest {
    pub task_id: u128,
    pub task_name: String,
    pub destination_name: String,
    pub log_path: String,
}

impl LogRequest {
    /// What the destination's log lines carry.
    pub open spec fn mark(self) -> Seq<char> {
        logging::tag(self.task_name@, self.destination_name@)
    }

    /// The frame's own title. It names the destination, because in the taskbar this window has
    /// nothing else to say which of them it is about.
    pub fn window_title(&self, words: &Language) -> (r: String)
        requires
            words.wf(),
        ensures
            r@ == i18n::said1(
                *words,
                strings::LOG_VIEWER_WINDOW_TITLE_FORMAT as int,
                self.destination_name@,
            ),
    {
        say1(
            words,
            strings::LOG_VIEWER_WINDOW_TITLE_FORMAT,
            self.destination_name.as_str(),
        )
    }

    /// What the destination's log lines carry.
    pub fn tag(&self) -> (r: String)
        ensures
            r@ == self.mark(),
    {
        destination_tag(self.task_name.as_str(), self.destination_name.as_str())
    }
}

/// What was on disk when the log was read.
#[derive(Debug)]
pub struct LogFiles {
    /// The file before the last roll.
    pub previous: Option<Vec<u8>>,
    pub current: Option<Vec<u8>>,
}

/// One line as the window shows it: a time column, and the message beside it.
#[derive(Debug, PartialEq, Eq)]
pub struct LogLine {
    /// When it was written. Empty on a line that is no record.
    pub time: String,
    /// The three letters of its level. Empty on a line that is no record.
    pub level: String,
    /// What it says, without the tag: the heading names the task and the destination once, and
    /// repeating them would leave no width for what the rows say.
    pub message: String,
}

/// What a line as the window shows it holds.
pub ghost struct LineView {
    pub time: Seq<char>,
    pub level: Seq<char>,
    pub message: Seq<char>,
}

impl View for LogLine {
    type V = LineView;

    open spec fn view(&self) -> LineView {
        LineView { time: self.time@, level: self.level@, message: self.message@ }
    }
}

/// See the module docs.
#[derive(Debug)]
pub struct LogViewer {
    pub request: LogRequest,
    /// The lines as they were last read, oldest first.
    pub lines: Vec<LogLine>,
    /// Whether there is a file to hand to the editor at all.
    pub log_exists: bool,
}

impl LogViewer {
    /// The window shows what these files say about what it was asked for.
    pub open spec fn shows(self, files: LogFiles) -> bool {
        let found = logging::tail(
            logging::text_of(files.previous),
            logging::text_of(files.current),
            self.request.mark(),
            TAIL_LINES as int,
        );
        &&& self.lines@.len() == found.len()
        &&& forall|i: int|
            0 <= i < found.len() ==> (#[trigger] self.lines@[i])@ == columns(
                found[i],
                self.request.mark(),
            )
        &&& self.log_exists == (files.current is Some)
    }

    /// The lines of one destination.
    pub fn new(request: LogRequest, files: &LogFiles) -> (r: Self)
        ensures
            r.request == request,
            r.shows(*files),
    {
        let mut view = LogViewer { request, lines: Vec::new(), log_exists: false };
        view.reread(files);
        view
    }

    /// Shows another destination's lines in the window that is already open.
    pub fn point_at(&mut self, request: LogRequest, files: &LogFiles)
        ensures
            final(self).request == request,
            final(self).shows(*files),
    {
        self.request = request;
        self.reread(files);
    }

    /// Takes the files in. Everything on screen comes from here.
    pub fn reread(&mut self, files: &LogFiles)
        ensures
            final(self).request == old(self).request,
            final(self).shows(*files),
    {
        let tag = self.request.tag();
        let found = tail_matching(&files.previous, &files.current, tag.as_str(), TAIL_LINES);
        let mut lines: Vec<LogLine> = Vec::new();
        let mut i: usize = 0;
        while i < found.len()
            invariant
                i <= found@.len(),
                tag@ == self.request.mark(),
                lines@.len() == i,
                forall|k: int|
                    0 <= k < i ==> (#[trigger] lines@[k])@ == columns(
                        found@[k]@,
                        self.request.mark(),
                    ),
            decreases found@.len() - i,
        {
            lines.push(LogLine::of(found[i].as_str(), tag.as_str()));
            i = i + 1;
        }
        proof {
            let texts = crate::text::texts(found@);
            assert forall|k: int| 0 <= k < texts.len() implies (#[trigger] lines@[k])@ == columns(
                texts[k],
                self.request.mark(),
            ) by {
                assert(texts[k] == found@[k]@);
            }
        }
        self.lines = lines;
        self.log_exists = files.current.is_some();
    }

    /// `Photos → NAS backup`. Which destination these lines are about: on screen rather than only
    /// in the title bar, because it changes under the user when another status is clicked.
    pub fn pair(&self) -> (r: String)
        ensures
            r@ == self.request.task_name@ + " → "@ + self.request.destination_name@,
    {
        concat3(
            self.request.task_name.as_str(),
            " → ",
            self.request.destination_name.as_str(),
        )
    }
}

/// Where the first bracket of a line stands, from `at` on.
pub open spec fn bracket(line: Seq<char>, at: int) -> int
    decreases line.len() - at,
{
    if 0 <= at < line.len() && line[at] != '[' {
        bracket(line, at + 1)
    } else {
        at
    }
}

/// A line is a record: a time, a level in brackets, and something behind them.
pub open spec fn is_record(line: Seq<char>) -> bool {
    let at = bracket(line, 0);
    &&& 0 < at
    &&& at + 5 < line.len()
    &&& line[at - 1] == ' '
    &&& line[at + 4] == ']'
    &&& line[at + 5] == ' '
}

/// Where the first colon with a blank behind it stands, from `at` on.
pub open spec fn colon(line: Seq<char>, at: int) -> Option<int>
    decreases line.len() - at,
{
    if !(0 <= at && at + 1 < line.len()) {
        None
    } else if line[at] == ':' && line[at + 1] == ' ' {
        Some(at)
    } else {
        colon(line, at + 1)
    }
}

/// Where the message of a line begins: behind a record's category, at the beginning of any other
/// line.
pub open spec fn message_start(line: Seq<char>) -> int {
    let at = bracket(line, 0);
    if is_record(line) {
        match colon(line, at + 6) {
            Some(end) => end + 2,
            None => at + 6,
        }
    } else {
        0
    }
}

/// What follows a tag, without the colon between them.
pub open spec fn without_colon(rest: Seq<char>) -> Seq<char> {
    if ": "@.is_prefix_of(rest) {
        rest.skip(2)
    } else {
        rest
    }
}

/// A message without the tag it opens with.
pub open spec fn untagged(message: Seq<char>, tag: Seq<char>) -> Seq<char> {
    if tag.is_prefix_of(message) {
        without_colon(message.skip(tag.len() as int))
    } else {
        message
    }
}

/// A line in its columns.
pub open spec fn columns(line: Seq<char>, tag: Seq<char>) -> LineView {
    let at = bracket(line, 0);
    let message = untagged(line.skip(message_start(line)), tag);
    if is_record(line) {
        LineView { time: line.take(at - 1), level: line.subrange(at + 1, at + 4), message }
    } else {
        LineView { time: Seq::empty(), level: Seq::empty(), message }
    }
}

/// Where the first colon with a blank behind it stands.
fn find_colon(line: &Vec<char>, from: usize) -> (r: Option<usize>)
    requires
        from <= line@.len(),
    ensures
        search::place(r) == colon(line@, from as int),
        r matches Some(at) ==> from <= at && at + 2 <= line@.len(),
{
    let n: usize = line.len();
    let mut at: usize = from;
    while at < n && n - at >= 2
        invariant
            from <= at <= n,
            n == line@.len(),
            colon(line@, from as int) == colon(line@, at as int),
        decreases n - at,
    {
        if line[at] == ':' && line[at + 1] == ' ' {
            return Some(at);
        }
        at = at + 1;
    }
    None
}

/// A message without the tag it opens with.
fn without_tag(message: String, tag: &str) -> (r: String)
    ensures
        r@ == untagged(message@, tag@),
{
    if !begins_with(message.as_str(), tag) {
        return message;
    }
    let chars = chars_of(message.as_str());
    let start: usize = chars_of(tag).len();
    let n: usize = chars.len();
    let rest = string_of(&chars, start, n);
    proof {
        assert(rest@ =~= message@.skip(tag@.len() as int));
        reveal_strlit(": ");
    }
    if begins_with(rest.as_str(), ": ") {
        proof {
            assert(chars@.subrange(start + 2, n as int) =~= rest@.skip(2));
        }
        string_of(&chars, start + 2, n)
    } else {
        rest
    }
}

impl LogLine {
    /// A line of the log in its columns.
    pub fn of(line: &str, tag: &str) -> (r: Self)
        ensures
            r@ == columns(line@, tag@),
    {
        let chars = chars_of(line);
        let n: usize = chars.len();
        let mut at: usize = 0;
        while at < n && chars[at] != '['
            invariant
                at <= n,
                n == chars@.len(),
                chars@ == line@,
                bracket(line@, 0) == bracket(line@, at as int),
            decreases n - at,
        {
            at = at + 1;
        }
        if at == 0 || n - at <= 5 || chars[at - 1] != ' ' || chars[at + 4] != ']' || chars[at + 5]
            != ' ' {
            proof {
                assert(line@.skip(0) =~= line@);
            }
            return LogLine {
                time: String::new(),
                level: String::new(),
                message: without_tag(owned(line), tag),
            };
        }
        let start: usize = match find_colon(&chars, at + 6) {
            Some(end) => end + 2,
            None => at + 6,
        };
        proof {
            assert(chars@.subrange(0, at - 1) =~= line@.take(at - 1));
            assert(chars@.subrange(start as int, n as int) =~= line@.skip(start as int));
        }
        LogLine {
            time: string_of(&chars, 0, at - 1),
            level: string_of(&chars, at + 1, at + 4),
            message: without_tag(string_of(&chars, start, n), tag),
        }
    }

    /// What colour a line is in. A failure is what these lines are usually being read for, so it
    /// carries the same colour it has in the row that sent the user here.
    pub fn tone(&self) -> (r: Tone)
        ensures
            r == tone_of(self.level@),
    {
        if same_text(self.level.as_str(), "ERR") {
            Tone::Danger
        } else if same_text(self.level.as_str(), "WRN") {
            Tone::Warning
        } else {
            Tone::Quiet
        }
    }
}

/// What colour a line of this level is in.
pub open spec fn tone_of(level: Seq<char>) -> Tone {
    if level == "ERR"@ {
        Tone::Danger
    } else if level == "WRN"@ {
        Tone::Warning
    } else {
        Tone::Quiet
    }
}

/// The first bracket of a line stands where it stands.
proof fn lemma_bracket(line: Seq<char>, from: int, at: int)
    requires
        0 <= from <= at < line.len(),
        line[at] == '[',
        forall|i: int| from <= i < at ==> #[trigger] line[i] != '[',
    ensures
        bracket(line, from) == at,
    decreases at - from,
{
    if from < at {
        lemma_bracket(line, from + 1, at);
    }
}

/// The first colon of a line stands where it stands.
proof fn lemma_colon(line: Seq<char>, from: int, at: int)
    requires
        0 <= from <= at,
        at + 1 < line.len(),
        line[at] == ':',
        line[at + 1] == ' ',
        forall|i: int| from <= i < at ==> !(#[trigger] line[i] == ':' && line[i + 1] == ' '),
    ensures
        colon(line, from) == Some(at),
    decreases at - from,
{
    if from < at {
        assert(!(line[from] == ':' && line[from + 1] == ' '));
        lemma_colon(line, from + 1, at);
    }
}

/// A record whose message opens with the tag reads back: its time, its level, and the rest of its
/// message. The time has no bracket in it, and the category no colon with a blank behind it.
pub proof fn law_a_record_reads_back(
    time: Seq<char>,
    level: Level,
    target: Seq<char>,
    tag: Seq<char>,
    rest: Seq<char>,
)
    requires
        !time.contains('['),
        !crate::text::occurs(logging::category(target), ": "@),
    ensures
        columns(logging::record(time, level, target, tag + rest), tag) == (LineView {
            time,
            level: logging::short_name(level),
            message: without_colon(rest),
        }),
{
    reveal_strlit(" [");
    reveal_strlit("] ");
    reveal_strlit(": ");
    reveal_strlit("ERR");
    reveal_strlit("WRN");
    reveal_strlit("INF");
    reveal_strlit("DBG");
    reveal_strlit("TRC");
    let line = logging::record(time, level, target, tag + rest);
    let word = logging::short_name(level);
    let category = logging::category(target);
    let at: int = time.len() as int + 1;
    let end: int = at + 6 + category.len();
    assert(word.len() == 3);
    assert(line[at] == '[');
    assert forall|i: int| 0 <= i < at implies #[trigger] line[i] != '[' by {
        if i < time.len() {
            assert(line[i] == time[i]);
            assert(time.contains(time[i]));
        } else {
            assert(line[i] == ' ');
        }
    }
    lemma_bracket(line, 0, at);
    assert(line[at - 1] == ' ' && line[at + 4] == ']' && line[at + 5] == ' ');
    assert(line[end] == ':' && line[end + 1] == ' ');
    assert forall|i: int| at + 6 <= i < end implies !(#[trigger] line[i] == ':' && line[i + 1]
        == ' ') by {
        let k = i - (at + 6);
        assert(line[i] == category[k]);
        if k + 1 < category.len() {
            assert(line[i + 1] == category[k + 1]);
            if line[i] == ':' && line[i + 1] == ' ' {
                assert(category.subrange(k, k + 2) =~= ": "@);
                assert(crate::text::stands_at(category, ": "@, k));
            }
        } else {
            assert(line[i + 1] == ':');
        }
    }
    lemma_colon(line, at + 6, end);
    assert(line.take(at - 1) =~= time);
    assert(line.subrange(at + 1, at + 4) =~= word);
    assert(line.skip(end + 2) =~= tag + rest);
    assert((tag + rest).subrange(0, tag.len() as int) =~= tag);
    assert((tag + rest).skip(tag.len() as int) =~= rest);
}

/// What a run wrote about a destination is shown whole but for the tag, which the heading gives.
pub proof fn law_a_run_reads_back_without_its_tag(
    time: Seq<char>,
    level: Level,
    target: Seq<char>,
    task: SyncTask,
    status: DestinationSyncStatus,
)
    requires
        !time.contains('['),
        !crate::text::occurs(logging::category(target), ": "@),
    ensures
        ({
            let tag = logging::tag(
                task.name@,
                logging::destination_name(task.destinations@, status.destination_id),
            );
            let message = logging::run_message(task, status);
            let shown = columns(logging::record(time, level, target, message), tag);
            &&& shown.time == time
            &&& shown.level == logging::short_name(level)
            &&& tag + ": "@ + shown.message == message
        }),
{
    let tag = logging::tag(
        task.name@,
        logging::destination_name(task.destinations@, status.destination_id),
    );
    let message = logging::run_message(task, status);
    let rest = message.skip(tag.len() as int);
    reveal_strlit(": ");
    assert(message =~= tag + rest);
    assert(rest.subrange(0, 2) =~= ": "@);
    law_a_record_reads_back(time, level, target, tag, rest);
    assert(tag + ": "@ + rest.skip(2) =~= message);
}

/// A record shows in the colour of the level it was written with.
pub proof fn law_a_record_shows_its_level(level: Level)
    ensures
        tone_of(logging::short_name(level)) == match level {
            Level::ERROR => Tone::Danger,
            Level::WARN => Tone::Warning,
            _ => Tone::Quiet,
        },
{
    reveal_strlit("ERR");
    reveal_strlit("WRN");
    reveal_strlit("INF");
    reveal_strlit("DBG");
    reveal_strlit("TRC");
    assert("ERR"@[0] == 'E' && "WRN"@[0] == 'W');
    assert("INF"@[0] == 'I' && "DBG"@[0] == 'D' && "TRC"@[0] == 'T');
}

} // verus!
