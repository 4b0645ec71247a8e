//! The activity and error log.
//!
//! The log is read back as well as written: a destination's status opens a window onto its own
//! lines. [`destination_tag`] is what makes that possible, and the two ends have to agree on one
//! sentence forever.

use crate::model::{Destination, DestinationSyncStatus, Moment, SyncOutcome, SyncTask};
use crate::search;
use crate::text;
use crate::text::{chars_of, concat2, concat3, has_text, owned, signed_decimal_text, string_of};
use crate::views::time;
use vstd::prelude::*;

verus! {

/// Roll once the file passes this, keeping one previous copy.
pub const MAX_BYTES: u64 = 5 * 1024 * 1024;

/// How serious a log line is.
#[derive(Debug, Clone, Copy, PartialEq, Eq, Structural)]
pub enum Level {
    TRACE,
    DEBUG,
    INFO,
    WARN,
    ERROR,
}

/// The three letters for a level.
pub open spec fn short_name(level: Level) -> Seq<char> {
    match level {
        Level::TRACE => "TRC"@,
        Level::DEBUG => "DBG"@,
        Level::INFO => "INF"@,
        Level::WARN => "WRN"@,
        Level::ERROR => "ERR"@,
    }
}

/// The three letters for a level.
pub fn abbreviate(level: Level) -> (r: &'static str)
    ensures
        r@ == short_name(level),
{
    match level {
        Level::TRACE => "TRC",
        Level::DEBUG => "DBG",
        Level::INFO => "INF",
        Level::WARN => "WRN",
        Level::ERROR => "ERR",
    }
}

/// The opening of every line about a destination.
pub open spec fn tag(task: Seq<char>, destination: Seq<char>) -> Seq<char> {
    "Sync '"@ + task + "' → '"@ + destination + "'"@
}

/// The needle that finds one destination's lines, and the opening of every line about it.
///
/// `Sync 'Photos' → 'NAS backup'`. Both names, because a destination name is only unique inside
/// its task.
pub fn destination_tag(task: &str, destination: &str) -> (r: String)
    ensures
        r@ == tag(task@, destination@),
{
    let front = concat3("Sync '", task, "' → '");
    concat3(front.as_str(), destination, "'")
}

/// Where the line that begins at `at` ends: at its line feed, or at the end of the text.
pub open spec fn line_end(file: Seq<char>, at: int) -> int
    decreases file.len() - at,
{
    if 0 <= at < file.len() && file[at] != '\n' {
        line_end(file, at + 1)
    } else {
        at
    }
}

/// A line without the carriage return before its line feed.
pub open spec fn without_return(line: Seq<char>) -> Seq<char> {
    if line.len() > 0 && line.last() == '\r' {
        line.drop_last()
    } else {
        line
    }
}

/// The end of a line is not before its beginning, and not past the text.
pub proof fn lemma_line_end(file: Seq<char>, at: int)
    requires
        0 <= at <= file.len(),
    ensures
        at <= line_end(file, at) <= file.len(),
        line_end(file, at) < file.len() ==> file[line_end(file, at)] == '\n',
        forall|k: int| at <= k < line_end(file, at) ==> file[k] != '\n',
    decreases file.len() - at,
{
    if at < file.len() && file[at] != '\n' {
        lemma_line_end(file, at + 1);
    }
}

/// The lines of a text from `at` on. The last line's ending is optional.
pub open spec fn lines_from(file: Seq<char>, at: int) -> Seq<Seq<char>>
    decreases file.len() - at,
    when 0 <= at <= file.len()
    via lines_from_decreases
{
    if at >= file.len() {
        Seq::empty()
    } else {
        let end = line_end(file, at);
        if end < file.len() {
            seq![without_return(file.subrange(at, end))] + lines_from(file, end + 1)
        } else {
            seq![file.skip(at)]
        }
    }
}

#[via_fn]
proof fn lines_from_decreases(file: Seq<char>, at: int) {
    lemma_line_end(file, at);
}

/// The lines of a text.
pub open spec fn lines(file: Seq<char>) -> Seq<Seq<char>> {
    lines_from(file, 0)
}

/// The lines that mention `needle`, in order.
pub open spec fn mentions(all: Seq<Seq<char>>, needle: Seq<char>) -> Seq<Seq<char>>
    decreases all.len(),
{
    if all.len() == 0 {
        Seq::empty()
    } else if text::occurs(all.last(), needle) {
        mentions(all.drop_last(), needle).push(all.last())
    } else {
        mentions(all.drop_last(), needle)
    }
}

/// The last `n` of a list.
pub open spec fn last_of(list: Seq<Seq<char>>, n: int) -> Seq<Seq<char>> {
    if list.len() <= n {
        list
    } else {
        list.skip(list.len() - n)
    }
}

/// The last `limit` lines mentioning `needle`, the previous file's before the current one's.
pub open spec fn tail(
    previous: Seq<char>,
    current: Seq<char>,
    needle: Seq<char>,
    limit: int,
) -> Seq<Seq<char>> {
    last_of(mentions(lines(previous), needle) + mentions(lines(current), needle), limit)
}

/// Mentions of two lists are the mentions of one after the other.
proof fn lemma_mentions_concat(a: Seq<Seq<char>>, b: Seq<Seq<char>>, needle: Seq<char>)
    ensures
        mentions(a + b, needle) == mentions(a, needle) + mentions(b, needle),
    decreases b.len(),
{
    if b.len() == 0 {
        assert(a + b =~= a);
        assert(mentions(a, needle) + mentions(b, needle) =~= mentions(a, needle));
    } else {
        assert((a + b).drop_last() =~= a + b.drop_last());
        lemma_mentions_concat(a, b.drop_last(), needle);
        assert(mentions(a + b, needle) =~= mentions(a, needle) + mentions(b, needle));
    }
}

/// Adds the lines of a text that mention `needle`.
fn add_mentions(file: &str, needle: &str, out: &mut Vec<String>)
    ensures
        text::texts(final(out)@) == text::texts(old(out)@) + mentions(lines(file@), needle@),
{
    let chars = chars_of(file);
    let ghost before = text::texts(out@);
    let ghost mut done: Seq<Seq<char>> = Seq::empty();
    let mut at: usize = 0;
    proof {
        assert(before + mentions(done, needle@) =~= before);
        assert(done + lines_from(file@, 0) =~= lines(file@));
    }
    while at < chars.len()
        invariant
            at <= chars@.len(),
            chars@ == file@,
            before == text::texts(old(out)@),
            done + lines_from(file@, at as int) == lines(file@),
            text::texts(out@) == before + mentions(done, needle@),
        decreases chars@.len() - at,
    {
        proof {
            lemma_line_end(file@, at as int);
        }
        let mut end: usize = at;
        while end < chars.len() && chars[end] != '\n'
            invariant
                at <= end <= chars@.len(),
                chars@ == file@,
                line_end(file@, at as int) == line_end(file@, end as int),
            decreases chars@.len() - end,
        {
            end = end + 1;
        }
        let terminated = end < chars.len();
        // The carriage return before a line feed belongs to the line's ending.
        let stop: usize = if terminated && end > at && chars[end - 1] == '\r' {
            end - 1
        } else {
            end
        };
        let line = string_of(&chars, at, stop);
        let ghost rest = if terminated {
            lines_from(file@, end + 1)
        } else {
            Seq::empty()
        };
        proof {
            let whole = file@.subrange(at as int, end as int);
            if terminated {
                if end > at {
                    assert(whole.last() == file@[end - 1]);
                }
                assert(line@ =~= without_return(whole));
            } else {
                assert(line@ =~= file@.skip(at as int));
                assert(seq![line@] =~= seq![line@] + rest);
            }
            assert(lines_from(file@, at as int) == seq![line@] + rest);
            assert(done + (seq![line@] + rest) =~= done.push(line@) + rest);
            assert(done.push(line@).drop_last() =~= done);
        }
        if has_text(line.as_str(), needle) {
            proof {
                text::lemma_texts_push(out@, line);
                assert((before + mentions(done, needle@)).push(line@) =~= before + mentions(
                    done,
                    needle@,
                ).push(line@));
            }
            out.push(line);
        }
        proof {
            done = done.push(line@);
        }
        if !terminated {
            proof {
                assert(done + rest =~= done);
            }
            return ;
        }
        at = end + 1;
    }
    proof {
        assert(done + lines_from(file@, at as int) =~= done);
    }
}

/// The last `limit` lines of the two files that mention `needle`, oldest first.
///
/// The previous file comes first, so what comes out is a true tail. The roll happens at a size
/// nobody chose, and the line explaining a failure is as likely to have just crossed it as not.
pub fn tail_of(previous: &str, current: &str, needle: &str, limit: usize) -> (r: Vec<String>)
    ensures
        text::texts(r@) == tail(previous@, current@, needle@, limit as int),
{
    let mut matched: Vec<String> = Vec::new();
    add_mentions(previous, needle, &mut matched);
    add_mentions(current, needle, &mut matched);
    let ghost all = mentions(lines(previous@), needle@) + mentions(lines(current@), needle@);
    proof {
        assert(text::texts(matched@) =~= all);
    }
    if matched.len() <= limit {
        return matched;
    }
    let excess: usize = matched.len() - limit;
    let kept = matched.split_off(excess);
    proof {
        assert(text::texts(kept@) =~= all.skip(all.len() - limit));
    }
    kept
}

/// What `String::from_utf8_lossy` makes of some bytes.
pub uninterp spec fn lossy(bytes: Seq<u8>) -> Seq<char>;

/// `String::from_utf8_lossy`: the text the bytes encode, with what is not UTF-8 replaced; a
/// function of the bytes alone.
#[verifier::external_body]
fn decode_lossy(bytes: &Vec<u8>) -> (r: String)
    ensures
        r@ == lossy(bytes@),
{
    String::from_utf8_lossy(bytes).into_owned()
}

/// The text of a file that may not be there.
pub open spec fn text_of(bytes: Option<Vec<u8>>) -> Seq<char> {
    match bytes {
        Some(b) => lossy(b@),
        None => Seq::empty(),
    }
}

fn decode(bytes: &Option<Vec<u8>>) -> (r: String)
    ensures
        r@ == text_of(*bytes),
{
    match bytes {
        Some(b) => decode_lossy(b),
        None => String::new(),
    }
}

/// The last `limit` lines mentioning `tag`, oldest first. A file that is not there has none,
/// which is not an error.
///
/// Decoded lossily on purpose: a half-written line at the end of a file being appended to must
/// not cost the reader the good lines above it.
pub fn tail_matching(
    previous: &Option<Vec<u8>>,
    current: &Option<Vec<u8>>,
    tag: &str,
    limit: usize,
) -> (r: Vec<String>)
    ensures
        text::texts(r@) == tail(text_of(*previous), text_of(*current), tag@, limit as int),
{
    tail_of(decode(previous).as_str(), decode(current).as_str(), tag, limit)
}

/// Where the last `mark` in a name stands, or -1.
pub open spec fn last_dot(name: Seq<char>, end: int) -> int
    decreases end,
{
    if end <= 0 {
        -1
    } else if name[end - 1] == '.' {
        end - 1
    } else {
        last_dot(name, end - 1)
    }
}

/// The name the roll gives a file: its extension replaced by `log.1`. A leading dot begins no
/// extension.
pub open spec fn rolled_name(name: Seq<char>) -> Seq<char> {
    let dot = last_dot(name, name.len() as int);
    if dot > 0 {
        name.take(dot) + ".log.1"@
    } else {
        name + ".log.1"@
    }
}

/// The file name the roll puts the previous copy under. Shared, so the reader looks where the
/// writer wrote.
pub fn previous_name(name: &str) -> (r: String)
    ensures
        r@ == rolled_name(name@),
{
    let chars = chars_of(name);
    let mut end: usize = chars.len();
    while end > 0 && chars[end - 1] != '.'
        invariant
            end <= chars@.len(),
            chars@ == name@,
            last_dot(name@, name@.len() as int) == last_dot(name@, end as int),
        decreases end,
    {
        end = end - 1;
    }
    if end > 1 {
        proof {
            assert(chars@.subrange(0, end - 1) =~= name@.take(end - 1));
        }
        concat2(string_of(&chars, 0, end - 1).as_str(), ".log.1")
    } else {
        concat2(name, ".log.1")
    }
}

/// Where the last `::` in a target stands before `end`, or -1.
pub open spec fn last_path_mark(target: Seq<char>, end: int) -> int
    decreases end,
{
    if end < 2 {
        -1
    } else if target[end - 2] == ':' && target[end - 1] == ':' {
        end - 2
    } else {
        last_path_mark(target, end - 1)
    }
}

/// The last segment of a target.
pub open spec fn category(target: Seq<char>) -> Seq<char> {
    let mark = last_path_mark(target, target.len() as int);
    if mark >= 0 {
        target.skip(mark + 2)
    } else {
        target
    }
}

/// The last segment of a target, which is what a line names as its category.
pub fn category_of(target: &str) -> (r: String)
    ensures
        r@ == category(target@),
{
    let chars = chars_of(target);
    let mut end: usize = chars.len();
    while end >= 2 && !(chars[end - 2] == ':' && chars[end - 1] == ':')
        invariant
            end <= chars@.len(),
            chars@ == target@,
            last_path_mark(target@, target@.len() as int) == last_path_mark(target@, end as int),
        decreases end,
    {
        end = end - 1;
    }
    if end >= 2 {
        proof {
            assert(chars@.subrange(end as int, chars@.len() as int) =~= target@.skip(end as int));
        }
        string_of(&chars, end, chars.len())
    } else {
        owned(target)
    }
}

/// One record as it stands in the file, without its line feed.
pub open spec fn record(
    time: Seq<char>,
    level: Level,
    target: Seq<char>,
    message: Seq<char>,
) -> Seq<char> {
    time + " ["@ + short_name(level) + "] "@ + category(target) + ": "@ + message
}

/// `2026-08-09 02:00:12.418 [INF] TaskNode: Sync 'Photos' → 'NAS backup': Success · 128 copied`
pub fn format_record(time: &str, level: Level, target: &str, message: &str) -> (r: String)
    ensures
        r@ == record(time@, level, target@, message@),
{
    let front = concat3(time, " [", abbreviate(level));
    let middle = concat3(front.as_str(), "] ", category_of(target).as_str());
    concat3(middle.as_str(), ": ", message)
}

/// The record of something that happened at this time. A time that cannot be written is left out:
/// the record is not.
pub fn record_at(time: Moment, level: Level, target: &str, message: &str) -> (r: String)
    ensures
        r@ == record(
            match time::written(time, time::TO_THE_MILLISECOND) {
                Some(text) => text,
                None => Seq::empty(),
            },
            level,
            target@,
            message@,
        ),
{
    let text = match time::format_moment(time, time::TO_THE_MILLISECOND) {
        Some(text) => text,
        None => String::new(),
    };
    format_record(text.as_str(), level, target, message)
}

/// The word for an outcome.
pub open spec fn outcome_word(outcome: SyncOutcome) -> Seq<char> {
    match outcome {
        SyncOutcome::Never => "Never"@,
        SyncOutcome::Running => "Running"@,
        SyncOutcome::Success => "Success"@,
        SyncOutcome::Incomplete => "Incomplete"@,
        SyncOutcome::Failed => "Failed"@,
        SyncOutcome::NeedsConfirmation => "NeedsConfirmation"@,
    }
}

fn word_for(outcome: SyncOutcome) -> (r: &'static str)
    ensures
        r@ == outcome_word(outcome),
{
    match outcome {
        SyncOutcome::Never => "Never",
        SyncOutcome::Running => "Running",
        SyncOutcome::Success => "Success",
        SyncOutcome::Incomplete => "Incomplete",
        SyncOutcome::Failed => "Failed",
        SyncOutcome::NeedsConfirmation => "NeedsConfirmation",
    }
}

/// A destination has this identifier.
pub open spec fn destination_is(destinations: Seq<Destination>, id: u128) -> spec_fn(int) -> bool {
    |i: int| destinations[i].id == id
}

/// The name of the first destination with this identifier, or a question mark.
pub open spec fn destination_name(destinations: Seq<Destination>, id: u128) -> Seq<char> {
    match search::first(destinations.len(), destination_is(destinations, id)) {
        Some(i) => destinations[i].name@,
        None => "?"@,
    }
}

/// The outcome has to be looked at.
pub open spec fn is_trouble(outcome: SyncOutcome) -> bool {
    outcome is Failed || outcome is NeedsConfirmation
}

/// The message one destination's run leaves in the log.
pub open spec fn run_message(task: SyncTask, status: DestinationSyncStatus) -> Seq<char> {
    let front = tag(task.name@, destination_name(task.destinations@, status.destination_id))
        + ": "@ + outcome_word(status.outcome) + " · "@;
    if is_trouble(status.outcome) {
        front + match status.error {
            Some(error) => error@,
            None => Seq::empty(),
        }
    } else {
        front + text::signed_decimal(status.files_copied as int) + " copied, "@
            + text::signed_decimal(status.files_deferred as int) + " in use"@
    }
}

fn name_of(task: &SyncTask, id: u128) -> (r: String)
    ensures
        r@ == destination_name(task.destinations@, id),
{
    let ghost holds = destination_is(task.destinations@, id);
    let mut i: usize = 0;
    while i < task.destinations.len()
        invariant
            i <= task.destinations@.len(),
            holds == destination_is(task.destinations@, id),
            forall|k: int| 0 <= k < i ==> !(#[trigger] holds(k)),
        decreases task.destinations@.len() - i,
    {
        if task.destinations[i].id == id {
            proof {
                search::lemma_found(i as int, task.destinations@.len(), holds);
            }
            return task.destinations[i].name.clone();
        }
        i = i + 1;
    }
    proof {
        search::lemma_absent(task.destinations@.len(), holds);
    }
    owned("?")
}

/// One line per destination per run: the run history the rows do not show. Returns how serious
/// it is, and the message.
pub fn log_destination(task: &SyncTask, status: &DestinationSyncStatus) -> (r: (Level, String))
    ensures
        r.0 == if is_trouble(status.outcome) {
            Level::WARN
        } else {
            Level::INFO
        },
        r.1@ == run_message(*task, *status),
{
    let name = name_of(task, status.destination_id);
    let opening = destination_tag(task.name.as_str(), name.as_str());
    let front = concat2(
        concat3(opening.as_str(), ": ", word_for(status.outcome)).as_str(),
        " · ",
    );
    match status.outcome {
        SyncOutcome::Failed | SyncOutcome::NeedsConfirmation => {
            let message = match &status.error {
                Some(error) => concat2(front.as_str(), error.as_str()),
                None => {
                    proof {
                        assert(front@ + Seq::<char>::empty() =~= front@);
                    }
                    front
                },
            };
            (Level::WARN, message)
        },
        _ => {
            let copied = concat3(
                front.as_str(),
                signed_decimal_text(status.files_copied as i128).as_str(),
                " copied, ",
            );
            let message = concat3(
                copied.as_str(),
                signed_decimal_text(status.files_deferred as i128).as_str(),
                " in use",
            );
            (Level::INFO, message)
        },
    }
}

/// How far the log file has grown.
#[derive(Debug, Clone, Copy, PartialEq, Eq, Structural)]
pub struct LogSize {
    pub written: u64,
}

impl LogSize {
    /// Whether the file has to be rolled aside before the next line.
    pub fn needs_roll(self) -> (r: bool)
        ensures
            r == (self.written >= MAX_BYTES),
    {
        self.written >= MAX_BYTES
    }

    /// After trying to roll. Where the file could not be moved aside it goes on growing: keeping
    /// the line matters more than the size.
    pub fn after_roll(self, moved: bool) -> (r: Self)
        ensures
            r.written == if moved {
                0
            } else {
                self.written
            },
    {
        if moved {
            LogSize { written: 0 }
        } else {
            self
        }
    }

    /// After trying to write a line. A line that could not be written does not count.
    pub fn after_write(self, bytes: u64, succeeded: bool) -> (r: Self)
        requires
            self.written + bytes <= u64::MAX,
        ensures
            r.written == if succeeded {
                self.written + bytes
            } else {
                self.written as int
            },
    {
        if succeeded {
            LogSize { written: self.written + bytes }
        } else {
            self
        }
    }
}

/// A text that holds another between two pieces mentions it.
pub proof fn lemma_occurs_between(before: Seq<char>, middle: Seq<char>, after: Seq<char>)
    ensures
        text::occurs(before + middle + after, middle),
{
    let whole = before + middle + after;
    assert(whole.subrange(before.len() as int, (before.len() + middle.len()) as int) =~= middle);
    assert(text::stands_at(whole, middle, before.len() as int));
}

/// Every record a run leaves in the log is found by its destination's tag.
pub proof fn law_the_tag_finds_what_a_run_wrote(
    time: Seq<char>,
    target: Seq<char>,
    level: Level,
    task: SyncTask,
    status: DestinationSyncStatus,
)
    ensures
        text::occurs(
            record(time, level, target, run_message(task, status)),
            tag(task.name@, destination_name(task.destinations@, status.destination_id)),
        ),
{
    let needle = tag(task.name@, destination_name(task.destinations@, status.destination_id));
    let message = run_message(task, status);
    let front = time + " ["@ + short_name(level) + "] "@ + category(target) + ": "@;
    let after = message.skip(needle.len() as int);
    assert(message =~= needle + after);
    assert(record(time, level, target, message) =~= front + needle + after);
    lemma_occurs_between(front, needle, after);
}

/// The file that a list of records makes: each followed by a line feed.
pub open spec fn file_of(records: Seq<Seq<char>>) -> Seq<char>
    decreases records.len(),
{
    if records.len() == 0 {
        Seq::empty()
    } else {
        file_of(records.drop_last()) + records.last() + seq!['\n']
    }
}

/// A record that is one line: no line feed in it, no carriage return at its end.
pub open spec fn is_one_line(line: Seq<char>) -> bool {
    !line.contains('\n') && (line.len() > 0 ==> line.last() != '\r')
}

/// Lines end where they end, whatever follows.
proof fn lemma_lines_append(file: Seq<char>, line: Seq<char>, at: int)
    requires
        0 <= at <= file.len(),
        file.len() == 0 || file.last() == '\n',
        is_one_line(line),
    ensures
        lines_from(file + line + seq!['\n'], at) == lines_from(file, at) + seq![line],
    decreases file.len() - at,
{
    let whole = file + line + seq!['\n'];
    lemma_line_end(whole, at);
    if at < file.len() {
        lemma_line_end(file, at);
        let end = line_end(file, at);
        assert(end < file.len()) by {
            if end == file.len() {
                assert(file[file.len() - 1] == '\n');
            }
        }
        assert(whole.take(file.len() as int) =~= file);
        lemma_same_end(file, whole, at);
        assert(whole.subrange(at, end) =~= file.subrange(at, end));
        lemma_lines_append(file, line, end + 1);
        assert(lines_from(whole, at) =~= lines_from(file, at) + seq![line]);
    } else {
        let end = (file.len() + line.len()) as int;
        assert(forall|k: int| at <= k < end ==> #[trigger] whole[k] != '\n') by {
            assert forall|k: int| at <= k < end implies #[trigger] whole[k] != '\n' by {
                assert(whole[k] == line[k - file.len()]);
                assert(line.contains(line[k - file.len()]));
            }
        }
        assert(whole[end] == '\n');
        lemma_end_is(whole, at, end);
        assert(whole.subrange(at, end) =~= line);
        assert(lines_from(whole, end + 1) =~= Seq::empty());
        assert(lines_from(whole, at) =~= seq![line]);
        assert(lines_from(file, at) + seq![line] =~= seq![line]);
    }
}

/// A line ends at the first line feed.
proof fn lemma_end_is(file: Seq<char>, at: int, end: int)
    requires
        0 <= at <= end < file.len(),
        file[end] == '\n',
        forall|k: int| at <= k < end ==> #[trigger] file[k] != '\n',
    ensures
        line_end(file, at) == end,
    decreases end - at,
{
    if at < end {
        assert(file[at] != '\n');
        lemma_end_is(file, at + 1, end);
    }
}

/// What follows a text does not move the end of a line that ends within it.
proof fn lemma_same_end(file: Seq<char>, whole: Seq<char>, at: int)
    requires
        0 <= at < file.len() <= whole.len(),
        file == whole.take(file.len() as int),
        line_end(file, at) < file.len(),
    ensures
        line_end(whole, at) == line_end(file, at),
{
    lemma_line_end(file, at);
    let end = line_end(file, at);
    assert(whole[end] == file[end]);
    assert forall|k: int| at <= k < end implies #[trigger] whole[k] != '\n' by {
        assert(whole[k] == file[k]);
    }
    lemma_end_is(whole, at, end);
}

/// Reading a log gives back what was written to it, line for line.
pub proof fn law_reading_gives_back_what_was_written(records: Seq<Seq<char>>)
    requires
        forall|i: int| 0 <= i < records.len() ==> is_one_line(#[trigger] records[i]),
    ensures
        lines(file_of(records)) == records,
    decreases records.len(),
{
    if records.len() == 0 {
        assert(lines(file_of(records)) =~= records);
    } else {
        let front = records.drop_last();
        assert forall|i: int| 0 <= i < front.len() implies is_one_line(#[trigger] front[i]) by {
            assert(front[i] == records[i]);
        }
        law_reading_gives_back_what_was_written(front);
        let line = records.last();
        assert(is_one_line(records[records.len() - 1]));
        let file = file_of(front);
        assert(file.len() == 0 || file.last() == '\n');
        lemma_lines_append(file, line, 0);
        assert(front + seq![line] =~= records);
    }
}

/// The roll loses nothing that the reader still sees: over a previous and a current file the
/// reader finds the newest of all the records about a destination, as if there were one file.
pub proof fn law_the_tail_reaches_across_the_roll(
    older: Seq<Seq<char>>,
    newer: Seq<Seq<char>>,
    needle: Seq<char>,
    limit: int,
)
    requires
        forall|i: int| 0 <= i < older.len() ==> is_one_line(#[trigger] older[i]),
        forall|i: int| 0 <= i < newer.len() ==> is_one_line(#[trigger] newer[i]),
        0 <= limit,
    ensures
        tail(file_of(older), file_of(newer), needle, limit) == last_of(
            mentions(older + newer, needle),
            limit,
        ),
        tail(file_of(older), file_of(newer), needle, limit) == tail(
            Seq::empty(),
            file_of(older + newer),
            needle,
            limit,
        ),
{
    law_reading_gives_back_what_was_written(older);
    law_reading_gives_back_what_was_written(newer);
    lemma_mentions_concat(older, newer, needle);
    let all = older + newer;
    assert forall|i: int| 0 <= i < all.len() implies is_one_line(#[trigger] all[i]) by {
        if i < older.len() {
            assert(all[i] == older[i]);
        } else {
            assert(all[i] == newer[i - older.len()]);
        }
    }
    law_reading_gives_back_what_was_written(all);
    assert(lines(Seq::empty()) =~= Seq::empty());
    assert(mentions(Seq::empty(), needle) + mentions(all, needle) =~= mentions(all, needle));
}

} // verus!
