//! What the log says, and what reading it gives back.

use crate::model::{Destination, DestinationSyncStatus, SyncOutcome, SyncTask};
use crate::search;
use crate::services::logging;
use crate::services::logging::Level;
use crate::text;
use vstd::prelude::*;

verus! {

/// The lines kept are those that mention what is looked for, in order, and no others.
pub proof fn law_every_line_that_mentions_it_is_kept(all: Seq<Seq<char>>, needle: Seq<char>)
    ensures
        logging::mentions(all, needle) == all.filter(|line: Seq<char>| text::occurs(line, needle)),
    decreases all.len(),
{
    reveal(Seq::filter);
    if all.len() > 0 {
        law_every_line_that_mentions_it_is_kept(all.drop_last(), needle);
    }
    assert(logging::mentions(all, needle) =~= all.filter(
        |line: Seq<char>| text::occurs(line, needle),
    ));
}

/// A tail is the end of the list: as many as asked for, or all where there are fewer.
pub proof fn law_a_tail_is_the_end_of_the_list(list: Seq<Seq<char>>, n: int)
    requires
        n >= 0,
    ensures
        ({
            let kept = logging::last_of(list, n);
            &&& kept.len() == if list.len() < n {
                list.len() as int
            } else {
                n
            }
            &&& forall|k: int|
                0 <= k < kept.len() ==> #[trigger] kept[k] == list[list.len() - kept.len() + k]
        }),
{
}

/// What is read of two files is the end of what the older and then the newer one has to say.
pub proof fn law_the_older_file_is_read_before_the_newer(
    previous: Seq<char>,
    current: Seq<char>,
    needle: Seq<char>,
    limit: int,
)
    requires
        limit >= 0,
    ensures
        ({
            let older = logging::lines(previous).filter(
                |line: Seq<char>| text::occurs(line, needle),
            );
            let newer = logging::lines(current).filter(
                |line: Seq<char>| text::occurs(line, needle),
            );
            let found = older + newer;
            let kept = logging::tail(previous, current, needle, limit);
            &&& kept.len() == if found.len() < limit {
                found.len() as int
            } else {
                limit
            }
            &&& forall|k: int|
                0 <= k < kept.len() ==> #[trigger] kept[k] == found[found.len() - kept.len() + k]
        }),
{
    law_every_line_that_mentions_it_is_kept(logging::lines(previous), needle);
    law_every_line_that_mentions_it_is_kept(logging::lines(current), needle);
}

/// A file that is not there says nothing.
pub proof fn law_a_missing_file_says_nothing(needle: Seq<char>)
    ensures
        logging::text_of(None) == Seq::<char>::empty(),
        logging::lines(logging::text_of(None)) == Seq::<Seq<char>>::empty(),
{
}

/// Where the last dot stands.
proof fn lemma_last_dot(name: Seq<char>, end: int)
    requires
        0 <= end <= name.len(),
    ensures
        ({
            let dot = logging::last_dot(name, end);
            &&& -1 <= dot < end
            &&& dot >= 0 ==> name[dot] == '.'
            &&& forall|i: int| dot < i < end ==> #[trigger] name[i] != '.'
        }),
    decreases end,
{
    if end > 0 && name[end - 1] != '.' {
        lemma_last_dot(name, end - 1);
    }
}

/// The rolled file is named after the first: its extension, where it has one, gives way to
/// `.log.1`; a name without one has it added. A leading dot begins no extension.
pub proof fn law_the_rolled_file_is_named_after_the_first(stem: Seq<char>, extension: Seq<char>)
    requires
        !extension.contains('.'),
    ensures
        stem.len() > 0 ==> logging::rolled_name(stem + seq!['.'] + extension) == stem + ".log.1"@,
        logging::rolled_name(extension) == extension + ".log.1"@,
        logging::rolled_name(seq!['.'] + extension) == seq!['.'] + extension + ".log.1"@,
{
    let whole = stem + seq!['.'] + extension;
    lemma_last_dot(whole, whole.len() as int);
    let dot = logging::last_dot(whole, whole.len() as int);
    assert(whole[stem.len() as int] == '.');
    if dot > stem.len() {
        assert(whole[dot] == extension[dot - stem.len() - 1]);
    }
    assert(whole.take(stem.len() as int) =~= stem);
    lemma_last_dot(extension, extension.len() as int);
    let none = logging::last_dot(extension, extension.len() as int);
    if none >= 0 {
        assert(extension[none] == '.');
    }
    let hidden = seq!['.'] + extension;
    lemma_last_dot(hidden, hidden.len() as int);
    let first = logging::last_dot(hidden, hidden.len() as int);
    if first > 0 {
        assert(hidden[first] == extension[first - 1]);
    }
}

/// Where the last pair of colons stands.
proof fn lemma_last_path_mark(target: Seq<char>, end: int)
    requires
        0 <= end <= target.len(),
    ensures
        ({
            let mark = logging::last_path_mark(target, end);
            &&& mark == -1 || (0 <= mark && mark + 2 <= end && target[mark] == ':' && target[mark
                + 1] == ':')
            &&& forall|i: int|
                mark < i && 0 <= i && i + 2 <= end ==> !(#[trigger] target[i] == ':' && target[i
                    + 1] == ':')
        }),
    decreases end,
{
    if end >= 2 && !(target[end - 2] == ':' && target[end - 1] == ':') {
        lemma_last_path_mark(target, end - 1);
    }
}

/// The category is the last segment of the target: what follows its last pair of colons, or all of
/// it where there is none. There is no pair of colons in it.
pub proof fn law_the_category_is_the_last_segment(target: Seq<char>)
    ensures
        ({
            let category = logging::category(target);
            let front = target.len() - category.len();
            &&& category == target || (front >= 2 && target == target.take(front - 2) + "::"@
                + category)
            &&& !text::occurs(category, "::"@)
        }),
{
    reveal_strlit("::");
    let n = target.len() as int;
    lemma_last_path_mark(target, n);
    let mark = logging::last_path_mark(target, n);
    let category = logging::category(target);
    let front = target.len() - category.len();
    if mark >= 0 {
        assert(target =~= target.take(front - 2) + "::"@ + category);
    }
    if text::occurs(category, "::"@) {
        let at = choose|at: int| #[trigger] text::stands_at(category, "::"@, at);
        let piece = category.subrange(at, at + 2);
        assert(piece[0] == ':' && piece[1] == ':');
        assert(target[front + at] == ':' && target[front + at + 1] == ':');
        assert(target[front + at] == ':');
    }
}

/// A destination's lines open with the names of its task and of itself, in quotes.
pub proof fn law_the_tag_names_the_task_and_the_destination(
    task: Seq<char>,
    destination: Seq<char>,
)
    ensures
        logging::tag(task, destination) == "Sync '"@ + task + "' → '"@ + destination + "'"@,
{
}

/// A record says, in this order, when, how serious, where and what.
pub proof fn law_a_record_says_when_how_serious_where_and_what(
    time: Seq<char>,
    level: Level,
    target: Seq<char>,
    message: Seq<char>,
)
    ensures
        logging::record(time, level, target, message) == time + " ["@ + logging::short_name(level)
            + "] "@ + logging::category(target) + ": "@ + message,
        logging::short_name(level) == match level {
            Level::TRACE => "TRC"@,
            Level::DEBUG => "DBG"@,
            Level::INFO => "INF"@,
            Level::WARN => "WRN"@,
            Level::ERROR => "ERR"@,
        },
{
}

/// A destination is named by the first of that identifier; one that is not there by a question
/// mark.
pub proof fn law_a_destination_is_named_in_the_log(destinations: Seq<Destination>, id: u128)
    ensures
        (exists|i: int|
            {
                &&& 0 <= i < destinations.len()
                &&& (#[trigger] destinations[i]).id == id
                &&& logging::destination_name(destinations, id) == destinations[i].name@
                &&& forall|k: int| 0 <= k < i ==> (#[trigger] destinations[k]).id != id
            }) || (logging::destination_name(destinations, id) == "?"@ && forall|k: int|
            0 <= k < destinations.len() ==> (#[trigger] destinations[k]).id != id),
{
    let holds = logging::destination_is(destinations, id);
    search::lemma_first(destinations.len(), holds);
    assert forall|k: int| 0 <= k < destinations.len() implies (#[trigger] destinations[k]).id == id
        <==> holds(k) by {}
    match search::first(destinations.len(), holds) {
        Some(i) => {
            assert(holds(i));
            assert(destinations[i].id == id);
        },
        None => {},
    }
}

/// Only a failure, or something to confirm, is trouble.
pub proof fn law_trouble_is_a_failure_or_a_question(outcome: SyncOutcome)
    ensures
        logging::is_trouble(outcome) <==> outcome == SyncOutcome::Failed || outcome
            == SyncOutcome::NeedsConfirmation,
{
}

/// A run's line opens with its tag and says how it ended; in trouble it ends in the reason, and
/// otherwise in how many files were copied and how many were in use.
pub proof fn law_a_runs_line_says_how_it_ended(task: SyncTask, status: DestinationSyncStatus)
    ensures
        ({
            let opening = logging::tag(
                task.name@,
                logging::destination_name(task.destinations@, status.destination_id),
            ) + ": "@ + match status.outcome {
                SyncOutcome::Never => "Never"@,
                SyncOutcome::Running => "Running"@,
                SyncOutcome::Success => "Success"@,
                SyncOutcome::Incomplete => "Incomplete"@,
                SyncOutcome::Failed => "Failed"@,
                SyncOutcome::NeedsConfirmation => "NeedsConfirmation"@,
            } + " · "@;
            let said = logging::run_message(task, status);
            if status.outcome is Failed || status.outcome is NeedsConfirmation {
                match status.error {
                    Some(error) => said == opening + error@,
                    None => said == opening,
                }
            } else {
                said == opening + text::signed_decimal(status.files_copied as int) + " copied, "@
                    + text::signed_decimal(status.files_deferred as int) + " in use"@
            }
        }),
{
    let said = logging::run_message(task, status);
    if status.error is None {
        assert(said + Seq::<char>::empty() =~= said);
        let opening = logging::tag(
            task.name@,
            logging::destination_name(task.destinations@, status.destination_id),
        ) + ": "@ + logging::outcome_word(status.outcome) + " · "@;
        assert(opening + Seq::<char>::empty() =~= opening);
    }
}

/// A carriage return before the line feed is no part of the line, and nothing else is taken off.
pub proof fn law_only_a_carriage_return_is_taken_off_a_line(line: Seq<char>)
    ensures
        logging::without_return(line.push('\r')) == line,
        line.len() == 0 || line.last() != '\r' ==> logging::without_return(line) == line,
{
    assert(line.push('\r').drop_last() =~= line);
}

} // verus!
