//! How lines of the log are laid out for reading.

use crate::services::logging;
use crate::text;
use crate::views::log_viewer;
use crate::views::log_viewer::{LogFiles, LogViewer};
use crate::views::task_card::Tone;
use vstd::prelude::*;

verus! {

proof fn lemma_no_bracket(line: Seq<char>, at: int)
    requires
        0 <= at <= line.len(),
        !line.contains('['),
    ensures
        log_viewer::bracket(line, at) == line.len(),
    decreases line.len() - at,
{
    if at < line.len() {
        assert(line.contains(line[at]));
        lemma_no_bracket(line, at + 1);
    }
}

/// A line that is no record, as is every line without a bracket, has neither a time nor a level:
/// all of it is message.
pub proof fn law_a_line_that_is_no_record_is_all_message(line: Seq<char>, tag: Seq<char>)
    requires
        !line.contains('[') || !log_viewer::is_record(line),
    ensures
        log_viewer::columns(line, tag).time.len() == 0,
        log_viewer::columns(line, tag).level.len() == 0,
        log_viewer::columns(line, tag).message == log_viewer::untagged(line, tag),
{
    if !line.contains('[') {
        lemma_no_bracket(line, 0);
    }
    assert(line.skip(0) =~= line);
}

/// A message loses the tag it begins with and the colon after that; any other is left as it is.
pub proof fn law_only_the_tag_is_taken_off_a_message(message: Seq<char>, tag: Seq<char>)
    ensures
        !tag.is_prefix_of(message) ==> log_viewer::untagged(message, tag) == message,
        log_viewer::untagged(tag + ": "@ + message, tag) == message,
        !": "@.is_prefix_of(message) ==> log_viewer::untagged(tag + message, tag) == message,
{
    reveal_strlit(": ");
    let marked = tag + ": "@ + message;
    assert(tag =~= marked.take(tag.len() as int));
    assert(marked.skip(tag.len() as int) =~= ": "@ + message);
    assert(": "@ =~= (": "@ + message).take(2));
    assert((": "@ + message).skip(2) =~= message);
    let plain = tag + message;
    assert(tag =~= plain.take(tag.len() as int));
    assert(plain.skip(tag.len() as int) =~= message);
}

/// Only errors and warnings are coloured.
pub proof fn law_only_errors_and_warnings_are_coloured(level: Seq<char>)
    ensures
        log_viewer::tone_of(level) == Tone::Danger <==> level == "ERR"@,
        log_viewer::tone_of(level) == Tone::Warning <==> level == "WRN"@,
        level != "ERR"@ && level != "WRN"@ ==> log_viewer::tone_of(level) == Tone::Quiet,
{
    reveal_strlit("ERR");
    reveal_strlit("WRN");
    assert("ERR"@[0] == 'E' && "WRN"@[0] == 'W');
}

/// The viewer shows the last twenty lines, at most, that name its task and its destination, the
/// older file's first, and knows whether there is a log at all.
pub proof fn law_the_viewer_shows_the_last_lines_about_its_destination(
    viewer: LogViewer,
    files: LogFiles,
)
    requires
        viewer.shows(files),
    ensures
        ({
            let mark = "Sync '"@ + viewer.request.task_name@ + "' → '"@
                + viewer.request.destination_name@ + "'"@;
            let found = logging::tail(
                logging::text_of(files.previous),
                logging::text_of(files.current),
                mark,
                20,
            );
            &&& viewer.lines@.len() <= 20
            &&& viewer.lines@.len() == found.len()
            &&& forall|i: int|
                0 <= i < found.len() ==> text::occurs(#[trigger] found[i], mark)
                    && viewer.lines@[i]@ == log_viewer::columns(found[i], mark)
            &&& viewer.log_exists <==> files.current is Some
        }),
{
    let mark = viewer.request.mark();
    let previous = logging::lines(logging::text_of(files.previous));
    let current = logging::lines(logging::text_of(files.current));
    lemma_mentions(previous, mark);
    lemma_mentions(current, mark);
}

proof fn lemma_mentions(all: Seq<Seq<char>>, needle: Seq<char>)
    ensures
        forall|i: int|
            0 <= i < logging::mentions(all, needle).len() ==> text::occurs(
                #[trigger] logging::mentions(all, needle)[i],
                needle,
            ),
    decreases all.len(),
{
    if all.len() > 0 {
        lemma_mentions(all.drop_last(), needle);
        let before = logging::mentions(all.drop_last(), needle);
        assert forall|i: int| 0 <= i < logging::mentions(all, needle).len() implies text::occurs(
            #[trigger] logging::mentions(all, needle)[i],
            needle,
        ) by {
            if i < before.len() {
                assert(text::occurs(before[i], needle));
            }
        }
    }
}

} // verus!
