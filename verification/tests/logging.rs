//! The log file: its lines, its tail, and when it rolls.

use syncmaid::model::{DestinationSyncStatus, Moment, SyncOutcome, SyncTask, SyncTaskKind, Trigger};
use syncmaid::model::{DeleteMode, Destination, DestinationDefaults, FileNameCollisionPolicy, SyncStrategy};
use syncmaid::rules::FilterRule;
use syncmaid::services::logging::{
    abbreviate, category_of, destination_tag, format_record, log_destination, previous_name,
    record_at, tail_matching, tail_of, Level, LogSize, MAX_BYTES,
};

fn file(text: &str) -> Option<Vec<u8>> {
    Some(text.as_bytes().to_vec())
}

fn task() -> SyncTask {
    let defaults = DestinationDefaults {
        verify_contents: false,
        delete_mode: DeleteMode::Recycle,
        flatten_structure: false,
        collision_policy: FileNameCollisionPolicy::Skip,
        mass_delete_threshold: 0,
    };
    SyncTask {
        id: 1,
        name: "Photos".to_owned(),
        source_path: r"C:\Photos".to_owned(),
        trigger: Trigger::Manual,
        destinations: vec![Destination::new(
            7,
            "NAS backup",
            r"N:\photos",
            vec![FilterRule::AllFiles],
            SyncStrategy::Mirror,
            &defaults,
        )],
        kind: SyncTaskKind::Sync,
    }
}

#[test]
fn the_tag_is_the_opening_of_a_real_log_line() {
    let line = "2026-08-09 02:00:12.418 [WRN] main_view:                     Sync 'Photos' → 'NAS backup': Failed · access denied";

    assert!(line.contains(&destination_tag("Photos", "NAS backup")));
}

#[test]
fn only_this_destinations_lines_come_back_and_only_the_last_few() {
    let current = file(
        "Sync 'Photos' → 'NAS backup': Success · 1
             Sync 'Photos' → 'USB stick': Success · 2
             Sync 'Docs' → 'NAS backup': Success · 3
             Sync 'Photos' → 'NAS backup': Failed · access denied
",
    );

    let lines = tail_matching(&None, &current, &destination_tag("Photos", "NAS backup"), 20);

    assert_eq!(2, lines.len(), "{lines:?}");
    assert!(lines[0].ends_with("Success · 1"), "{lines:?}");
    assert!(lines[1].ends_with("access denied"), "oldest first: {lines:?}");
}

#[test]
fn the_limit_keeps_the_newest_lines_not_the_oldest() {
    let tag = destination_tag("Photos", "NAS backup");
    let body: String = (0..30).map(|run| format!("{tag}: Success · {run}\n")).collect();

    let lines = tail_matching(&None, &file(&body), &tag, 20);

    assert_eq!(20, lines.len());
    assert!(lines[0].ends_with("· 10"), "{}", lines[0]);
    assert!(lines[19].ends_with("· 29"), "{}", lines[19]);
}

#[test]
fn the_tail_reaches_back_across_the_roll() {
    let tag = destination_tag("Photos", "NAS backup");

    let lines = tail_matching(
        &file(&format!("{tag}: yesterday\n")),
        &file(&format!("{tag}: today\n")),
        &tag,
        20,
    );

    assert_eq!(2, lines.len(), "{lines:?}");
    assert!(lines[0].ends_with("yesterday"), "the older file comes first: {lines:?}");
}

#[test]
fn no_log_file_yet_is_no_lines_rather_than_an_error() {
    assert!(tail_matching(&None, &None, "Sync", 20).is_empty());
}

#[test]
fn levels_abbreviate_the_way_the_csharp_logger_does() {
    assert_eq!("INF", abbreviate(Level::INFO));
    assert_eq!("WRN", abbreviate(Level::WARN));
    assert_eq!("ERR", abbreviate(Level::ERROR));
    assert_eq!("DBG", abbreviate(Level::DEBUG));
    assert_eq!("TRC", abbreviate(Level::TRACE));
}

#[test]
fn bytes_that_are_not_text_do_not_lose_the_line() {
    let mut bytes = b"Sync 'A' bad \xff byte\n".to_vec();
    bytes.extend_from_slice(b"other\n");
    let lines = tail_matching(&None, &Some(bytes), "Sync 'A'", 5);
    assert_eq!(vec!["Sync 'A' bad \u{fffd} byte".to_owned()], lines);
}

#[test]
fn a_line_that_ends_the_way_windows_ends_it_loses_both_marks() {
    let lines = tail_of("", "Sync one\r\nnothing\r\nSync two", "Sync", 5);
    assert_eq!(vec!["Sync one".to_owned(), "Sync two".to_owned()], lines);
}

#[test]
fn a_record_names_its_time_level_and_module() {
    assert_eq!("main_view", category_of("syncmaid::views::main_view"));
    assert_eq!("plain", category_of("plain"));
    assert_eq!(
        "2026-08-09 02:00:12.418 [INF] main_view: hello",
        format_record("2026-08-09 02:00:12.418", Level::INFO, "syncmaid::views::main_view", "hello")
    );
}

#[test]
fn a_record_is_stamped_by_the_clock_on_the_wall() {
    let noon = Moment { seconds: 1_786_240_812, nanoseconds: 418_999_999, offset_seconds: 7_200 };
    assert_eq!(
        "2026-08-09 04:00:12.418 [WRN] main_view: hello",
        record_at(noon, Level::WARN, "syncmaid::views::main_view", "hello")
    );
    // A clock that is a day off is no clock, and the line is written all the same.
    let lost = Moment { offset_seconds: 86_400, ..noon };
    assert_eq!(" [ERR] m: hello", record_at(lost, Level::ERROR, "m", "hello"));
}

#[test]
fn what_a_run_writes_its_tag_finds() {
    let mut status = DestinationSyncStatus::new(7, SyncOutcome::Success);
    status.files_copied = 128;
    status.files_deferred = 2;
    let (level, message) = log_destination(&task(), &status);
    assert_eq!(Level::INFO, level);
    assert_eq!("Sync 'Photos' → 'NAS backup': Success · 128 copied, 2 in use", message);

    let record = format_record("t", level, "m", &message);
    let lines = tail_of("", &record, &destination_tag("Photos", "NAS backup"), 20);
    assert_eq!(vec![record], lines);
}

#[test]
fn a_failure_is_a_warning_with_the_engines_own_words() {
    let mut status = DestinationSyncStatus::new(7, SyncOutcome::Failed);
    status.error = Some("access denied".to_owned());
    assert_eq!(
        (Level::WARN, "Sync 'Photos' → 'NAS backup': Failed · access denied".to_owned()),
        log_destination(&task(), &status)
    );
    status.destination_id = 8;
    status.outcome = SyncOutcome::NeedsConfirmation;
    status.error = None;
    assert_eq!(
        (Level::WARN, "Sync 'Photos' → '?': NeedsConfirmation · ".to_owned()),
        log_destination(&task(), &status)
    );
}

#[test]
fn the_file_rolls_once_it_is_full() {
    let size = LogSize { written: MAX_BYTES - 6 };
    assert!(!size.needs_roll());
    let grown = size.after_write(6, true);
    assert_eq!(MAX_BYTES, grown.written);
    assert!(grown.needs_roll());
    assert_eq!(0, grown.after_roll(true).written);
    assert_eq!(MAX_BYTES, grown.after_roll(false).written);
    assert_eq!(MAX_BYTES - 6, size.after_write(6, false).written);
}

#[test]
fn the_previous_copy_stands_beside_the_file() {
    assert_eq!("syncmaid.log.1", previous_name("syncmaid.log"));
}
