//! What the main window and its cards say and do.

use std::collections::{HashMap, HashSet};

use syncmaid::components::icon::{Drawing, Glyph};
use syncmaid::model::{
    AppSettings, DeleteMode, Destination, DestinationDefaults, DestinationSyncStatus,
    FileNameCollisionPolicy, Moment, SyncOutcome, SyncStrategy, SyncTask, SyncTaskKind, Trigger,
};
use syncmaid::rules::FilterRule;
use syncmaid::services::logging::Level;
use syncmaid::state::triggers::{Notification, TriggerEvent};
use syncmaid::state::workspace::Workspace;
use syncmaid::strings;
use syncmaid::strings::Language;
use syncmaid::views::main_actions::{after_answer, after_preview};
use syncmaid::views::main_view::{DialogRequest, MainView, Review, RunRequest};
use syncmaid::views::mirror_delete::MirrorDeleteDecision;
use syncmaid::views::task_card::{
    describe_progress, filter_summary, outcome_appearance, status_text, Operation, ProgressReport,
    Tone,
};
use syncmaid::views::time::{ago, humanize, normalized, since, Span};

fn english() -> Language {
    let mut table: Vec<String> = (0..strings::COUNT).map(|key| format!("#{key}")).collect();
    for (key, said) in [
        (strings::COMMON_FILES_COUNT_ONE, "{0} file"),
        (strings::COMMON_FILES_COUNT_OTHER, "{0} files"),
        (strings::FILTER_ALL_FILES, "All files"),
        (strings::DEST_NO_RULES, "No rules"),
        (strings::DEST_FILTERS_COUNT_ONE, "{0} filter"),
        (strings::DEST_FILTERS_COUNT_OTHER, "{0} filters"),
        (strings::STATUS_FAILED, "Failed"),
        (strings::STATUS_FAILED_FORMAT, "Failed · {0}"),
        (strings::STATUS_INCOMPLETE_FORMAT, "Synced {0} · {1}, {2} in use"),
        (strings::STATUS_SYNCED_FORMAT, "Synced {0} · {1}"),
        (strings::STATUS_NEVER_RUN, "Never run"),
        (strings::STATUS_SYNCING, "Syncing…"),
        (strings::STATUS_NEEDS_CONFIRMATION, "Needs confirmation"),
        (strings::TIME_JUST_NOW, "just now"),
        (strings::TIME_MINUTES_AGO_FORMAT, "{0} min ago"),
        (strings::TIME_HOURS_AGO_FORMAT, "{0} h ago"),
        (strings::TIME_DAYS_AGO_FORMAT, "{0} d ago"),
        (strings::TIME_DUE_NOW, "due now"),
        (strings::TIME_IN_UNDER_A_MINUTE, "in under a minute"),
        (strings::TIME_IN_MINUTES_FORMAT, "in {0} min"),
        (strings::TIME_IN_HOURS_FORMAT, "in {0} h"),
        (strings::TIME_IN_DAYS_FORMAT, "in {0} d"),
        (strings::TASK_NEXT_RUN_FORMAT, "next run {0}"),
        (strings::TASK_TRIGGER_SCHEDULED_FORMAT, "Scheduled: {0}"),
        (strings::TASK_TRIGGER_ERROR_START_FORMAT, "Will not start: {0}"),
        (strings::TASK_TRIGGER_ERROR_RECOVERABLE_FORMAT, "Stopped watching: {0}"),
        (strings::PROGRESS_LINE_FORMAT, "{0} {1} ({2}/{3})"),
        (strings::PROGRESS_COPYING, "Copying"),
        (strings::PROGRESS_REMOVING, "Removing"),
        (strings::MAIN_EXPAND_ALL, "Expand all"),
        (strings::MAIN_COLLAPSE_ALL, "Collapse all"),
    ] {
        table[key] = said.to_owned();
    }
    Language { tag: "en".to_owned(), name: "English".to_owned(), strings: table }
}

fn destination(id: u128, strategy: SyncStrategy, filters: Vec<FilterRule>) -> Destination {
    let defaults = DestinationDefaults {
        verify_contents: false,
        delete_mode: DeleteMode::Recycle,
        flatten_structure: false,
        collision_policy: FileNameCollisionPolicy::Skip,
        mass_delete_threshold: 0,
    };
    Destination::new(id, "D", r"D:\d", filters, strategy, &defaults)
}

fn task(id: u128, trigger: Trigger, kind: SyncTaskKind, destinations: Vec<Destination>) -> SyncTask {
    SyncTask {
        id,
        name: format!("Task {id}"),
        source_path: r"C:\src".to_owned(),
        trigger,
        destinations,
        kind,
    }
}

fn scheduled() -> Trigger {
    Trigger::Scheduled { cron_expression: "0 2 * * *".to_owned() }
}

fn window(tasks: Vec<SyncTask>) -> MainView {
    MainView::new(Workspace::load(tasks, false, HashMap::new(), AppSettings::default()))
}

fn moment(seconds: i64) -> Moment {
    Moment { seconds, nanoseconds: 0, offset_seconds: 0 }
}

fn span(seconds: i64) -> Span {
    Span { seconds, nanoseconds: 0 }
}

#[test]
fn a_failed_row_shows_the_engines_own_sentence() {
    let mut status = DestinationSyncStatus::new(0, SyncOutcome::Failed);
    status.error = Some("Failed to copy 'a.txt': access denied.".into());

    // Wrapped, not paraphrased: the engine's own words survive intact inside a sentence that is
    // translated.
    assert_eq!(
        "Failed · Failed to copy 'a.txt': access denied.",
        status_text(&english(), Some(&status), moment(0))
    );
}

#[test]
fn an_incomplete_row_reports_both_counts() {
    let mut status = DestinationSyncStatus::new(0, SyncOutcome::Incomplete);
    status.files_copied = 126;
    status.files_deferred = 2;

    assert_eq!(
        "Synced just now · 126 files, 2 in use",
        status_text(&english(), Some(&status), moment(0)),
        "a status with no timestamp is one this session has not written out yet"
    );
}

#[test]
fn a_filter_badge_says_all_files_only_for_the_lone_all_files_rule() {
    let words = english();
    assert_eq!(
        "All files",
        filter_summary(&words, &destination(1, SyncStrategy::Mirror, vec![FilterRule::AllFiles]))
    );
    assert_eq!(
        "1 filter",
        filter_summary(
            &words,
            &destination(1, SyncStrategy::AddOnly, vec![FilterRule::extension("jpg")])
        )
    );
    assert_eq!(
        "2 filters",
        filter_summary(
            &words,
            &destination(
                1,
                SyncStrategy::AddOnly,
                vec![FilterRule::extension("jpg"), FilterRule::extension("png")]
            )
        )
    );
    assert_eq!(
        "No rules",
        filter_summary(&words, &destination(1, SyncStrategy::AddOnly, vec![])),
        "an empty filter list selects nothing, and the badge has to say so"
    );
}

#[test]
fn the_status_family_is_four_distinct_glyphs() {
    let own = |glyph: Glyph| match glyph.path() {
        Drawing::Own(path) => path,
        Drawing::Library(icon) => format!("{icon:?}"),
    };
    let paths =
        [own(Glyph::Success), own(Glyph::Warning), own(Glyph::Failure), own(Glyph::Idle)];
    let mut unique = paths.to_vec();
    unique.sort();
    unique.dedup();
    assert_eq!(paths.len(), unique.len(), "{paths:?}");
}

#[test]
fn every_outcome_has_a_sentence_and_a_look() {
    let words = english();
    let mut status = DestinationSyncStatus::new(0, SyncOutcome::Success);
    status.files_copied = 1;
    status.last_run = Some(Moment { seconds: 1_000, nanoseconds: 0, offset_seconds: 7_200 });
    assert_eq!("Synced 2 h ago · 1 file", status_text(&words, Some(&status), moment(8_300)));
    assert_eq!("Never run", status_text(&words, None, moment(0)));
    for (outcome, said) in [
        (SyncOutcome::Never, "Never run"),
        (SyncOutcome::Running, "Syncing…"),
        (SyncOutcome::NeedsConfirmation, "Needs confirmation"),
        (SyncOutcome::Failed, "Failed"),
    ] {
        assert_eq!(said, status_text(&words, Some(&DestinationSyncStatus::new(0, outcome)), moment(0)));
    }
    assert_eq!((Glyph::Failure, Tone::Danger), outcome_appearance(SyncOutcome::Failed));
    assert_eq!((Glyph::Idle, Tone::Warning), outcome_appearance(SyncOutcome::Incomplete));
    assert_eq!((Glyph::Idle, Tone::Muted), outcome_appearance(SyncOutcome::Never));
}

#[test]
fn spans_are_said_in_the_coarsest_unit() {
    let words = english();
    assert_eq!("due now", humanize(&words, span(0)));
    assert_eq!("due now", humanize(&words, span(-5)));
    assert_eq!(
        "in under a minute",
        humanize(&words, Span { seconds: 0, nanoseconds: 1 })
    );
    assert_eq!("in under a minute", humanize(&words, span(59)));
    assert_eq!("in 1 min", humanize(&words, span(60)));
    assert_eq!("in 1 h", humanize(&words, span(5_400)));
    assert_eq!("in 23 h", humanize(&words, span(86_399)));
    assert_eq!("in 2 d", humanize(&words, span(200_000)));
    assert_eq!("just now", ago(&words, Some(span(-100))));
    assert_eq!("59 min ago", ago(&words, Some(span(3_599))));
    assert_eq!("1 d ago", ago(&words, Some(span(86_400))));
}

#[test]
fn the_time_between_two_times_is_rounded_down() {
    let at = |seconds, nanoseconds| Moment { seconds, nanoseconds, offset_seconds: 0 };
    assert_eq!(Some(span(60)), since(at(160, 5), at(100, 5)));
    assert_eq!(
        Some(Span { seconds: 59, nanoseconds: 999_999_999 }),
        since(at(160, 4), at(100, 5))
    );
    assert_eq!(
        Some(Span { seconds: -61, nanoseconds: 999_999_999 }),
        since(at(100, 4), at(160, 5))
    );
    assert_eq!(Some(span(-60)), since(at(100, 5), at(160, 5)));
    assert_eq!(None, since(at(i64::MAX, 0), at(0, 0)));
    assert_eq!(Some(Span { seconds: -1, nanoseconds: 999_999_999 }), normalized(Some((0, -1))));
    assert_eq!(None, normalized(None));
}

#[test]
fn a_progress_line_names_the_file_and_the_count() {
    let mut report = ProgressReport {
        destination_id: 5,
        operation: Operation::Copy,
        relative_path: "photos/2024/img_0042.jpg".to_owned(),
        completed_operations: 2,
        total_operations: 120,
    };
    let words = english();
    assert_eq!("Copying photos/2024/img_0042.jpg (3/120)", describe_progress(&words, &report));
    report.operation = Operation::DeleteDirectory;
    assert_eq!("Removing photos/2024/img_0042.jpg (3/120)", describe_progress(&words, &report));
}

#[test]
fn a_card_shows_the_task_and_its_rows() {
    let words = english();
    let mut view = window(vec![task(
        1,
        scheduled(),
        SyncTaskKind::Sync,
        vec![
            destination(10, SyncStrategy::Mirror, vec![FilterRule::AllFiles]),
            destination(11, SyncStrategy::Move, vec![]),
        ],
    )]);
    view.on_trigger(
        &words,
        TriggerEvent { task_id: 1, notification: Notification::Error("gone".to_owned()) },
    );
    let mut waiting = DestinationSyncStatus::new(10, SyncOutcome::NeedsConfirmation);
    waiting.error = None;
    view.workspace.apply_statuses(vec![waiting]);
    view.refresh_next_runs(&vec![Some(moment(7_300))]);

    let card = view.card(&words, 0, moment(100));

    assert_eq!("Task 1", card.name);
    assert_eq!("Scheduled: 0 2 * * *", card.trigger.text);
    assert_eq!("next run in 2 h", card.next_run.as_ref().unwrap().text);
    assert_eq!(
        Some("Stopped watching: gone".to_owned()),
        card.trigger_error.as_ref().unwrap().tooltip
    );
    assert_eq!("Needs confirmation", card.health);
    assert!(!card.running);
    assert!(card.can_run);
    assert_eq!(2, card.rows.len());
    assert!(card.rows[0].review);
    assert!(card.rows[0].strategy.is_some());
    assert!(card.rows[1].strategy.is_none(), "a rule in an ordered list needs no strategy");
    assert_eq!("No rules", card.rows[1].filter.text);

    view.workspace.toggle_expanded(1);
    assert!(view.card(&words, 0, moment(100)).rows.is_empty());
}

#[test]
fn a_live_line_takes_the_row_over_until_the_run_ends() {
    let words = english();
    let mut view = window(vec![task(
        1,
        Trigger::Manual,
        SyncTaskKind::Sync,
        vec![destination(10, SyncStrategy::Mirror, vec![])],
    )]);
    let plan = view.begin_run(1).expect("the task is there");
    view.note_progress(
        &words,
        &ProgressReport {
            destination_id: 10,
            operation: Operation::Copy,
            relative_path: "a".to_owned(),
            completed_operations: 0,
            total_operations: 1,
        },
    );
    let card = view.card(&words, 0, moment(0));
    assert!(card.running);
    assert!(!card.can_run);
    assert_eq!("Copying a (1/1)", card.rows[0].status);

    let end = view.finish_run(
        &plan,
        Some(vec![DestinationSyncStatus::new(10, SyncOutcome::Success)]),
    );
    assert!(end.write);
    assert_eq!(
        vec![(Level::INFO, "Sync 'Task 1' → 'D': Success · 0 copied, 0 in use".to_owned())],
        end.lines
    );
    assert_eq!("Synced just now · 0 files", view.card(&words, 0, moment(0)).rows[0].status);
}

#[test]
fn a_cancelled_run_leaves_no_trace() {
    let mut view = window(vec![task(
        1,
        Trigger::Manual,
        SyncTaskKind::Sync,
        vec![destination(10, SyncStrategy::Mirror, vec![])],
    )]);
    view.workspace.apply_statuses(vec![DestinationSyncStatus::new(10, SyncOutcome::Failed)]);
    let plan = view.begin_run(1).expect("the task is there");
    assert_eq!(SyncOutcome::Running, view.workspace.statuses()[&10].outcome);
    let end = view.finish_run(&plan, None);
    assert!(!end.write);
    assert!(end.lines.is_empty());
    assert_eq!(SyncOutcome::Failed, view.workspace.statuses()[&10].outcome);
    assert!(view.begin_run(2).is_none());
}

#[test]
fn triggers_that_will_not_start_are_said_out_loud() {
    let words = english();
    let mut view = window(vec![
        task(1, scheduled(), SyncTaskKind::Sync, vec![]),
        task(2, Trigger::Watch { settle_seconds: 5 }, SyncTaskKind::Sync, vec![]),
    ]);
    view.sync_triggers(
        &words,
        &vec![None, Some("no folder".to_owned())],
        &vec![Some(moment(100)), None],
    );
    assert_eq!(Some(&"Will not start: no folder".to_owned()), view.trigger_errors.get(&2));
    assert_eq!(Some(&moment(100)), view.next_runs.get(&1));
    // The one that runs is left alone; the other is tried again and works now.
    view.sync_triggers(&words, &vec![None], &vec![Some(moment(200)), Some(moment(1))]);
    assert!(view.trigger_errors.is_empty());
    assert_eq!(HashMap::from([(1, moment(200))]), view.next_runs);
}

#[test]
fn a_trigger_fires_fails_and_recovers() {
    let words = english();
    let mut view = window(vec![task(1, scheduled(), SyncTaskKind::Sync, vec![])]);
    let event = |notification| TriggerEvent { task_id: 1, notification };
    assert_eq!(Some(1), view.on_trigger(&words, event(Notification::Fired)));
    assert_eq!(None, view.on_trigger(&words, event(Notification::Error("x".to_owned()))));
    assert_eq!("Stopped watching: x", view.trigger_errors[&1]);
    assert_eq!(None, view.on_trigger(&words, event(Notification::Recovered)));
    assert!(view.trigger_errors.is_empty());
}

#[test]
fn a_dialog_is_asked_for_by_name() {
    let empty = window(vec![]);
    assert_eq!(DialogRequest::Task(None), empty.show_dialog("task"));
    for name in
        ["task-edit", "destination", "destination-edit", "workspace", "routing", "log", "confirm"]
    {
        assert_eq!(DialogRequest::Nothing, empty.show_dialog(name), "{name}");
    }
    assert_eq!(DialogRequest::Unknown, empty.show_dialog("nonsense"));
    assert_eq!(DialogRequest::Settings, empty.show_dialog("settings"));
    assert_eq!(DialogRequest::MirrorDelete, empty.show_dialog("mirror-delete"));

    let view = window(vec![
        task(
            1,
            Trigger::Manual,
            SyncTaskKind::Sync,
            vec![
                destination(10, SyncStrategy::AddOnly, vec![]),
                destination(11, SyncStrategy::Mirror, vec![]),
            ],
        ),
        task(
            2,
            Trigger::Manual,
            SyncTaskKind::Move,
            vec![destination(20, SyncStrategy::Mirror, vec![])],
        ),
    ]);
    let workspace = |task, expand, start_with_new_rule| DialogRequest::Workspace {
        task,
        expand,
        start_with_new_rule,
    };
    assert_eq!(DialogRequest::Task(Some(1)), view.show_dialog("task-edit"));
    assert_eq!(workspace(1, None, true), view.show_dialog("destination"));
    assert_eq!(workspace(1, Some(10), false), view.show_dialog("destination-edit"));
    assert_eq!(workspace(1, None, false), view.show_dialog("workspace"));
    assert_eq!(workspace(2, None, false), view.show_dialog("routing"));
    assert_eq!(DialogRequest::Confirm(1), view.show_dialog("confirm"));
    assert_eq!(DialogRequest::Log { task: 1, destination: 10 }, view.show_dialog("log"));
    assert_eq!(vec![(0, 1), (1, 0)], view.mirror_candidates());
}

#[test]
fn a_run_is_asked_for_and_refused_where_another_task_shares_an_end() {
    let tasks = || {
        vec![
            task(
                1,
                Trigger::Manual,
                SyncTaskKind::Sync,
                vec![destination(10, SyncStrategy::Mirror, vec![])],
            ),
            task(
                2,
                Trigger::Manual,
                SyncTaskKind::Sync,
                vec![destination(20, SyncStrategy::Mirror, vec![])],
            ),
        ]
    };
    let mut view = window(tasks());
    let other = view.workspace.tasks()[1].name.clone();

    // Its own source and destination overlap themselves, which is no conflict.
    let alone = vec![vec![vec![true], vec![false]]];
    assert!(matches!(view.request_run(9, &vec![], &vec![]), RunRequest::Gone));
    match view.request_run(1, &vec![true, true], &alone) {
        RunRequest::Refused(conflict) => assert_eq!(other, conflict.task_name),
        _ => panic!("the sources overlap"),
    }
    match view.request_run(1, &vec![true, false], &vec![vec![vec![true], vec![true]]]) {
        RunRequest::Refused(conflict) => assert_eq!(other, conflict.task_name),
        _ => panic!("the destinations overlap"),
    }
    assert!(view.workspace.statuses().is_empty(), "a refusal touches nothing");

    match view.request_run(1, &vec![true, false], &alone) {
        RunRequest::Begun(plan) => assert_eq!(1, plan.task.id),
        _ => panic!("nothing is shared"),
    }
    assert_eq!(SyncOutcome::Running, view.workspace.statuses()[&10].outcome);
}

#[test]
fn saving_destinations_replaces_them_wholesale() {
    let mut view = window(vec![task(
        1,
        Trigger::Manual,
        SyncTaskKind::Move,
        vec![destination(10, SyncStrategy::Move, vec![]), destination(11, SyncStrategy::Move, vec![])],
    )]);
    view.workspace.apply_statuses(vec![
        DestinationSyncStatus::new(10, SyncOutcome::Success),
        DestinationSyncStatus::new(11, SyncOutcome::Success),
    ]);
    assert!(view.save_destinations(
        1,
        vec![destination(12, SyncStrategy::Move, vec![]), destination(10, SyncStrategy::Move, vec![])]
    ));
    let ids: Vec<u128> = view.workspace.tasks()[0].destinations.iter().map(|d| d.id).collect();
    assert_eq!(vec![12, 10], ids);
    assert_eq!(1, view.workspace.statuses().len());
    assert!(!view.save_destinations(9, vec![]));

    assert!(view.delete_destination(1, 12));
    assert_eq!(1, view.workspace.tasks()[0].destinations.len());
    assert!(!view.delete_destination(9, 12));
}

#[test]
fn deleting_a_task_takes_everything_keyed_to_it() {
    let words = english();
    let mut view = window(vec![task(1, scheduled(), SyncTaskKind::Sync, vec![])]);
    view.sync_triggers(&words, &vec![None], &vec![Some(moment(5))]);
    view.on_trigger(
        &words,
        TriggerEvent { task_id: 1, notification: Notification::Error("x".to_owned()) },
    );
    let deleted = view.delete_task(1);
    assert!(deleted.runner);
    assert!(deleted.write);
    assert!(view.trigger_errors.is_empty());
    assert!(view.next_runs.is_empty());
    assert!(view.workspace.tasks().is_empty());
}

#[test]
fn a_review_asks_only_when_something_would_go() {
    let view = window(vec![task(
        1,
        Trigger::Manual,
        SyncTaskKind::Sync,
        vec![destination(10, SyncStrategy::AddOnly, vec![]), destination(11, SyncStrategy::Mirror, vec![])],
    )]);
    let (task, index) = view.review_deletions(1, 11).expect("both are there");
    assert_eq!((1, 1), (task.id, index));
    assert!(view.review_deletions(1, 12).is_none());
    assert!(view.review_deletions(2, 11).is_none());
    assert_eq!(Review::Run, after_preview(0));
    assert_eq!(Review::Ask, after_preview(3));
    assert_eq!(Some(HashSet::from([11])), after_answer(MirrorDeleteDecision::Delete, 11));
    assert_eq!(None, after_answer(MirrorDeleteDecision::Keep, 11));
}

#[test]
fn the_header_and_the_sidebar_follow_the_tasks() {
    let words = english();
    let mut view = window(vec![
        task(1, Trigger::Manual, SyncTaskKind::Sync, vec![]),
        task(2, Trigger::Manual, SyncTaskKind::Sync, vec![destination(20, SyncStrategy::Mirror, vec![])]),
    ]);
    assert_eq!(vec![2], view.runnable());
    let header = view.header(&words);
    assert_eq!("Collapse all", header.toggle);
    assert!(header.can_run_all);
    assert_eq!(None, header.empty);
    assert_eq!(Some(1), view.select_task(2));
    assert_eq!(None, view.select_task(3));
    let sidebar = view.sidebar();
    assert_eq!(2, sidebar.items.len());
    assert!(!sidebar.items[1].active, "what was selected last is not there");
    view.workspace.toggle_sidebar();
    assert!(view.sidebar().items.is_empty());
    assert!(!view.close_to_tray());

    let empty = window(vec![]);
    assert_eq!("Expand all", empty.header(&words).toggle);
    assert!(!empty.header(&words).can_run_all);
    assert!(empty.header(&words).empty.is_some());
}
