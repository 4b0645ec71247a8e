//! The task editor, the destination editor and the task workspace.

use std::collections::HashMap;

use syncmaid::components::badge::{Badge, BadgeTone};
use syncmaid::components::button::{Button, ButtonTone};
use syncmaid::components::checkbox::Checkbox;
use syncmaid::components::choice_card::ChoiceCard;
use syncmaid::components::hint_box::{HintBox, HintTone};
use syncmaid::components::icon::Glyph;
use syncmaid::components::icon_button::{IconButton, IconButtonTone};
use syncmaid::components::palette::Swatch;
use syncmaid::components::segment::{Segment, SegmentOption};
use syncmaid::model::{
    DeleteMode, Destination, DestinationDefaults, FileNameCollisionPolicy, Moment, SyncStrategy,
    SyncTask, SyncTaskKind, Trigger,
};
use syncmaid::rules::FilterRule;
use syncmaid::state::filters::FilterKind;
use syncmaid::state::preview::{ContestedFile, DestinationPreview, ExtensionChip, Scan};
use syncmaid::strings;
use syncmaid::strings::Language;
use syncmaid::views::destination_editor::{DestinationEditor, OverlapProbe};
use syncmaid::views::task_editor::{
    parse_whole_number, CronState, CronVerdict, NoticeTone, SettleLimits, TaskEditor,
    TriggerChoice,
};
use syncmaid::views::task_workspace::{Answers, Blank, Limit, TaskWorkspace};

fn english() -> Language {
    let mut table: Vec<String> = (0..strings::COUNT).map(|key| format!("#{key}")).collect();
    for (key, said) in [
        (strings::COMMON_FILES_COUNT_ONE, "{0} file"),
        (strings::COMMON_FILES_COUNT_OTHER, "{0} files"),
        (strings::WORKSPACE_EVERYTHING_ELSE, "Everything else"),
        (strings::WORKSPACE_NOTHING_YET, "Nothing yet"),
        (strings::WORKSPACE_SHADOWED_BY_FORMAT, "Rule {0} ({1}) takes everything this would"),
        (strings::WORKSPACE_SAVE_BLOCKED_FORMAT, "Not saved: {0}"),
        (strings::WORKSPACE_PREVIEW_SOURCE_FORMAT, "{0} in the source"),
        (strings::WORKSPACE_PREVIEW_FAILED_FORMAT, "Could not scan: {0}"),
        (strings::WORKSPACE_PREVIEW_UNMATCHED_FORMAT, "{0} stay: {1}"),
        (strings::WORKSPACE_PREVIEW_CONTESTED_FORMAT, "{0}: rules {1}, won by {2}"),
        (strings::DEST_EDITOR_NEEDS_FOLDER, "Choose a folder"),
        (strings::DEST_EDITOR_NEEDS_SEPARATE_FOLDER, "Choose a folder outside the source"),
        (strings::DEST_EDITOR_NEEDS_FILTER_RULE, "Add a rule"),
        (strings::DEST_EDITOR_SIBLING_OVERLAP_HINT_FORMAT, "Overlaps {0}"),
        (strings::DEST_EDITOR_DESTINATION_OVERLAP_HINT_FORMAT, "Used by {0}"),
        (strings::TASK_EDITOR_SOURCE_OVERLAP_HINT_FORMAT, "Already {0}'s source"),
        (strings::TASK_EDITOR_CRON_NEXT_RUN_FORMAT, "Next: {0}"),
        (strings::TASK_EDITOR_CRON_INVALID, "Not a schedule"),
        (strings::FILTER_PATH_ROW_FORMAT, "folder {0}"),
        (strings::FILTER_EXTENSION_ROW_FORMAT, "type {0}"),
        (strings::FILTER_WILDCARD_ROW_FORMAT, "pattern {0}"),
        (strings::FILTER_EXCLUDE_ROW_FORMAT, "not {0}"),
    ] {
        table[key] = said.to_owned();
    }
    Language { tag: "en".to_owned(), name: "English".to_owned(), strings: table }
}

fn defaults() -> DestinationDefaults {
    DestinationDefaults {
        verify_contents: false,
        delete_mode: DeleteMode::Recycle,
        flatten_structure: false,
        collision_policy: FileNameCollisionPolicy::Skip,
        mass_delete_threshold: 7,
    }
}

fn rule(id: u128, filters: Vec<FilterRule>) -> Destination {
    Destination::new(
        id,
        &format!("R{id}"),
        &format!(r"D:\r{id}"),
        filters,
        SyncStrategy::Move,
        &defaults(),
    )
}

fn task(kind: SyncTaskKind, destinations: Vec<Destination>) -> SyncTask {
    SyncTask {
        id: 1,
        name: "Photos".to_owned(),
        source_path: r"C:\src".to_owned(),
        trigger: Trigger::Manual,
        destinations,
        kind,
    }
}

fn limit() -> Limit {
    Limit { percent: "25".to_owned(), guarded: true }
}

fn blank() -> Blank {
    Blank { defaults: defaults(), limit: limit() }
}

fn workspace(kind: SyncTaskKind, destinations: Vec<Destination>) -> TaskWorkspace {
    let owner = task(kind, destinations);
    let all = vec![owner.copy()];
    TaskWorkspace::new(&english(), &owner, &all, None, &limit(), false, &blank())
}

fn probe(editor: &DestinationEditor) -> OverlapProbe {
    OverlapProbe {
        source: false,
        siblings: vec![false; editor.siblings.len()],
        destinations: editor.tasks.iter().map(|t| vec![false; t.destinations.len()]).collect(),
    }
}

fn answers(workspace: &TaskWorkspace) -> Vec<Option<Answers>> {
    workspace
        .rows
        .iter()
        .map(|row| {
            row.editor.as_ref().map(|editor| Answers {
                probe: probe(editor),
                leaf: None,
                threshold: 9,
            })
        })
        .collect()
}

fn ids(workspace: &TaskWorkspace) -> Vec<u128> {
    workspace.rows.iter().map(|row| row.destination.id).collect()
}

fn limits() -> SettleLimits {
    SettleLimits { default: 10, min: 1, max: 3_600 }
}

#[test]
fn a_whole_number_is_read_as_it_may_be_typed() {
    for (typed, read) in [
        ("12", Some(12)),
        ("+7", Some(7)),
        ("-7", Some(-7)),
        ("007", Some(7)),
        ("2147483647", Some(i32::MAX)),
        ("-2147483648", Some(i32::MIN)),
        ("2147483648", None),
        ("-2147483649", None),
        ("99999999999999999999", None),
        ("", None),
        ("-", None),
        ("1 2", None),
        ("1.5", None),
        ("+-1", None),
    ] {
        assert_eq!(read, parse_whole_number(typed), "{typed:?}");
        assert_eq!(typed.parse::<i32>().ok(), parse_whole_number(typed), "{typed:?}");
    }
}

#[test]
fn a_new_task_is_saved_once_it_is_named_and_has_a_source() {
    let mut editor = TaskEditor::new_task_as(5, &vec![], limits());
    let never = CronVerdict::NeverOccurs;
    assert!(!editor.can_save(&vec![], &never));
    editor.name = "  Photos ".to_owned();
    editor.source = r" C:\Photos ".to_owned();
    let saved = editor.save(&vec![], &never).expect("nothing is missing");
    assert_eq!((5, "Photos", r"C:\Photos"), (saved.id, saved.name.as_str(), saved.source_path.as_str()));
    assert_eq!(Trigger::Manual, saved.trigger);

    editor.trigger = TriggerChoice::from_index(2);
    for (typed, seconds) in [("30", 30), ("0", 1), ("9999", 3_600), ("soon", 10), (" 12 ", 12)] {
        editor.settle = typed.to_owned();
        assert_eq!(
            Some(Trigger::Watch { settle_seconds: seconds }),
            editor.save(&vec![], &never).map(|task| task.trigger),
            "{typed:?}"
        );
    }
    let one = TaskEditor::new_task(&vec![], limits());
    let two = TaskEditor::new_task(&vec![], limits());
    assert_ne!(one.task_id, two.task_id);
    assert_eq!(4, (one.task_id >> 76) & 0xf);
}

#[test]
fn a_schedule_has_to_parse_but_not_to_come_round() {
    let words = english();
    let mut editor = TaskEditor::edit(&task(SyncTaskKind::Sync, vec![]), &vec![], limits());
    editor.trigger = TriggerChoice::Scheduled;
    let next = CronVerdict::Next("tomorrow".to_owned());
    assert!(!editor.can_save(&vec![], &next), "no schedule yet");
    assert_eq!(CronState::Empty, editor.cron_state(&next));
    editor.cron = " 0 2 * * * ".to_owned();
    assert!(editor.can_save(&vec![], &next));
    assert!(editor.can_save(&vec![], &CronVerdict::NeverOccurs));
    assert!(!editor.can_save(&vec![], &CronVerdict::Invalid));
    assert_eq!(1, editor.trigger_row(&words).selected);
    let (sync, routing) = editor.kind_cards(&words);
    assert!(sync.selected && !routing.selected && !sync.disabled);
    let face = editor.trigger_face(&words, &next);
    assert_eq!((1, false), (face.choice, face.settle));
    assert_eq!("Next: tomorrow", face.cron.unwrap().text);
    let invalid = editor.trigger_face(&words, &CronVerdict::Invalid).cron.unwrap();
    assert_eq!((NoticeTone::Danger, "Not a schedule"), (invalid.tone, invalid.text.as_str()));
    assert_eq!(
        Some(Trigger::Scheduled { cron_expression: "0 2 * * *".to_owned() }),
        editor.save(&vec![], &next).map(|task| task.trigger)
    );
}

#[test]
fn another_tasks_source_blocks_the_save_and_a_missing_folder_does_not() {
    let words = english();
    let mut other = task(SyncTaskKind::Sync, vec![]);
    other.id = 2;
    other.name = "Archive".to_owned();
    let mut editor =
        TaskEditor::edit(&task(SyncTaskKind::Sync, vec![rule(9, vec![])]), &vec![other], limits());
    assert!(editor.kind_locked);
    editor.choose_kind(SyncTaskKind::Move);
    assert_eq!(SyncTaskKind::Sync, editor.kind);
    assert_eq!(Some("Archive".to_owned()), editor.source_conflict(&vec![true]));
    assert!(!editor.can_save(&vec![true], &CronVerdict::Invalid));
    let blocked = editor.source_face(&words, &vec![true], false);
    assert_eq!("Already Archive's source", blocked.conflict.unwrap().text);
    assert!(blocked.missing.is_none());
    assert!(editor.source_face(&words, &vec![false], false).missing.is_some());
    assert!(editor.source_face(&words, &vec![false], true).missing.is_none());
    assert!(editor.can_save(&vec![false], &CronVerdict::Invalid));
    assert_eq!(
        1,
        editor.save(&vec![false], &CronVerdict::Invalid).unwrap().destinations.len(),
        "destinations are carried through"
    );
}

#[test]
fn an_edit_says_what_is_still_missing() {
    let words = english();
    let owner = task(SyncTaskKind::Move, vec![]);
    let mut editor =
        DestinationEditor::edit(&owner, &rule(1, vec![]), &vec![owner.copy()], "25", true);
    let mut said = probe(&editor);
    editor.path = "  ".to_owned();
    let reason = |editor: &DestinationEditor, probe: &OverlapProbe| {
        editor.incomplete_reason(&english(), probe)
    };
    assert_eq!(Some("Choose a folder".to_owned()), reason(&editor, &said));
    editor.path = r" D:\out ".to_owned();
    said.source = true;
    assert_eq!(Some("Choose a folder outside the source".to_owned()), reason(&editor, &said));
    said.source = false;
    assert_eq!(Some("Add a rule".to_owned()), reason(&editor, &said));
    editor.add_extension(" pdf ");
    assert_eq!(None, reason(&editor, &said));
    editor.name = " ".to_owned();
    let built = editor.build_destination(&words, &said, Some("out"), 3).expect("complete");
    assert_eq!(("out", r"D:\out"), (built.name.as_str(), built.path.as_str()));
    assert_eq!(vec![FilterRule::extension("pdf")], built.filters);
    assert_eq!(3, built.mass_delete_threshold);
    editor.confirm_large_deletions = false;
    assert_eq!(
        0,
        editor.build_destination(&words, &said, None, 3).unwrap().mass_delete_threshold
    );

    let mut beside = editor.with_siblings(vec![rule(1, vec![]), rule(2, vec![])]);
    let said =
        OverlapProbe { source: false, siblings: vec![true, true], destinations: vec![vec![]] };
    assert_eq!(
        Some("Overlaps R2".to_owned()),
        reason(&beside, &said),
        "a row is not its own conflict"
    );
    beside.strategy = SyncStrategy::Mirror;
    let free =
        OverlapProbe { source: false, siblings: vec![false, false], destinations: vec![vec![]] };
    assert_eq!(
        vec![FilterRule::AllFiles],
        beside.build_destination(&words, &free, None, 3).unwrap().filters,
        "a mirror takes the whole tree"
    );
}

#[test]
fn the_selection_is_edited_group_by_group() {
    let words = english();
    let owner = task(SyncTaskKind::Sync, vec![]);
    let mut editor = DestinationEditor::edit(&owner, &rule(1, vec![]), &vec![], "25", true);
    editor.group_inputs[0] = " docs ".to_owned();
    editor.add_rule(0);
    editor.choose_group_kind(0, 2);
    assert_eq!(FilterKind::Wildcard, editor.group_kinds[0]);
    editor.group_inputs[0] = "*.tmp".to_owned();
    editor.add_rule(0);
    editor.toggle_excluded(0, 1);
    editor.choose_group_mode(0, 1);
    let face = editor.group_face(&words, 0, false);
    let rows: Vec<&str> = face.rules.iter().map(|row| row.text.as_str()).collect();
    assert_eq!(vec!["folder docs", "not pattern *.tmp"], rows);
    assert_eq!(
        vec![FilterRule::all_of(vec![
            FilterRule::path("docs"),
            FilterRule::not(FilterRule::wildcard("*.tmp")),
        ])],
        editor.filters.to_rules()
    );
    editor.add_group();
    assert_eq!(2, editor.filters_face(&words).groups.len());
    editor.remove_group(0);
    assert!(editor.filters.selects_nothing());
    editor.choose_filter_mode(0);
    assert_eq!(None, editor.filters_face(&words).description);
    assert_eq!(vec![FilterRule::AllFiles], editor.filters.to_rules());
    editor.choose_filter_mode(1);
    editor.add_extension("jpg");
    editor.remove_rule(0, 0);
    editor.choose_combination(1);
    assert!(editor.filters.match_all_groups);
}

#[test]
fn the_editor_shows_what_its_strategy_asks_for() {
    let owner = task(SyncTaskKind::Sync, vec![]);
    let mut editor = DestinationEditor::edit(&owner, &rule(1, vec![]), &vec![], "25", true);
    editor.verify_contents = true;
    let shown = editor.sections(true);
    assert!(shown.strategy && shown.move_options && shown.filters && shown.network_warning);
    assert!(!shown.collision && !shown.deletions && !shown.threshold && !shown.catch_all_hint);
    editor.strategy = SyncStrategy::Mirror;
    let shown = editor.sections(false);
    assert!(shown.deletions && shown.threshold && !shown.filters && !shown.network_warning);
    assert!(editor.strategy_cards(&english()).0.selected);
    assert_eq!(0, editor.collision_row(&english()).selected);
    editor.choose_collision(1);
    editor.choose_delete_mode(1);
    editor.choose_layout(1);
    assert_eq!(1, editor.collision_row(&english()).selected);
    assert_eq!(1, editor.delete_mode_row(&english()).selected);
    assert_eq!(1, editor.layout_row(&english()).selected);
    assert_eq!(FileNameCollisionPolicy::Suffix, editor.collision);
    assert_eq!(DeleteMode::Permanent, editor.delete_mode);
}

#[test]
fn a_new_rule_goes_above_everything_else() {
    let words = english();
    let mut rows =
        workspace(SyncTaskKind::Move, vec![rule(1, vec![FilterRule::extension("a")])]);
    assert!(rows.add_catch_all_as(50, &words, &blank()));
    assert!(!rows.add_catch_all_as(51, &words, &blank()), "a second one could never match");
    rows.add_rule_as(60, &words, &blank());
    assert_eq!(vec![1, 60, 50], ids(&rows));
    assert!(rows.rows[1].draft && rows.rows[2].draft);
    assert!(rows.rows[2].editor.as_ref().unwrap().catch_all);
    assert_eq!("Everything else", rows.rows[2].summary(&words));
    assert_eq!("Nothing yet", rows.rows[1].summary(&words));
    // The catch-all is pinned, and nothing moves below it.
    rows.move_down(60, &words);
    rows.move_up(50, &words);
    assert_eq!(vec![1, 60, 50], ids(&rows));
    rows.move_down(1, &words);
    assert_eq!(vec![60, 1, 50], ids(&rows));
    rows.move_up(1, &words);
    assert_eq!(vec![1, 60, 50], ids(&rows));
    // Backing out of a rule that was never saved leaves nothing behind.
    rows.discard(60, &words);
    assert_eq!(vec![1, 50], ids(&rows));
    rows.delete(50, &words);
    assert_eq!(vec![1], ids(&rows));
    assert!(rows.can_add_catch_all());
    let fresh = rows.add_rule(&words, &blank());
    assert_eq!(vec![1, fresh], ids(&rows));
    assert_eq!(4, (fresh >> 76) & 0xf);
}

#[test]
fn a_copy_stands_below_and_is_a_draft() {
    let words = english();
    let mut rows = workspace(
        SyncTaskKind::Move,
        vec![rule(1, vec![FilterRule::extension("a")]), rule(2, vec![FilterRule::extension("b")])],
    );
    assert!(rows.duplicate_as(1, 70, &words, &limit()));
    assert_eq!(vec![1, 70, 2], ids(&rows));
    assert!(rows.rows[1].draft);
    assert!(rows.rows[1].editor.is_some());
    assert_eq!(
        Some("Rule 1 (R1) takes everything this would".to_owned()),
        rows.rows[1].shadowed_by
    );
    assert!(!rows.duplicate_as(99, 71, &words, &limit()));
    assert_eq!(None, rows.duplicate(99, &words, &limit()));
}

#[test]
fn saving_keeps_what_was_typed() {
    let words = english();
    let mut rows = workspace(
        SyncTaskKind::Move,
        vec![rule(1, vec![FilterRule::extension("a")]), rule(2, vec![FilterRule::extension("b")])],
    );
    rows.expand(1, &limit());
    let editor = rows.rows[0].editor.as_mut().unwrap();
    assert_eq!("25", editor.threshold);
    editor.name = "Renamed".to_owned();
    rows.expand(1, &limit());
    assert_eq!("Renamed", rows.rows[0].editor.as_ref().unwrap().name, "reopening keeps the edit");
    let said = answers(&rows);
    let saved = rows.save(&words, &said).expect("nothing is missing");
    assert_eq!(
        vec!["Renamed", "R2"],
        saved.iter().map(|d| d.name.as_str()).collect::<Vec<_>>()
    );
    assert_eq!(9, saved[0].mass_delete_threshold);
    assert!(rows.rows[0].editor.is_none());
}

#[test]
fn a_rule_that_is_not_finished_blocks_the_save() {
    let words = english();
    let mut rows =
        workspace(SyncTaskKind::Move, vec![rule(1, vec![FilterRule::extension("a")])]);
    rows.add_rule_as(60, &words, &blank());
    let said = answers(&rows);
    assert!(rows.save(&words, &said).is_none());
    assert_eq!(Some("Not saved: Choose a folder".to_owned()), rows.save_blocked);
    assert!(rows.rows[1].editor.is_some(), "it stays open with the reason shown");
    let said = answers(&rows);
    rows.accept(60, &words, said[1].as_ref().unwrap());
    assert_eq!(Some("Choose a folder".to_owned()), rows.save_blocked);
    rows.expand(1, &limit());
    assert_eq!(None, rows.save_blocked, "opening an editor is acting on it");
    rows.discard(60, &words);
    rows.discard(1, &words);
    let said = answers(&rows);
    assert_eq!(1, rows.save(&words, &said).expect("only the saved rule is left").len());
}

#[test]
fn a_rule_that_becomes_everything_else_moves_to_the_end() {
    let words = english();
    let mut rows = workspace(
        SyncTaskKind::Move,
        vec![
            rule(1, vec![FilterRule::extension("a")]),
            rule(2, vec![FilterRule::extension("b")]),
            rule(3, vec![FilterRule::extension("c")]),
        ],
    );
    rows.expand(1, &limit());
    rows.expand(3, &limit());
    rows.rows[0].editor.as_mut().unwrap().choose_filter_mode(0);
    rows.rows[2].editor.as_mut().unwrap().name = "Third".to_owned();
    let said = answers(&rows);
    let saved = rows.save(&words, &said).expect("nothing is missing");
    assert_eq!(vec![2, 3, 1], saved.iter().map(|d| d.id).collect::<Vec<_>>());
    assert_eq!("Third", saved[1].name);
    assert!(!rows.can_add_catch_all());
}

#[test]
fn opening_at_a_row_or_with_a_new_rule() {
    let words = english();
    let owner = task(SyncTaskKind::Sync, vec![rule(1, vec![]), rule(2, vec![])]);
    let all = vec![owner.copy()];
    let at = TaskWorkspace::new(&words, &owner, &all, Some(2), &limit(), false, &blank());
    assert!(at.rows[0].editor.is_none() && at.rows[1].editor.is_some());
    let adding = TaskWorkspace::new(&words, &owner, &all, None, &limit(), true, &blank());
    assert_eq!(3, adding.rows.len());
    let new = &adding.rows[2];
    assert_eq!(SyncStrategy::AddOnly, new.destination.strategy);
    assert_eq!(vec![FilterRule::AllFiles], new.destination.filters);
    assert_eq!(7, new.destination.mass_delete_threshold);
    assert!(new.editor.is_some());
    assert!(!adding.is_routing());
}

#[test]
fn a_preview_says_where_each_file_would_go_and_does_not_go_stale() {
    let words = english();
    let mut rows = workspace(
        SyncTaskKind::Move,
        vec![rule(1, vec![FilterRule::extension("a")]), rule(2, vec![FilterRule::extension("b")])],
    );
    rows.expand(2, &limit());
    assert_eq!(2, rows.begin_scan().expect("none is under way").len());
    assert!(rows.begin_scan().is_none());
    let found = Scan {
        file_count: 3,
        per_destination: HashMap::from([(
            1,
            DestinationPreview { count: 1, sample: vec!["x.a".to_owned()] },
        )]),
        unmatched: DestinationPreview {
            count: 2,
            sample: vec!["y".to_owned(), "z".to_owned()],
        },
        contested: vec![ContestedFile { relative_path: "x.a".to_owned(), rules: vec![1, 0] }],
        extensions: vec![ExtensionChip { extension: "a".to_owned(), count: 1 }],
    };
    rows.finish_scan(&words, Ok(found));
    assert!(!rows.scanning);
    assert_eq!(Some("3 files in the source".to_owned()), rows.preview_summary);
    assert_eq!(Some("2 files stay: y, z".to_owned()), rows.preview_unmatched);
    assert_eq!(vec!["x.a: rules 2, 1, won by R2".to_owned()], rows.contested);
    let first = rows.row_face(&words, 0);
    assert_eq!(Some("1 file".to_owned()), first.actions.taken);
    assert_eq!(Some("x.a".to_owned()), first.actions.sample);
    assert_eq!(Some(1), first.number);
    assert!(first.chips.is_empty());
    assert!(!first.actions.can_move_up && first.actions.can_move_down && first.actions.edit);
    let second = rows.row_face(&words, 1);
    assert_eq!(vec!["a (1)".to_owned()], second.chips);
    assert!(second.actions.finish && !second.actions.edit && !second.actions.can_move_down);
    assert_eq!(None, second.actions.taken);
    // The rules change, and the preview goes.
    rows.move_down(1, &words);
    assert_eq!(None, rows.preview_summary);
    assert!(rows.contested.is_empty());
    assert!(rows.rows.iter().all(|row| row.preview.is_none()));

    rows.begin_scan();
    rows.finish_scan(&words, Err("offline".to_owned()));
    assert_eq!(Some("Could not scan: offline".to_owned()), rows.preview_summary);
    let face = rows.face(&words);
    assert!(face.catch_all && face.can_preview);
    assert_eq!(None, face.empty);
    assert!(workspace(SyncTaskKind::Sync, vec![]).face(&words).empty.is_some());
}

#[test]
fn a_contested_file_is_won_by_the_rule_that_takes_it_whatever_drafts_stand_between() {
    let words = english();
    let mut rows = workspace(
        SyncTaskKind::Move,
        vec![rule(1, vec![FilterRule::extension("a")]), rule(2, vec![FilterRule::extension("b")])],
    );
    let copy = rows.duplicate(1, &words, &limit()).expect("the rule is there");
    assert_eq!(vec![1, copy, 2], ids(&rows));
    assert!(rows.rows[1].draft);
    // The draft is no rule yet: the scan goes over the two others.
    let scanned = rows.begin_scan().expect("none is under way");
    assert_eq!(vec![1, 2], scanned.iter().map(|rule| rule.id).collect::<Vec<_>>());
    let contested = |rules: Vec<usize>| ContestedFile { relative_path: "x".to_owned(), rules };
    let found = Scan {
        file_count: 1,
        per_destination: HashMap::from([(
            2,
            DestinationPreview { count: 2, sample: vec!["x".to_owned(), "y".to_owned()] },
        )]),
        unmatched: DestinationPreview { count: 0, sample: vec![] },
        contested: vec![contested(vec![0, 1]), contested(vec![1]), contested(vec![2])],
        extensions: vec![],
    };
    rows.finish_scan(&words, Ok(found));
    assert_eq!(
        vec![
            "x: rules 1, 2, won by R1".to_owned(),
            "x: rules 2, won by R2".to_owned(),
            "x: rules 3, won by ".to_owned(),
        ],
        rows.contested
    );
    assert_eq!(Some("x, y".to_owned()), rows.row_face(&words, 2).actions.sample);
    assert_eq!(None, rows.row_face(&words, 1).actions.sample);
}

#[test]
fn a_new_row_gets_an_identifier_of_its_own() {
    // Version four, in the variant that goes with it.
    let marks = |id: u128| (id >> 76 & 0xf, id >> 62 & 0x3);
    let words = english();
    let mut rows = workspace(SyncTaskKind::Move, vec![rule(1, vec![FilterRule::extension("a")])]);
    let copy = rows.duplicate(1, &words, &limit()).expect("the rule is there");
    let added = rows.add_rule(&words, &blank());
    let rest = rows.add_catch_all(&words, &blank()).expect("there was none");
    let task = TaskEditor::new_task(&vec![], limits()).task_id;
    for id in [copy, added, rest, task] {
        assert_eq!((4, 2), marks(id));
    }
    assert!(copy != added && added != rest && rest != task && copy != 1);
}

#[test]
fn a_schedule_says_when_it_comes_round_to_the_minute() {
    let next = Moment { seconds: 1_786_240_812, nanoseconds: 0, offset_seconds: -3_600 };
    assert_eq!(CronVerdict::Next("2026-08-09 01:00".to_owned()), CronVerdict::next_at(next));
    let never = Moment { seconds: i64::MAX, ..next };
    assert_eq!(CronVerdict::NeverOccurs, CronVerdict::next_at(never));
}

#[test]
fn what_is_typed_survives_a_change_of_the_selection() {
    let mut rows = workspace(SyncTaskKind::Move, vec![rule(1, vec![FilterRule::extension("a")])]);
    rows.expand(1, &limit());
    let editor = rows.rows[0].editor.as_mut().expect("the row is open");
    editor.group_inputs[0] = "half a pat".to_owned();
    editor.choose_group_kind(0, 1);
    let kinds = editor.group_kinds.clone();
    editor.choose_combination(1);
    editor.choose_group_mode(0, 1);
    editor.toggle_excluded(0, 0);
    editor.add_extension("pdf");
    editor.remove_rule(0, 0);
    assert_eq!(vec!["half a pat".to_owned()], editor.group_inputs);
    assert_eq!(kinds, editor.group_kinds);
}

#[test]
fn the_pieces_of_the_window_know_how_they_are_painted() {
    let badge = Badge::new("x").tone(BadgeTone::Warn).glyph(Glyph::Clock).tooltip("id", "why");
    assert_eq!("x", badge.label());
    assert_eq!((Swatch::WarningSubtle, Swatch::Warning), badge.colors());
    let button = Button::new("id", "Save").tone(ButtonTone::Secondary).disabled(true);
    assert!(!button.paint().filled && !button.paint().live);
    assert!(Button::new("id", "Save").glyph(Glyph::Add).tooltip("t").paint().filled);
    assert_eq!(
        (Swatch::Teal, Swatch::Teal),
        Checkbox::new("id", "x", true).description("d").disabled(true).colors()
    );
    let card = ChoiceCard::new("id", Glyph::Sync, "t", "d").selected(true).disabled(true);
    assert!(card.selected && card.disabled);
    assert_eq!(Swatch::Danger, HintBox::new("x").tone(HintTone::Danger).glyph_color());
    assert_eq!(Glyph::Clock, HintBox::new("x").glyph(Glyph::Clock).glyph);
    let close = IconButton::new("id", Glyph::Close).tone(IconButtonTone::CaptionClose).paint();
    assert!(close.caption);
    assert_eq!((Swatch::Danger, Swatch::Surface), (close.hover, close.hover_glyph));
    let small = IconButton::new("id", Glyph::Close).small().disabled(true).tooltip("t");
    assert_eq!(14, small.glyph_size);
    assert_eq!(15, small.glyph_size(15).glyph_size);
    let row = Segment::new("id", vec![SegmentOption::new("a").glyph(Glyph::Add)], 0).wrapping();
    assert!(row.small && row.wrap);
    assert_eq!(Swatch::Teal, row.paint(0).border);
    assert_eq!(Swatch::HairlineStrong, row.paint(1).border);
}
