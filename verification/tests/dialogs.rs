//! The confirmations, the settings page and the log window.

use syncmaid::i18n::Catalog;
use syncmaid::model::{
    AppSettings, DeleteMode, Destination, DestinationDefaults, FileNameCollisionPolicy,
    SyncStrategy,
};
use syncmaid::platform::autostart::AutoStartState;
use syncmaid::rules::FilterRule;
use syncmaid::services::logging::{destination_tag, format_record, Level};
use syncmaid::strings;
use syncmaid::strings::Language;
use syncmaid::views::confirm::Prompt;
use syncmaid::views::log_viewer::{LogFiles, LogLine, LogRequest, LogViewer};
use syncmaid::views::mirror_delete::{ConfirmMirrorDelete, MirrorDeleteDecision, WindowEvent};
use syncmaid::views::settings::{AutoStartChange, SettingsView};
use syncmaid::views::task_card::Tone;

fn language(tag: &str, name: &str) -> Language {
    let mut table: Vec<String> = (0..strings::COUNT).map(|key| format!("#{key}")).collect();
    for (key, said) in [
        (
            strings::MAIN_DELETE_TASK_MESSAGE_FORMAT,
            "Delete \"{0}\" and {1} The files at both ends are left alone.",
        ),
        (strings::MAIN_DELETE_TASK_SUFFIX_ONE, "its {0} destination?"),
        (strings::MAIN_DELETE_TASK_SUFFIX_OTHER, "its {0} destinations?"),
        (strings::TASK_DELETE_DESTINATION_MESSAGE_FORMAT, "Remove \"{0}\"?"),
        (strings::SETTINGS_SYSTEM_DEFAULT, "System default"),
        (strings::SETTINGS_VERSION_FORMAT, "Version {0}"),
        (strings::LOG_VIEWER_WINDOW_TITLE_FORMAT, "Log of {0}"),
    ] {
        table[key] = said.to_owned();
    }
    Language { tag: tag.to_owned(), name: name.to_owned(), strings: table }
}

fn english() -> Language {
    language("en", "English")
}

fn shipped() -> Vec<Language> {
    vec![
        english(),
        language("zh-Hans", "简体中文"),
        language("zh-Hant", "繁體中文"),
        language("ja", "日本語"),
    ]
}

fn destination(delete_mode: DeleteMode) -> Destination {
    let defaults = DestinationDefaults {
        verify_contents: false,
        delete_mode,
        flatten_structure: false,
        collision_policy: FileNameCollisionPolicy::Skip,
        mass_delete_threshold: 0,
    };
    Destination::new(
        1,
        "NAS backup",
        r"N:\photos",
        vec![FilterRule::AllFiles],
        SyncStrategy::Mirror,
        &defaults,
    )
}

fn dialog(delete_mode: DeleteMode, count: usize, sample: Vec<String>) -> ConfirmMirrorDelete {
    ConfirmMirrorDelete::new(&destination(delete_mode), count, &sample)
}

fn settings(language: Option<&str>) -> AppSettings {
    AppSettings {
        close_to_tray: false,
        start_minimized: false,
        language: language.map(|tag| tag.to_owned()),
    }
}

fn page(language: Option<&str>) -> SettingsView {
    SettingsView::new(settings(language), "", AutoStartState::Disabled, "1.2.3")
}

#[test]
fn the_button_says_what_will_actually_happen_to_the_files() {
    assert_eq!("Move to Recycle Bin", dialog(DeleteMode::Recycle, 128, vec![]).confirm_label());
    assert_eq!(
        "Delete 128 files",
        dialog(DeleteMode::Permanent, 128, vec![]).confirm_label(),
        "a permanent delete has to name the number: it is the last chance to notice it"
    );
    assert_eq!("Delete 1 file", dialog(DeleteMode::Permanent, 1, vec![]).confirm_label());
}

#[test]
fn the_explanation_names_the_destination_and_the_count() {
    let explanation = dialog(DeleteMode::Recycle, 128, vec![]).explanation();

    assert!(explanation.contains("NAS backup"), "{explanation}");
    assert!(explanation.contains("128 files"), "{explanation}");
    assert!(explanation.contains("Recycle Bin"), "{explanation}");
    assert_eq!(
        "Syncing \"NAS backup\" would move 128 files to the Recycle Bin, because they are no \
         longer in the source. That is more than this destination's threshold, so the run stopped \
         to ask.",
        explanation
    );
}

#[test]
fn a_permanent_delete_never_mentions_the_recycle_bin() {
    // The two wordings are the difference between recoverable and not, and a wrong one here is a
    // user consenting to something else entirely.
    let explanation = dialog(DeleteMode::Permanent, 4, vec![]).explanation();

    assert!(explanation.contains("permanently delete"), "{explanation}");
    assert!(!explanation.contains("Recycle"), "{explanation}");
}

#[test]
fn files_that_are_not_named_are_counted() {
    let some = dialog(DeleteMode::Recycle, 10, vec!["a".to_owned(), "b".to_owned()]);
    assert_eq!(Some("…and 8 more.".to_owned()), some.hidden());
    assert_eq!(None, dialog(DeleteMode::Recycle, 1, vec!["a".to_owned()]).hidden());
    assert_eq!(None, dialog(DeleteMode::Recycle, 0, vec!["a".to_owned()]).hidden());
}

#[test]
fn the_question_is_answered_once() {
    let mut asked = dialog(DeleteMode::Recycle, 1, vec![]);
    assert_eq!(
        Some(MirrorDeleteDecision::Delete),
        asked.decide(WindowEvent::Pressed(MirrorDeleteDecision::Delete))
    );
    assert_eq!(None, asked.decide(WindowEvent::Closed));
    assert_eq!(
        Some(MirrorDeleteDecision::Keep),
        dialog(DeleteMode::Recycle, 1, vec![]).decide(WindowEvent::Closed)
    );
    assert_eq!(
        Some(MirrorDeleteDecision::Keep),
        dialog(DeleteMode::Recycle, 1, vec![]).decide(WindowEvent::NotOpened)
    );
}

#[test]
fn deleting_a_task_says_what_goes_with_it_and_what_does_not() {
    let prompt = Prompt::delete_task(&english(), "Photos", 2);

    assert!(prompt.message.contains("\"Photos\""));
    assert!(prompt.message.contains("its 2 destinations"));
    assert!(
        prompt.message.contains("files at both ends are left alone"),
        "the commonest fear on this button is that it deletes the files"
    );
}

#[test]
fn the_destination_count_reads_naturally_at_one() {
    assert!(Prompt::delete_task(&english(), "Photos", 1).message.contains("its 1 destination?"));
}

#[test]
fn a_destructive_confirm_is_destructive_unless_told_otherwise() {
    assert!(Prompt::delete_destination(&english(), "NAS").destructive);
    assert!(!Prompt::delete_destination(&english(), "NAS").benign().destructive);
    assert_eq!("Remove \"NAS\"?", Prompt::delete_destination(&english(), "NAS").message);
}

#[test]
fn settings_autostart_is_read_from_the_registry_rather_than_from_settings() {
    // Nothing about autostart is mirrored into settings.json, so the two cannot disagree.
    let stored = AppSettings {
        close_to_tray: true,
        start_minimized: true,
        language: Some("ja".into()),
    };
    let mut view = SettingsView::new(stored, r"C:\app\Data", AutoStartState::Enabled, "1.2.3");

    assert_eq!(AutoStartState::Enabled, view.auto_start_state);
    assert_eq!(AutoStartChange::Disable, view.toggle_auto_start());
    view.reread_auto_start(AutoStartState::DisabledByWindows);
    assert_eq!(AutoStartChange::Refused, view.toggle_auto_start());
    view.reread_auto_start(AutoStartState::Disabled);
    assert_eq!(AutoStartChange::Enable, view.toggle_auto_start());
}

#[test]
fn settings_the_version_shown_is_the_one_that_was_built() {
    let view = SettingsView::new(settings(None), r"C:\app\Data", AutoStartState::Disabled, "1.2.3");
    assert_eq!("1.2.3", view.version);
    assert_eq!("Version 1.2.3", view.face(&english(), &shipped()).version);
}

#[test]
fn following_the_system_is_the_empty_value_rather_than_a_tag() {
    // The row carries texts, so "no preference" has to be a value rather than an absence, and it
    // must round-trip, or opening settings would silently pin a language.
    let following = page(None);
    assert!(following.language_value().is_empty());

    let options = SettingsView::language_options(&english(), &shipped());
    assert!(options[0].value.is_empty(), "system default is the empty value");
    assert_eq!("System default", options[0].label);
    assert_eq!(
        shipped().len() + 1,
        options.len(),
        "every shipped language is offered, plus the system entry"
    );
    assert_eq!(0, following.language_index(&shipped()));
}

#[test]
fn a_pinned_language_round_trips_through_the_dropdown_value() {
    let view = page(Some("zh-Hant"));

    assert_eq!("zh-Hant", view.language_value());
    assert!(
        SettingsView::language_options(&english(), &shipped())
            .iter()
            .any(|option| option.value == "zh-Hant"),
        "the pinned tag has to be one of the offered values or the dropdown shows nothing"
    );
    assert_eq!(3, view.language_index(&shipped()));
    assert_eq!(0, page(Some("de")).language_index(&shipped()));
}

#[test]
fn picking_a_language_switches_and_is_kept() {
    let mut view = page(None);
    let mut catalog = Catalog { languages: shipped(), active: 0 };
    let (kept, redraw) = view.pick_language(4, &mut catalog, Some("en-GB"));
    assert_eq!(Some("ja".to_owned()), kept.language);
    assert!(redraw);
    assert_eq!(3, catalog.active);
    assert_eq!(4, view.language_index(&catalog.languages));
    let (kept, redraw) = view.pick_language(0, &mut catalog, Some("zh-TW"));
    assert_eq!(None, kept.language);
    assert!(redraw);
    assert_eq!(2, catalog.active);
    let (kept, redraw) = view.pick_language(99, &mut catalog, Some("zh-TW"));
    assert_eq!(None, kept.language);
    assert!(!redraw);
}

#[test]
fn a_switch_applies_the_moment_it_is_flipped() {
    let mut view = page(None);
    assert!(view.toggle_close_to_tray().close_to_tray);
    let kept = view.toggle_start_minimized();
    assert!(kept.close_to_tray && kept.start_minimized);
    let face = view.face(&english(), &shipped());
    assert!(face.close_to_tray && face.start_minimized);
    assert!(!face.starts_with_windows && !face.blocked_by_windows);
    assert!(!view.toggle_close_to_tray().close_to_tray);
}

#[test]
fn the_log_window_shows_one_destinations_lines() {
    let request = |destination: &str| LogRequest {
        task_id: 1,
        task_name: "Photos".to_owned(),
        destination_name: destination.to_owned(),
        log_path: "syncmaid.log".to_owned(),
    };
    let shown = |time: &str, level: &str, message: &str| LogLine {
        time: time.to_owned(),
        level: level.to_owned(),
        message: message.to_owned(),
    };
    let nas_tag = destination_tag("Photos", "NAS");
    let nas = format_record("t", Level::ERROR, "m", &format!("{nas_tag}: Failed · full"));
    let usb = format_record("u", Level::WARN, "m", &destination_tag("Photos", "USB"));
    let files =
        LogFiles { previous: None, current: Some(format!("{nas}\n{usb}\n").into_bytes()) };
    let mut viewer = LogViewer::new(request("NAS"), &files);
    assert_eq!(vec![shown("t", "ERR", "Failed · full")], viewer.lines);
    assert_eq!(Tone::Danger, viewer.lines[0].tone());
    assert!(viewer.log_exists);
    assert_eq!("Photos → NAS", viewer.pair());
    assert_eq!("Log of NAS", viewer.request.window_title(&english()));
    viewer.point_at(request("USB"), &files);
    assert_eq!(vec![shown("u", "WRN", "")], viewer.lines);
    assert_eq!(Tone::Warning, viewer.lines[0].tone());
    viewer.reread(&LogFiles { previous: None, current: None });
    assert!(viewer.lines.is_empty());
    assert!(!viewer.log_exists);

    let written = format_record(
        "2026-08-09 02:00:12.418",
        Level::INFO,
        "syncmaid::views::main_view",
        &format!("{nas_tag}: Success · 128 copied, 2 in use"),
    );
    let read = LogLine::of(&written, &nas_tag);
    assert_eq!(
        shown("2026-08-09 02:00:12.418", "INF", "Success · 128 copied, 2 in use"),
        read
    );
    assert_eq!(Tone::Quiet, read.tone());
    // The tag goes only where the message opens with it, and nothing else is lost.
    let said = format_record("t", Level::INFO, "m", &format!("again: {nas_tag}"));
    assert_eq!(shown("t", "INF", &format!("again: {nas_tag}")), LogLine::of(&said, &nas_tag));
    for line in ["no level", "[ERR] m: x", "x[ERR] m: x", "t [ERR", "t [ERROR] m: x", ""] {
        assert_eq!(shown("", "", line), LogLine::of(line, &nas_tag));
        assert_eq!(Tone::Quiet, LogLine::of(line, &nas_tag).tone());
    }
    assert_eq!(shown("t", "ERR", "bare"), LogLine::of("t [ERR] bare", &nas_tag));
    assert_eq!(shown("", "", "rest"), LogLine::of(&format!("{nas_tag}: rest"), &nas_tag));
}
