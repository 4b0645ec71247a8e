//! What the system is asked, and what its answers mean.

use syncmaid::arguments::Arguments;
use syncmaid::assets::{AssetOrigin, Assets};
use syncmaid::platform::autostart::{
    auto_start, AutoStart, AutoStartState, Unsupported, WindowsAutoStart,
};
use syncmaid::platform::shell_open::open;
use syncmaid::platform::single_instance::{
    acquire, event_name, fingerprint, mutex_name, wide, Launch,
};
use syncmaid::platform::tray::{clicked, TrayCommand, TrayLabels, TrayMenu};
use syncmaid::platform::window_visibility::{GuardAction, WindowGuard, WindowMessage};

fn texts(list: &[&str]) -> Vec<String> {
    list.iter().map(|s| s.to_string()).collect()
}

#[test]
fn an_unsupported_platform_reports_disabled_and_does_nothing() {
    let auto_start = Unsupported;

    assert_eq!(AutoStartState::Disabled, auto_start.state());
    assert!(auto_start.enable().is_ok());
    assert!(auto_start.disable().is_ok());
    assert_eq!(AutoStartState::Disabled, auto_start.state());
}

#[test]
fn reading_the_current_state_never_writes_anything() {
    let before = auto_start().state();
    let again = auto_start().state();
    assert_eq!(before, again);

    let registered = WindowsAutoStart {
        run: Some(WindowsAutoStart::command(r"C:\Apps\SyncMaid.exe")),
        approved: Some(vec![3]),
    };
    let (run, approved) = (registered.run.clone(), registered.approved.clone());
    assert_eq!(AutoStartState::DisabledByWindows, registered.state());
    assert_eq!(AutoStartState::DisabledByWindows, registered.state());
    assert_eq!((run, approved), (registered.run, registered.approved));
}

#[test]
fn the_registry_decides_and_windows_own_switch_wins() {
    let mut registry = WindowsAutoStart { run: None, approved: None };
    assert_eq!(AutoStartState::Disabled, registry.state());
    registry.run = Some(String::new());
    assert_eq!(AutoStartState::Disabled, registry.state());
    registry.run = Some(WindowsAutoStart::command(r"C:\My Apps\SyncMaid.exe"));
    assert_eq!(Some("\"C:\\My Apps\\SyncMaid.exe\"".to_owned()), registry.run);
    assert_eq!(AutoStartState::Enabled, registry.state());
    registry.approved = Some(vec![2, 0, 0]);
    assert_eq!(AutoStartState::Enabled, registry.state());
    registry.approved = Some(vec![3, 0, 0]);
    assert_eq!(AutoStartState::DisabledByWindows, registry.state());
    registry.approved = Some(vec![]);
    assert_eq!(AutoStartState::Enabled, registry.state());
    registry.run = None;
    registry.approved = Some(vec![3]);
    assert_eq!(AutoStartState::Disabled, registry.state());
}

#[test]
fn the_fingerprint_ignores_case_but_not_the_folder() {
    // Two portable copies in different folders are two different apps, and both may run.
    assert_eq!(fingerprint(r"C:\Apps\SyncMaid"), fingerprint(r"c:\apps\syncmaid"));
    assert_ne!(fingerprint(r"C:\Apps\SyncMaid"), fingerprint(r"E:\Portable\SyncMaid"));
}

#[test]
fn the_fingerprint_is_the_same_every_time() {
    // It names a kernel object that a build from six months ago also has to find.
    assert_eq!(fingerprint(r"C:\Apps\SyncMaid"), fingerprint(r"C:\Apps\SyncMaid"));
}

#[test]
fn the_fingerprint_is_a_known_number() {
    // Of nothing, and of the uppercase letter.
    assert_eq!(0xcbf2_9ce4_8422_2325, fingerprint(""));
    assert_eq!(0xaf63_fc4c_8602_22ec, fingerprint("a"));
    assert_eq!(fingerprint("A"), fingerprint("a"));
}

#[test]
fn the_letter_of_the_drive_makes_another_install() {
    assert_ne!(fingerprint(r"C:\SyncMaid"), fingerprint(r"e:\syncmaid"));
    assert_ne!(fingerprint(r"C:\SyncMaid 1"), fingerprint(r"C:\SyncMaid 2"));
}

#[test]
fn the_names_of_an_install_are_spelled_in_sixteen_digits() {
    assert_eq!(r"Local\SyncMaid-000000000000beef", mutex_name(0xbeef));
    assert_eq!(r"Local\SyncMaid-000000000000beef-show", event_name(0xbeef));
    assert_eq!(r"Local\SyncMaid-ffffffffffffffff", mutex_name(u64::MAX));
}

#[test]
fn the_system_takes_its_text_in_pairs_with_a_zero_behind() {
    assert_eq!(vec![0], wide(""));
    for text in ["SyncMaid", "日本語", "a😀b", "\u{10ffff}\u{ffff}"] {
        let expected: Vec<u16> = text.encode_utf16().chain(std::iter::once(0)).collect();
        assert_eq!(expected, wide(text), "{text}");
    }
}

#[test]
fn a_second_launch_knocks_and_stands_down() {
    assert_eq!(Launch::First, acquire(Some(false)));
    assert_eq!(Launch::Another, acquire(Some(true)));
    assert_eq!(Launch::Unguarded, acquire(None));
}

#[test]
fn the_shell_answers_with_a_number_above_the_errors() {
    assert!(!open(0));
    assert!(!open(32));
    assert!(open(33));
}

#[test]
fn the_tray_tells_its_two_items_apart() {
    let menu = TrayMenu { show: "1".to_owned(), exit: "2".to_owned() };
    assert_eq!(Some(TrayCommand::ShowMainWindow), menu.chosen("1"));
    assert_eq!(Some(TrayCommand::Exit), menu.chosen("2"));
    assert_eq!(None, menu.chosen("3"));
    assert_eq!(Some(TrayCommand::ShowMainWindow), clicked(true, true));
    assert_eq!(None, clicked(true, false));
    assert_eq!(None, clicked(false, true));
    assert_eq!("Show main window", TrayLabels::standard().show_main_window);
}

#[test]
fn a_window_hidden_on_purpose_stays_hidden_when_a_display_goes() {
    let mut guard = WindowGuard::new(false);
    assert_eq!(GuardAction::Nothing, guard.after(WindowMessage::DisplayChange));
    guard.set_visible(false);
    assert_eq!(GuardAction::Hide, guard.after(WindowMessage::DisplayChange));
    assert_eq!(GuardAction::Nothing, guard.after(WindowMessage::Other));
    guard.set_visible(true);
    assert_eq!(GuardAction::Nothing, guard.after(WindowMessage::DisplayChange));
    assert_eq!(GuardAction::Leave, guard.after(WindowMessage::Destroyed));
    assert_eq!(GuardAction::Hide, WindowGuard::new(true).after(WindowMessage::DisplayChange));
}

#[test]
fn our_own_assets_win() {
    assert_eq!(AssetOrigin::Nothing, Assets.load("", true));
    assert_eq!(AssetOrigin::Local, Assets.load("icons/play.svg", true));
    assert_eq!(AssetOrigin::Library, Assets.load("icons/folder.svg", false));
    assert_eq!(
        texts(&["icons/play.svg", "icons/folder.svg"]),
        Assets.list(
            "icons/",
            &texts(&["icons/play.svg", "logo.png"]),
            &texts(&["icons/folder.svg"])
        )
    );
}

#[test]
fn the_arguments_name_a_dialog_or_a_self_test() {
    let none = Arguments::read(&texts(&["app"]));
    assert!(!none.self_test);
    assert_eq!(None, none.show);
    let both = Arguments::read(&texts(&["app", "--show", "task", "--self-test-tray"]));
    assert!(both.self_test);
    assert_eq!(Some("task".to_owned()), both.show);
    assert_eq!(None, Arguments::read(&texts(&["app", "--show"])).show);
}
