use cursor2api::setup::{autostart_write_error, wait_step, WaitStep, AUTOSTART_TIMEOUT_MESSAGE, AUTOSTART_WRITE_TIMEOUT_MS};
use cursor2api::setup::wizard_done;
use cursor2api::setup::{
    autostart_error, complete, powershell_literal, set_autostart, shell_view, shortcut_outcome,
    shortcut_script, status, AutostartAction, SetupStatus, ShellMode, SidebarItem,
    MOVE_FOLDER_WARNING,
};

fn setup_status(completed: bool) -> SetupStatus {
    SetupStatus {
        agent_cli_present: true,
        has_bridge_token: true,
        can_complete: true,
        completed,
        autostart_enabled: false,
        autostart_offered: completed,
        move_folder_warning: MOVE_FOLDER_WARNING.to_string(),
    }
}

#[test]
fn wizard_cannot_complete_without_agent_cli() {
    let err = complete(false, true).expect_err("wizard must not finish without Agent CLI");
    assert!(err.contains("Agent CLI"), "refusal must name Agent CLI, got: {err}");
}

#[test]
fn wizard_cannot_complete_without_bridge_token() {
    let err = complete(true, false).expect_err("wizard must not finish without Bridge Token");
    assert!(err.contains("Bridge Token"), "refusal must name Bridge Token, got: {err}");
}

#[test]
fn wizard_completes_when_agent_cli_and_bridge_token_are_present() {
    assert!(complete(true, true).is_ok());
    let view = status(true, true, true, false);
    assert!(view.completed);
    assert!(view.can_complete);
    assert!(!view.autostart_enabled);
    assert_eq!(view.move_folder_warning, MOVE_FOLDER_WARNING);
}

#[test]
fn autostart_is_not_offered_before_the_wizard_completes() {
    let view = status(true, true, false, false);
    assert!(!view.completed);
    assert!(
        !view.autostart_offered,
        "Autostart must wait until the first successful wizard"
    );
    let err = set_autostart(true, false, false)
        .expect_err("settings must not enable Autostart on a broken install");
    assert!(err.contains("向导"), "refusal must mention the wizard, got: {err}");
}

#[test]
fn completed_wizard_offers_autostart() {
    let view = status(true, true, true, false);
    assert!(view.autostart_offered);
    assert_eq!(set_autostart(true, true, false), Ok(AutostartAction::WriteShortcut));
}

#[test]
fn disabling_autostart_removes_only_an_existing_shortcut() {
    assert_eq!(set_autostart(false, true, true), Ok(AutostartAction::RemoveShortcut));
    assert_eq!(set_autostart(false, true, false), Ok(AutostartAction::Nothing));
    assert_eq!(set_autostart(false, false, true), Ok(AutostartAction::RemoveShortcut));
}

#[test]
fn incomplete_wizard_is_full_window_without_sidebar() {
    let view = shell_view(
        &setup_status(false),
        Some(SidebarItem::Caller),
        Some(&()),
        false,
    );
    assert_eq!(view.mode, ShellMode::Wizard);
    assert!(
        view.nav.is_empty(),
        "incomplete wizard must not show Sidebar items"
    );
    assert_eq!(view.selected, None);
    assert_eq!(view.pane, None);
    assert!(
        !view.preferences_shows_update,
        "Release prompt must not occupy the wizard"
    );
}

#[test]
fn completed_wizard_sidebar_lists_pages_top_to_bottom() {
    let view = shell_view(&setup_status(true), None, None::<&()>, false);
    assert_eq!(view.mode, ShellMode::Sidebar);
    let labels: Vec<&str> = view.nav.iter().map(|item| item.label).collect();
    assert_eq!(
        labels,
        ["Bridge", "凭证", "Caller", "记录", "Autostart", "偏好设置"]
    );
    let ids: Vec<SidebarItem> = view.nav.iter().map(|item| item.id).collect();
    assert_eq!(
        ids,
        [
            SidebarItem::Bridge,
            SidebarItem::Credentials,
            SidebarItem::Caller,
            SidebarItem::Records,
            SidebarItem::Autostart,
            SidebarItem::Preferences,
        ]
    );
}

#[test]
fn opening_console_defaults_to_bridge() {
    let view = shell_view(&setup_status(true), None, None::<&()>, false);
    assert_eq!(view.selected, Some(SidebarItem::Bridge));
    assert_eq!(view.pane, Some(SidebarItem::Bridge));
}

#[test]
fn selecting_a_sidebar_item_shows_that_pane() {
    let view = shell_view(
        &setup_status(true),
        Some(SidebarItem::Caller),
        None::<&()>,
        false,
    );
    assert_eq!(view.selected, Some(SidebarItem::Caller));
    assert_eq!(view.pane, Some(SidebarItem::Caller));
}

#[test]
fn autostart_item_appears_only_after_the_wizard_completes() {
    let before = shell_view(&setup_status(false), None, None::<&()>, false);
    assert!(
        !before
            .nav
            .iter()
            .any(|item| item.id == SidebarItem::Autostart),
        "Autostart must not appear in Sidebar before the wizard completes"
    );
    let after = shell_view(&setup_status(true), None, None::<&()>, false);
    assert!(
        after
            .nav
            .iter()
            .any(|item| item.id == SidebarItem::Autostart),
        "Autostart must appear in Sidebar after the wizard completes"
    );
}

#[test]
fn preferences_shows_download_prompt_only_when_update_is_present_and_not_ignored() {
    let prompt = ();
    let with_prompt = shell_view(&setup_status(true), None, Some(&prompt), false);
    assert!(
        with_prompt.preferences_shows_update,
        "an unignored UpdatePrompt must show a download hint on Preferences"
    );
    let ignored = shell_view(&setup_status(true), None, Some(&prompt), true);
    assert!(
        !ignored.preferences_shows_update,
        "ignoring the UpdatePrompt this process must hide the download hint"
    );
    let none = shell_view(&setup_status(true), None, None::<&()>, false);
    assert!(
        !none.preferences_shows_update,
        "no UpdatePrompt means Preferences has no download hint"
    );
}

#[test]
fn autostart_errors_always_name_autostart() {
    assert_eq!(autostart_error("写入 Autostart 快捷方式超时。"), "写入 Autostart 快捷方式超时。");
    assert_eq!(autostart_error("拒绝访问"), "无法写入 Autostart 快捷方式：拒绝访问");
    assert_eq!(autostart_error("autostart lower case"), "无法写入 Autostart 快捷方式：autostart lower case");
}

#[test]
fn powershell_literal_doubles_single_quotes() {
    assert_eq!(powershell_literal(r"C:\Users\o'neil\cursor2api.exe"), r"'C:\Users\o''neil\cursor2api.exe'");
    assert_eq!(powershell_literal(""), "''");
    assert_eq!(powershell_literal("''"), "''''''");
}

#[test]
fn shortcut_script_quotes_each_path() {
    let script = shortcut_script(r"C:\S\cursor2api.lnk", r"C:\A\cursor2api.exe", Some(r"C:\A"));
    assert_eq!(
        script,
        r"$s = (New-Object -ComObject WScript.Shell).CreateShortcut('C:\S\cursor2api.lnk'); $s.TargetPath = 'C:\A\cursor2api.exe'; $s.WorkingDirectory = 'C:\A'; $s.Save()"
    );
    let no_dir = shortcut_script("l", "e", None);
    assert!(no_dir.contains("$s.WorkingDirectory = ; $s.Save()"));
}

#[test]
fn shortcut_outcome_reports_each_failure() {
    assert_eq!(shortcut_outcome(false, "boom", false), Err("无法写入 Autostart 快捷方式：boom".to_string()));
    assert_eq!(shortcut_outcome(true, "", false), Err("Autostart 快捷方式未写入 Startup。".to_string()));
    assert_eq!(shortcut_outcome(true, "", true), Ok(()));
}

#[test]
fn wizard_marker_must_name_this_exe() {
    assert!(!wizard_done(false, "C:\\x\\a.exe", "C:\\x\\a.exe", true, None));
    assert!(wizard_done(true, "C:\\x\\a.exe", "C:\\x\\a.exe", true, None));
    assert!(wizard_done(true, "C:\\x\\link.exe", "C:\\y\\a.exe", false, Some(true)));
    assert!(!wizard_done(true, "C:\\X\\A.EXE", "C:\\x\\a.exe", false, Some(false)));
    assert!(wizard_done(true, "C:\\X\\A.EXE", "C:\\x\\a.exe", false, None));
    assert!(!wizard_done(true, "C:\\old\\a.exe", "C:\\new\\a.exe", false, None));
}

#[test]
fn shortcut_script_is_waited_for_until_the_timeout() {
    assert!(matches!(wait_step(true, 99_999, AUTOSTART_WRITE_TIMEOUT_MS), WaitStep::Collect));
    assert!(matches!(wait_step(false, 7_999, AUTOSTART_WRITE_TIMEOUT_MS), WaitStep::Poll));
    assert!(matches!(wait_step(false, 8_000, AUTOSTART_WRITE_TIMEOUT_MS), WaitStep::GiveUp));
    assert_eq!(autostart_write_error("denied"), "无法写入 Autostart 快捷方式：denied");
}

#[test]
fn completing_wizard_with_autostart_writes_startup_shortcut_to_this_exe() {
    assert!(complete(true, true).is_ok());
    assert_eq!(set_autostart(true, true, false), Ok(AutostartAction::WriteShortcut));
    let script = shortcut_script(
        "C:\\Startup\\cursor2api.lnk",
        "C:\\Apps\\bin\\cursor2api.exe",
        Some("C:\\Apps\\bin"),
    );
    assert!(script.contains("$s.TargetPath = 'C:\\Apps\\bin\\cursor2api.exe'"));
    assert!(shortcut_outcome(true, "", true).is_ok());
    assert!(status(true, true, true, true).autostart_enabled);
}

#[test]
fn disabling_autostart_removes_the_startup_shortcut() {
    assert_eq!(set_autostart(false, true, true), Ok(AutostartAction::RemoveShortcut));
    let view = status(true, true, true, false);
    assert!(!view.autostart_enabled);
}

#[test]
fn moving_the_exe_requires_completing_the_wizard_again() {
    let first = "C:\\data\\bin-a\\cursor2api.exe";
    assert!(wizard_done(true, first, first, true, None));
    assert!(status(true, true, wizard_done(true, first, first, true, None), false).completed);
    let moved = "C:\\data\\bin-b\\cursor2api.exe";
    let completed = wizard_done(true, first, moved, false, Some(false));
    assert!(!completed, "a moved Console must re-run the wizard");
    assert!(!status(true, true, completed, false).completed);
}

#[test]
fn autostart_command_times_out_instead_of_blocking() {
    assert!(matches!(wait_step(false, AUTOSTART_WRITE_TIMEOUT_MS, AUTOSTART_WRITE_TIMEOUT_MS), WaitStep::GiveUp));
    assert!(AUTOSTART_TIMEOUT_MESSAGE.contains("超时"));
}

#[test]
fn wizard_marker_stays_when_autostart_write_fails() {
    assert!(complete(true, true).is_ok());
    let err = shortcut_outcome(false, "access denied", false).unwrap_err();
    let shown = autostart_error(&err);
    assert!(shown.contains("Autostart"), "{shown}");
    let view = status(true, true, true, false);
    assert!(view.completed, "the wizard stays completed");
    assert!(!view.autostart_enabled);
}
