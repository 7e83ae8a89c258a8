//! First-run wizard, Autostart and the Console's Sidebar: what the Console
//! shows and decides, given what is on disk.

use vstd::prelude::*;
use crate::path_search::{child_of, child_path};
use crate::redact::{replace_all, replace_str};
use crate::text::{chars_of, contains, eq_ignore_case, push_str, range_eq_ignore_case};

verus! {

/// File name of the Startup shortcut.
pub const AUTOSTART_SHORTCUT_NAME: &'static str = "cursor2api.lnk";

/// Warning shown with the wizard: moving the unpacked folder breaks Autostart.
pub const MOVE_FOLDER_WARNING: &'static str = "移动解压目录会弄坏 Autostart，需重新完成向导。";

/// Error when writing the Startup shortcut does not finish in time.
pub const AUTOSTART_TIMEOUT_MESSAGE: &'static str = "写入 Autostart 快捷方式超时。";

/// Milliseconds the Console waits for the Startup shortcut to be written.
pub const AUTOSTART_WRITE_TIMEOUT_MS: u64 = 8000;

/// What the wizard and the Autostart setting show.
#[derive(Debug)]
pub struct SetupStatus {
    pub agent_cli_present: bool,
    pub has_bridge_token: bool,
    pub can_complete: bool,
    pub completed: bool,
    pub autostart_enabled: bool,
    pub autostart_offered: bool,
    pub move_folder_warning: String,
}

/// The Console window's two layouts.
#[derive(Debug, Clone, Copy, PartialEq, Eq, Structural)]
pub enum ShellMode {
    Wizard,
    Sidebar,
}

/// The Sidebar's pages.
#[derive(Debug, Clone, Copy, PartialEq, Eq, Structural)]
pub enum SidebarItem {
    Bridge,
    Credentials,
    Caller,
    Records,
    Autostart,
    Preferences,
}

/// One Sidebar entry.
#[derive(Debug, Clone, Copy)]
pub struct SidebarNavItem {
    pub id: SidebarItem,
    pub label: &'static str,
}

/// The Console window: layout, Sidebar entries, selection, pane, update hint.
#[derive(Debug)]
pub struct ShellView {
    pub mode: ShellMode,
    pub nav: Vec<SidebarNavItem>,
    pub selected: Option<SidebarItem>,
    pub pane: Option<SidebarItem>,
    pub preferences_shows_update: bool,
}

/// What setting Autostart does on disk.
#[derive(Debug, Clone, Copy, PartialEq, Eq, Structural)]
pub enum AutostartAction {
    /// Create the Startup folder and write the shortcut to this exe.
    WriteShortcut,
    /// Delete the existing shortcut.
    RemoveShortcut,
    /// Nothing to do.
    Nothing,
}

/// The Sidebar pages, top to bottom.
pub open spec fn nav_ids() -> Seq<SidebarItem> {
    seq![
        SidebarItem::Bridge,
        SidebarItem::Credentials,
        SidebarItem::Caller,
        SidebarItem::Records,
        SidebarItem::Autostart,
        SidebarItem::Preferences,
    ]
}

/// The Sidebar labels, top to bottom.
pub open spec fn nav_labels() -> Seq<Seq<char>> {
    seq!["Bridge"@, "凭证"@, "Caller"@, "记录"@, "Autostart"@, "偏好设置"@]
}

/// `nav` lists the Sidebar pages with their labels, top to bottom.
pub open spec fn is_full_nav(nav: Seq<SidebarNavItem>) -> bool {
    &&& nav.len() == 6
    &&& forall|i: int| 0 <= i < 6 ==> (#[trigger] nav[i]).id == nav_ids()[i] && nav[i].label@ == nav_labels()[i]
}

/// Error: the wizard cannot finish without the Agent CLI.
pub open spec fn no_cli_message() -> Seq<char> {
    "未在 PATH 上找到 Agent CLI，不能完成首次向导。"@
}

/// Error: the wizard cannot finish without a Bridge Token.
pub open spec fn no_token_message() -> Seq<char> {
    "尚无 Bridge Token，不能完成首次向导。"@
}

/// Error: Autostart cannot be enabled before the wizard is complete.
pub open spec fn autostart_before_wizard_message() -> Seq<char> {
    "首次向导完成前不能启用 Autostart。"@
}

/// Prefix of an Autostart write error.
pub open spec fn autostart_prefix() -> Seq<char> {
    "无法写入 Autostart 快捷方式："@
}

/// An error text as the Console shows it for an Autostart failure: as it is
/// when it already names Autostart, else with the Autostart prefix.
pub open spec fn autostart_error_text(text: Seq<char>) -> Seq<char> {
    if contains(text, "Autostart"@) {
        text
    } else {
        autostart_prefix() + text
    }
}

/// A PowerShell single-quoted literal of `text`.
pub open spec fn ps_literal(text: Seq<char>) -> Seq<char> {
    seq!['\''] + replace_all(text, seq!['\''], seq!['\'', '\'']) + seq!['\'']
}

/// The script that writes the Startup shortcut.
pub open spec fn shortcut_script_text(lnk: Seq<char>, exe: Seq<char>, work: Seq<char>) -> Seq<char> {
    "$s = (New-Object -ComObject WScript.Shell).CreateShortcut("@ + lnk + "); $s.TargetPath = "@
        + exe + "; $s.WorkingDirectory = "@ + work + "; $s.Save()"@
}

/// The Sidebar entries, top to bottom.
pub fn completed_nav() -> (nav: Vec<SidebarNavItem>)
    ensures
        is_full_nav(nav@),
{
    let mut nav: Vec<SidebarNavItem> = Vec::new();
    nav.push(SidebarNavItem { id: SidebarItem::Bridge, label: "Bridge" });
    nav.push(SidebarNavItem { id: SidebarItem::Credentials, label: "凭证" });
    nav.push(SidebarNavItem { id: SidebarItem::Caller, label: "Caller" });
    nav.push(SidebarNavItem { id: SidebarItem::Records, label: "记录" });
    nav.push(SidebarNavItem { id: SidebarItem::Autostart, label: "Autostart" });
    nav.push(SidebarNavItem { id: SidebarItem::Preferences, label: "偏好设置" });
    assert(nav@[0].id == nav_ids()[0]);
    assert(nav@[1].id == nav_ids()[1]);
    assert(nav@[2].id == nav_ids()[2]);
    assert(nav@[3].id == nav_ids()[3]);
    assert(nav@[4].id == nav_ids()[4]);
    assert(nav@[5].id == nav_ids()[5]);
    nav
}

/// The Console window for a setup state: the full-window wizard until the
/// wizard is complete, then the Sidebar with the chosen page (Bridge by
/// default) and a download hint on Preferences when an update prompt is
/// present and not ignored.
pub fn shell_view<P>(
    setup: &SetupStatus,
    selected: Option<SidebarItem>,
    update_prompt: Option<&P>,
    update_ignored: bool,
) -> (v: ShellView)
    ensures
        !setup.completed ==> {
            &&& v.mode == ShellMode::Wizard
            &&& v.nav@.len() == 0
            &&& v.selected is None
            &&& v.pane is None
            &&& !v.preferences_shows_update
        },
        setup.completed ==> {
            &&& v.mode == ShellMode::Sidebar
            &&& is_full_nav(v.nav@)
            &&& v.selected == Some(
                match selected {
                    Some(s) => s,
                    None => SidebarItem::Bridge,
                },
            )
            &&& v.pane == v.selected
            &&& v.preferences_shows_update == (update_prompt is Some && !update_ignored)
        },
{
    if !setup.completed {
        return ShellView {
            mode: ShellMode::Wizard,
            nav: Vec::new(),
            selected: None,
            pane: None,
            preferences_shows_update: false,
        };
    }
    let chosen = match selected {
        Some(s) => s,
        None => SidebarItem::Bridge,
    };
    ShellView {
        mode: ShellMode::Sidebar,
        nav: completed_nav(),
        selected: Some(chosen),
        pane: Some(chosen),
        preferences_shows_update: update_prompt.is_some() && !update_ignored,
    }
}

/// The setup state from what is known: whether the Agent CLI is present,
/// whether a Bridge Token exists, whether this exe completed the wizard, and
/// whether the Startup shortcut exists.
pub fn status(
    agent_cli_present: bool,
    has_bridge_token: bool,
    wizard_completed: bool,
    shortcut_present: bool,
) -> (s: SetupStatus)
    ensures
        s.agent_cli_present == agent_cli_present,
        s.has_bridge_token == has_bridge_token,
        s.can_complete == (agent_cli_present && has_bridge_token),
        s.completed == wizard_completed,
        s.autostart_enabled == shortcut_present,
        s.autostart_offered == wizard_completed,
        s.move_folder_warning@ == MOVE_FOLDER_WARNING@,
{
    SetupStatus {
        agent_cli_present,
        has_bridge_token,
        can_complete: agent_cli_present && has_bridge_token,
        completed: wizard_completed,
        autostart_enabled: shortcut_present,
        autostart_offered: wizard_completed,
        move_folder_warning: MOVE_FOLDER_WARNING.to_owned(),
    }
}

/// Whether the wizard may be completed: it needs the Agent CLI and a Bridge
/// Token, and says which one is missing (the Agent CLI first).
pub fn complete(agent_cli_present: bool, has_bridge_token: bool) -> (r: Result<(), String>)
    ensures
        !agent_cli_present ==> (r matches Err(e) && e@ == no_cli_message()),
        agent_cli_present && !has_bridge_token ==> (r matches Err(e) && e@ == no_token_message()),
        agent_cli_present && has_bridge_token ==> r is Ok,
{
    if !agent_cli_present {
        return Err("未在 PATH 上找到 Agent CLI，不能完成首次向导。".to_owned());
    }
    if !has_bridge_token {
        return Err("尚无 Bridge Token，不能完成首次向导。".to_owned());
    }
    Ok(())
}

/// What turning Autostart on or off does: on before the wizard is complete
/// is refused; on writes the shortcut; off removes an existing one.
pub fn set_autostart(enabled: bool, wizard_completed: bool, shortcut_present: bool) -> (r: Result<
    AutostartAction,
    String,
>)
    ensures
        enabled && !wizard_completed ==> (r matches Err(e) && e@ == autostart_before_wizard_message()),
        enabled && wizard_completed ==> r == Ok::<AutostartAction, String>(
            AutostartAction::WriteShortcut,
        ),
        !enabled && shortcut_present ==> r == Ok::<AutostartAction, String>(
            AutostartAction::RemoveShortcut,
        ),
        !enabled && !shortcut_present ==> r == Ok::<AutostartAction, String>(AutostartAction::Nothing),
{
    if enabled && !wizard_completed {
        return Err("首次向导完成前不能启用 Autostart。".to_owned());
    }
    if enabled {
        Ok(AutostartAction::WriteShortcut)
    } else if shortcut_present {
        Ok(AutostartAction::RemoveShortcut)
    } else {
        Ok(AutostartAction::Nothing)
    }
}

/// An Autostart failure as the Console shows it.
pub fn autostart_error(text: &str) -> (r: String)
    ensures
        r@ == autostart_error_text(text@),
{
    let v = chars_of(text);
    let word = chars_of("Autostart");
    assert(v@.subrange(0, v@.len() as int) =~= v@);
    let named = occurs_in(&v, &word);
    if named {
        text.to_owned()
    } else {
        let mut r = "无法写入 Autostart 快捷方式：".to_owned();
        push_str(&mut r, text);
        r
    }
}

/// Whether `p` occurs in `v`.
fn occurs_in(v: &[char], p: &[char]) -> (b: bool)
    ensures
        b == contains(v@, p@),
{
    if p.len() == 0 {
        assert(v@.subrange(0, 0) =~= p@);
        assert(crate::text::occurs_at(v@, p@, 0));
        return true;
    }
    if p.len() > v.len() {
        assert forall|i: int| !crate::text::occurs_at(v@, p@, i) by {}
        return false;
    }
    let mut i: usize = 0;
    while i <= v.len() - p.len()
        invariant
            1 <= p@.len() <= v@.len(),
            0 <= i <= v@.len() - p@.len() + 1,
            forall|k: int| 0 <= k < i ==> !crate::text::occurs_at(v@, p@, k),
        decreases v@.len() - i,
    {
        if crate::text::occurs_at_exec(v, p, i) {
            return true;
        }
        i = i + 1;
    }
    assert forall|k: int| !crate::text::occurs_at(v@, p@, k) by {
        if 0 <= k && k + p@.len() <= v@.len() {
            assert(k < i);
        }
    }
    false
}

/// A path as a PowerShell single-quoted literal.
pub fn powershell_literal(path: &str) -> (r: String)
    ensures
        r@ == ps_literal(path@),
{
    proof {
        reveal_strlit("'");
        reveal_strlit("''");
        assert("'"@ =~= seq!['\'']);
        assert("''"@ =~= seq!['\'', '\'']);
    }
    let doubled = replace_str(path, "'", "''");
    let mut r = "'".to_owned();
    push_str(&mut r, doubled.as_str());
    push_str(&mut r, "'");
    assert(r@ =~= ps_literal(path@));
    r
}

/// The PowerShell script that writes the Startup shortcut `lnk` to `exe`,
/// working in `work_dir` (an empty literal when the exe has no parent).
pub fn shortcut_script(lnk: &str, exe: &str, work_dir: Option<&str>) -> (r: String)
    ensures
        r@ == shortcut_script_text(
            ps_literal(lnk@),
            ps_literal(exe@),
            match work_dir {
                Some(w) => ps_literal(w@),
                None => seq![],
            },
        ),
{
    let lnk_s = powershell_literal(lnk);
    let exe_s = powershell_literal(exe);
    let work_s = match work_dir {
        Some(w) => powershell_literal(w),
        None => String::new(),
    };
    let mut r = "$s = (New-Object -ComObject WScript.Shell).CreateShortcut(".to_owned();
    push_str(&mut r, lnk_s.as_str());
    push_str(&mut r, "); $s.TargetPath = ");
    push_str(&mut r, exe_s.as_str());
    push_str(&mut r, "; $s.WorkingDirectory = ");
    push_str(&mut r, work_s.as_str());
    push_str(&mut r, "; $s.Save()");
    r
}

/// The outcome of the shortcut script: its error output when it failed,
/// an error when the shortcut is still missing, else success.
pub fn shortcut_outcome(script_succeeded: bool, stderr: &str, shortcut_present: bool) -> (r: Result<
    (),
    String,
>)
    ensures
        !script_succeeded ==> (r matches Err(e) && e@ == autostart_prefix() + stderr@),
        script_succeeded && !shortcut_present ==> (r matches Err(e) && e@
            == "Autostart 快捷方式未写入 Startup。"@),
        script_succeeded && shortcut_present ==> r is Ok,
{
    if !script_succeeded {
        let mut e = "无法写入 Autostart 快捷方式：".to_owned();
        push_str(&mut e, stderr);
        return Err(e);
    }
    if !shortcut_present {
        return Err("Autostart 快捷方式未写入 Startup。".to_owned());
    }
    Ok(())
}


/// An Autostart write that failed with `text` (spawning or polling the
/// script), as the Console shows it.
pub fn autostart_write_error(text: &str) -> (r: String)
    ensures
        r@ == autostart_prefix() + text@,
{
    let mut e = "无法写入 Autostart 快捷方式：".to_owned();
    push_str(&mut e, text);
    e
}

/// What to do next while waiting for the shortcut script.
pub enum WaitStep {
    /// It has exited: collect its status and error output.
    Collect,
    /// The time is up: kill it and report `AUTOSTART_TIMEOUT_MESSAGE`.
    GiveUp,
    /// Sleep a moment and poll again.
    Poll,
}

/// The shortcut script is waited for until it exits or `timeout_ms` have passed.
pub fn wait_step(exited: bool, elapsed_ms: u64, timeout_ms: u64) -> (w: WaitStep)
    ensures
        exited ==> w is Collect,
        !exited && elapsed_ms >= timeout_ms ==> w is GiveUp,
        !exited && elapsed_ms < timeout_ms ==> w is Poll,
{
    if exited {
        WaitStep::Collect
    } else if elapsed_ms >= timeout_ms {
        WaitStep::GiveUp
    } else {
        WaitStep::Poll
    }
}

/// Whether the wizard counts as completed for this exe: the marker says so
/// and names this exe: the same path, else the same canonical path where both
/// resolve, else the same text up to ASCII case.
pub fn wizard_done(
    marker_completed: bool,
    recorded_exe: &str,
    exe: &str,
    same_path: bool,
    same_canonical: Option<bool>,
) -> (b: bool)
    ensures
        b == (marker_completed && (same_path || match same_canonical {
            Some(c) => c,
            None => eq_ignore_case(recorded_exe@, exe@),
        })),
{
    if !marker_completed {
        return false;
    }
    if same_path {
        return true;
    }
    match same_canonical {
        Some(c) => c,
        None => {
            let a = chars_of(recorded_exe);
            let b = chars_of(exe);
            assert(a@.subrange(0, a@.len() as int) =~= a@);
            range_eq_ignore_case(&a, 0, a.len(), &b)
        },
    }
}


/// Where the wizard marker and the Startup shortcut live.
#[derive(Debug, Clone)]
pub struct SetupPaths {
    pub wizard_marker: String,
    pub startup_dir: String,
}

/// The Startup folder under a roaming App Data folder `base`.
pub open spec fn startup_dir_of(base: Seq<char>, dir_sep: char) -> Seq<char> {
    child_of(
        child_of(
            child_of(child_of(child_of(base, "Microsoft"@, dir_sep), "Windows"@, dir_sep), "Start Menu"@, dir_sep),
            "Programs"@,
            dir_sep,
        ),
        "Startup"@,
        dir_sep,
    )
}

/// The Startup folder under the roaming App Data folder `base`
/// (`Microsoft\Windows\Start Menu\Programs\Startup`).
pub fn startup_dir_under(base: &str, dir_sep: char) -> (r: String)
    ensures
        r@ == startup_dir_of(base@, dir_sep),
{
    let a = child_path(base, "Microsoft", dir_sep);
    let b = child_path(a.as_str(), "Windows", dir_sep);
    let c = child_path(b.as_str(), "Start Menu", dir_sep);
    let d = child_path(c.as_str(), "Programs", dir_sep);
    child_path(d.as_str(), "Startup", dir_sep)
}

/// The setup paths of the Console: the marker `wizard.json` in its App Data
/// directory `app_data`, and the Startup folder `startup_dir`.
pub fn production_paths(app_data: &str, startup_dir: &str, dir_sep: char) -> (p: SetupPaths)
    ensures
        p.wizard_marker@ == child_of(app_data@, "wizard.json"@, dir_sep),
        p.startup_dir@ == startup_dir@,
{
    SetupPaths {
        wizard_marker: child_path(app_data, "wizard.json", dir_sep),
        startup_dir: startup_dir.to_owned(),
    }
}

/// The Startup shortcut that Autostart writes.
pub fn autostart_shortcut(paths: &SetupPaths, dir_sep: char) -> (r: String)
    ensures
        r@ == child_of(paths.startup_dir@, AUTOSTART_SHORTCUT_NAME@, dir_sep),
{
    child_path(paths.startup_dir.as_str(), AUTOSTART_SHORTCUT_NAME, dir_sep)
}

} // verus!
