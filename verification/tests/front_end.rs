use wiresmart::commands::CommandOutput;
use wiresmart::discovery::DiscoveryEvent;
use wiresmart::environment::Environment;
use wiresmart::front_end::WireSmartApp;
use wiresmart::helper::CheckAction;
use wiresmart::listing::{DirectoryReport, FoundEntry};
use wiresmart::paths::ConfigPath;
use wiresmart::protocol::{HelperRequest, HelperResponse};
use wiresmart::refresh::{Refresh, RefreshAction, RefreshEvent};
use wiresmart::toggle::{ToggleAction, ToggleEvent, TogglePhase};
use wiresmart::tunnels::Tunnel;

fn path(s: &str) -> ConfigPath {
    ConfigPath::from_text(s)
}

fn env(display: bool) -> Environment {
    Environment {
        wayland_display: false,
        wayland_socket: false,
        display,
        wg_quick_config_dir: None,
        home: None,
    }
}

fn output(success: bool, stdout: &[u8], stderr: &[u8]) -> Result<CommandOutput, String> {
    Ok(CommandOutput { success, stdout: stdout.to_vec(), stderr: stderr.to_vec() })
}

fn tunnel(name: &str) -> Tunnel {
    Tunnel { name: name.to_owned(), path: path(&format!("/etc/wireguard/{}.conf", name)) }
}

fn entries(names: &[&str]) -> RefreshEvent {
    let entries = names
        .iter()
        .map(|n| FoundEntry { path: path(&format!("/etc/wireguard/{}.conf", n)), is_file: true })
        .collect();
    let report = DirectoryReport::Entries { entries, failure: None };
    RefreshEvent::Discovered(DiscoveryEvent::Inspected(report))
}

fn unreadable(denied: bool) -> RefreshEvent {
    let report = DirectoryReport::Unreadable { denied, reason: "why".to_owned() };
    RefreshEvent::Discovered(DiscoveryEvent::Inspected(report))
}

fn status(success: bool, up: &str) -> RefreshEvent {
    RefreshEvent::StatusRead(output(success, up.as_bytes(), b""))
}

fn app_with(names: &[&str], up: &str) -> WireSmartApp {
    let (mut app, refresh, _) = WireSmartApp::start(true, true, &env(true));
    let (refresh, action) = refresh.step(&mut app, entries(names));
    assert!(matches!(action, RefreshAction::ReadStatus));
    let (_, action) = refresh.step(&mut app, status(true, up));
    assert!(matches!(action, RefreshAction::Finish));
    app
}

#[test]
fn new_front_end() {
    let app = WireSmartApp::new(true, false);
    assert!(app.tunnels.is_empty());
    assert!(app.active_interfaces.is_empty());
    assert_eq!(app.info_message, "Discovering WireGuard tunnels...");
    assert_eq!(app.error_message, None);
    assert!(app.wg_quick_available && !app.pkexec_available && !app.helper_running);
}

#[test]
fn custom_dir_is_trimmed() {
    let mut app = WireSmartApp::new(true, true);
    assert!(app.custom_dir().is_none());
    app.custom_config_dir = " \t".to_owned();
    assert!(app.custom_dir().is_none());
    app.custom_config_dir = "  /my dir/wg \n".to_owned();
    assert_eq!(app.custom_dir().unwrap().display(), "/my dir/wg");
}

#[test]
fn refresh_that_succeeds() {
    let app = app_with(&["wg1", "wg0"], "wg1\n");
    assert_eq!(app.info_message, "Found 2 tunnel(s)");
    assert_eq!(app.error_message, None);
    let names: Vec<String> = app.tunnels.iter().map(|t| t.name.clone()).collect();
    assert_eq!(names, vec!["wg0", "wg1"]);
    assert_eq!(app.active_interfaces, vec!["wg1"]);
}

#[test]
fn refresh_that_fails() {
    let mut app = app_with(&["wg0"], "");
    app.custom_config_dir = " /mine ".to_owned();
    let (refresh, action) = app.refresh(&env(false));
    assert!(matches!(action, RefreshAction::Inspect(_)));
    let (refresh, action) = refresh.step(&mut app, unreadable(false));
    assert!(matches!(action, RefreshAction::ReadStatus));
    assert!(app.tunnels.is_empty());
    assert_eq!(app.error_message.as_deref(), Some("Cannot read /mine: why"));
    assert_eq!(app.info_message, "Found 1 tunnel(s)");
    let (refresh, action) = refresh.step(&mut app, status(true, "wg7 wg8"));
    assert!(matches!(refresh, Refresh::Finished));
    assert!(matches!(action, RefreshAction::Finish));
    assert_eq!(app.active_interfaces, vec!["wg7", "wg8"]);
    assert_eq!(app.error_message.as_deref(), Some("Cannot read /mine: why"));
    assert_eq!(app.custom_config_dir, " /mine ");
    app.refresh(&env(false));
    assert_eq!(app.error_message, None);
}

#[test]
fn refresh_looks_in_the_typed_directory_first() {
    let mut app = WireSmartApp::new(true, true);
    app.custom_config_dir = " /mine ".to_owned();
    let (refresh, action) = app.refresh(&env(true));
    match action {
        RefreshAction::Inspect(dir) => assert_eq!(dir.display(), "/mine"),
        _ => panic!(),
    }
    match refresh {
        Refresh::Discovering(d) => {
            assert_eq!(d.dirs.len(), 2);
            assert!(d.can_elevate);
        }
        _ => panic!(),
    }
}

#[test]
fn refresh_through_the_helper() {
    let mut app = WireSmartApp::new(true, true);
    let (refresh, _) = app.refresh(&env(true));
    let (refresh, action) = refresh.step(&mut app, unreadable(true));
    assert!(matches!(action, RefreshAction::EnsureHelper));
    app.set_helper_running(true);
    let ensured = RefreshEvent::Discovered(DiscoveryEvent::Ensured(Ok(())));
    let (refresh, action) = refresh.step(&mut app, ensured);
    match action {
        RefreshAction::Ask(HelperRequest::ListConfigs { dirs }) => assert_eq!(dirs.len(), 1),
        _ => panic!(),
    }
    let paths = vec![path("/etc/wireguard/wg0.conf")];
    let answer = DiscoveryEvent::Answered(Ok(HelperResponse::Configs { paths }));
    let (refresh, action) = refresh.step(&mut app, RefreshEvent::Discovered(answer));
    assert!(matches!(action, RefreshAction::ReadStatus));
    let (_, action) = refresh.step(&mut app, status(true, "wg0"));
    assert!(matches!(action, RefreshAction::Finish));
    assert_eq!(app.info_message, "Found 1 tunnel(s)");
    assert_eq!(app.active_interfaces, vec!["wg0"]);
    assert!(app.helper_running);
}

#[test]
fn start_looks_for_tunnels() {
    let (app, refresh, action) = WireSmartApp::start(false, true, &env(true));
    assert_eq!(app.info_message, "Discovering WireGuard tunnels...");
    assert!(!app.wg_quick_available && app.pkexec_available && !app.helper_running);
    match action {
        RefreshAction::Inspect(dir) => assert_eq!(dir.display(), "/etc/wireguard"),
        _ => panic!(),
    }
    match refresh {
        Refresh::Discovering(d) => assert!(d.can_elevate),
        _ => panic!(),
    }
    for (pkexec, display) in [(true, false), (false, true), (false, false)] {
        let (mut app, refresh, _) = WireSmartApp::start(true, pkexec, &env(display));
        let (_, action) = refresh.step(&mut app, unreadable(true));
        assert!(matches!(action, RefreshAction::ReadStatus));
        assert!(app.error_message.is_some());
    }
}

#[test]
fn start_asks_for_access_at_any_directory() {
    let mut e = env(true);
    e.wg_quick_config_dir = Some(path("/opt/wg"));
    e.home = Some(path("/home/u"));
    let missing = || RefreshEvent::Discovered(DiscoveryEvent::Inspected(DirectoryReport::Missing));
    for denied in 0..4usize {
        let (mut app, mut refresh, mut action) = WireSmartApp::start(true, true, &e);
        let mut visited = 0usize;
        let mut asked = false;
        while let RefreshAction::Inspect(_) = action {
            let event = if visited == denied { unreadable(true) } else { missing() };
            (refresh, action) = refresh.step(&mut app, event);
            asked = asked || matches!(action, RefreshAction::EnsureHelper);
            visited += 1;
        }
        assert_eq!(asked, denied < 3);
        assert_eq!(visited, if denied < 3 { denied + 1 } else { 3 });
    }
}

#[test]
fn discovery_takes_the_candidate_directories() {
    let mut app = WireSmartApp::new(true, true);
    app.custom_config_dir = "/etc/wireguard/".to_owned();
    let (d, _) = app.discover_tunnels_with_privilege(&env(true));
    assert_eq!(d.dirs.len(), 1);
    assert_eq!(d.dirs[0].display(), "/etc/wireguard/");
}

#[test]
fn elevation_takes_pkexec_and_a_display() {
    let mut app = WireSmartApp::new(true, true);
    let (_, action) = app.ensure_helper_available(&env(false));
    assert!(matches!(action, CheckAction::Finish(Err(_))));
    let (_, action) = app.ensure_helper_available(&env(true));
    assert!(matches!(action, CheckAction::Start));
    app.set_helper_running(true);
    let (_, action) = app.ensure_helper_available(&env(true));
    assert!(matches!(action, CheckAction::AskCurrent(HelperRequest::Ping)));
    app.pkexec_available = false;
    let (_, action) = app.ensure_helper_available(&env(true));
    assert!(matches!(action, CheckAction::Finish(Err(_))));
}

#[test]
fn status_of_a_failed_command_is_empty() {
    let mut app = app_with(&["wg0"], "wg0");
    app.refresh_status(output(false, b"wg0", b""));
    assert!(app.active_interfaces.is_empty());
}

#[test]
fn toggle_without_wg_quick() {
    let mut app = app_with(&["wg0"], "");
    app.wg_quick_available = false;
    let (run, action) = app.run_wg_quick("up", &tunnel("wg0"));
    assert!(matches!(action, ToggleAction::Finish));
    assert_eq!(run.phase, TogglePhase::Finished);
    assert_eq!(app.error_message.as_deref(), Some("wg-quick is not available in PATH"));
}

#[test]
fn toggle_as_root() {
    let mut app = app_with(&["wg0"], "");
    app.error_message = Some("old".to_owned());
    let (mut run, action) = app.run_wg_quick("up", &tunnel("wg0"));
    assert!(matches!(action, ToggleAction::CheckUser));
    assert_eq!(app.error_message, None);
    match run.step(&mut app, ToggleEvent::UserChecked(output(true, b"0\n", b""))) {
        ToggleAction::RunWgQuick { action, path } => {
            assert_eq!(action, "up");
            assert_eq!(path.display(), "/etc/wireguard/wg0.conf");
        }
        _ => panic!(),
    }
    let action = run.step(&mut app, ToggleEvent::Ran(output(true, b"", b"")));
    assert!(matches!(action, ToggleAction::ReadStatus));
    assert_eq!(app.info_message, "Successfully ran wg-quick up wg0.");
    let action = run.step(&mut app, ToggleEvent::StatusRead(output(true, b"wg0", b"")));
    assert!(matches!(action, ToggleAction::Finish));
    assert_eq!(app.active_interfaces, vec!["wg0"]);
    assert_eq!(app.error_message, None);
}

#[test]
fn toggle_as_root_that_fails() {
    for (ran, expected) in [
        (output(false, b"", b"oops\n"), "wg-quick up failed: oops"),
        (output(false, b"", b""), "wg-quick up failed for wg0"),
        (Err("enoent".to_owned()), "Failed to start wg-quick: enoent"),
    ] {
        let mut app = app_with(&["wg0"], "");
        let (mut run, _) = app.run_wg_quick("up", &tunnel("wg0"));
        run.step(&mut app, ToggleEvent::UserChecked(output(true, b"0\n", b"")));
        let action = run.step(&mut app, ToggleEvent::Ran(ran));
        assert!(matches!(action, ToggleAction::Finish));
        assert_eq!(app.error_message.as_deref(), Some(expected));
        assert_eq!(app.info_message, "Found 1 tunnel(s)");
    }
}

#[test]
fn toggle_through_the_helper() {
    let mut app = app_with(&["wg0"], "wg0");
    let (mut run, _) = app.run_wg_quick("down", &tunnel("wg0"));
    let action = run.step(&mut app, ToggleEvent::UserChecked(output(true, b"1000\n", b"")));
    assert!(matches!(action, ToggleAction::EnsureHelper));
    match run.step(&mut app, ToggleEvent::Ensured(Ok(()))) {
        ToggleAction::Ask(HelperRequest::WgQuick { action, path }) => {
            assert_eq!(action, "down");
            assert_eq!(path.display(), "/etc/wireguard/wg0.conf");
        }
        _ => panic!(),
    }
    let action = run.step(&mut app, ToggleEvent::Answered(Ok(HelperResponse::Done)));
    assert!(matches!(action, ToggleAction::ReadStatus));
    run.step(&mut app, ToggleEvent::StatusRead(output(true, b"", b"")));
    assert_eq!(app.info_message, "Successfully ran wg-quick down wg0.");
    assert!(app.active_interfaces.is_empty());
}

#[test]
fn toggle_through_the_helper_that_fails() {
    let replies = [
        (Ok(HelperResponse::Pong), "Unexpected helper response"),
        (Err("wg-quick up failed: no".to_owned()), "wg-quick up failed: no"),
    ];
    for (reply, expected) in replies {
        let mut app = app_with(&["wg0"], "");
        let (mut run, _) = app.run_wg_quick("up", &tunnel("wg0"));
        run.step(&mut app, ToggleEvent::UserChecked(Err("no id".to_owned())));
        run.step(&mut app, ToggleEvent::Ensured(Ok(())));
        let action = run.step(&mut app, ToggleEvent::Answered(reply));
        assert!(matches!(action, ToggleAction::Finish));
        assert_eq!(app.error_message.as_deref(), Some(expected));
    }
    let mut app = app_with(&["wg0"], "");
    let (mut run, _) = app.run_wg_quick("up", &tunnel("wg0"));
    run.step(&mut app, ToggleEvent::UserChecked(output(false, b"0", b"")));
    let action = run.step(&mut app, ToggleEvent::Ensured(Err("no dialog".to_owned())));
    assert!(matches!(action, ToggleAction::Finish));
    assert_eq!(app.error_message.as_deref(), Some("no dialog"));
}

#[test]
fn warnings_name_what_is_missing() {
    assert!(WireSmartApp::new(true, true).warnings().is_empty());
    assert_eq!(
        WireSmartApp::new(false, false).warnings(),
        vec![
            "wg-quick not found in PATH.",
            "pkexec not found in PATH. Automatic privilege dialog is unavailable."
        ]
    );
    assert_eq!(WireSmartApp::new(false, true).warnings(), vec!["wg-quick not found in PATH."]);
}

#[test]
fn rows_show_what_is_up() {
    let app = app_with(&["wg0", "wg1"], "wg1");
    let rows = app.rows();
    assert_eq!(rows.len(), 2);
    assert_eq!(rows[0].label, "     wg0");
    assert_eq!(rows[0].color, (0xf1, 0xc4, 0x0f));
    assert_eq!(rows[1].label, "     wg1");
    assert_eq!(rows[1].color, (0x27, 0xae, 0x60));
    assert!(app.is_active(&app.tunnels[1]));
}

#[test]
fn the_last_click_counts() {
    let app = app_with(&["a", "b", "c"], "b");
    let (action, t) = app.pending_toggle(&vec![true, true, false]).unwrap();
    assert_eq!((action.as_str(), t.name.as_str()), ("down", "b"));
    let (action, t) = app.pending_toggle(&vec![true, false, false]).unwrap();
    assert_eq!((action.as_str(), t.name.as_str()), ("up", "a"));
    assert!(app.pending_toggle(&vec![false, false, false]).is_none());
    assert!(app.pending_toggle(&vec![false, false, false, true]).is_none());
    assert!(app.pending_toggle(&vec![]).is_none());
}

#[test]
fn the_next_click_undoes_the_last() {
    let mut app = app_with(&["a"], "");
    let (action, t) = app.pending_toggle(&vec![true]).unwrap();
    assert_eq!(action, "up");
    let (mut run, _) = app.run_wg_quick(&action, &t);
    run.step(&mut app, ToggleEvent::UserChecked(output(true, b"0", b"")));
    run.step(&mut app, ToggleEvent::Ran(output(true, b"", b"")));
    run.step(&mut app, ToggleEvent::StatusRead(output(true, b"a", b"")));
    assert_eq!(app.pending_toggle(&vec![true]).unwrap().0, "down");
}

#[test]
fn styles_are_scaled_once() {
    let mut app = WireSmartApp::new(true, true);
    assert!(app.take_style_scaling());
    assert!(!app.take_style_scaling());
}
