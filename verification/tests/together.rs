use wiresmart::commands::CommandOutput;
use wiresmart::discovery::{discover_tunnels, DiscoveryAction, DiscoveryEvent};
use wiresmart::exchange::answer;
use wiresmart::front_end::WireSmartApp;
use wiresmart::handler::{handle_helper_request, HandlerAction, HandlerEvent};
use wiresmart::helper::{ensure_helper_available, CheckAction, CheckEvent};
use wiresmart::listing::{DirectoryReport, FoundEntry};
use wiresmart::paths::ConfigPath;
use wiresmart::protocol::{HelperRequest, HelperResponse};
use wiresmart::toggle::{ToggleAction, ToggleEvent};
use wiresmart::tunnels::{insert_tunnels_from_paths, Tunnel, TunnelTable};

fn path(s: &str) -> ConfigPath {
    ConfigPath::from_text(s)
}

fn directory() -> DirectoryReport {
    let seen = [("/w/b.conf", true), ("/w/sub.conf", false), ("/w/a.conf", true), ("/w/x", true)];
    let entries =
        seen.iter().map(|(p, is_file)| FoundEntry { path: path(p), is_file: *is_file }).collect();
    DirectoryReport::Entries { entries, failure: None }
}

/// What the helper answers, if this event is all that it waits for.
fn helper_answer(request: HelperRequest, event: HandlerEvent) -> Result<HelperResponse, String> {
    let (state, action) = handle_helper_request(request);
    let response = match action {
        HandlerAction::Respond(response) => response,
        _ => match state.step(event).1 {
            HandlerAction::Respond(response) => response,
            _ => panic!("the helper waits for more"),
        },
    };
    answer(response)
}

fn output(success: bool, stderr: &[u8]) -> CommandOutput {
    CommandOutput { success, stdout: vec![], stderr: stderr.to_vec() }
}

#[test]
fn the_helper_passes_its_own_check() {
    let (mut check, _) = ensure_helper_available(true, false);
    match check.step(CheckEvent::Started(Ok(()))) {
        CheckAction::AskNew(ping) => {
            let unused = HandlerEvent::Inspected(DirectoryReport::Missing);
            let action = check.step(CheckEvent::Answered(helper_answer(ping, unused)));
            assert!(matches!(action, CheckAction::Finish(Ok(()))));
        }
        _ => panic!(),
    }
    assert!(check.running);
}

#[test]
fn the_helper_stands_in_for_the_front_end() {
    let (mut direct, _) = discover_tunnels(vec![path("/w")], true);
    direct.step(DiscoveryEvent::Inspected(directory()));

    let (mut asking, _) = discover_tunnels(vec![path("/w")], true);
    let denied = DirectoryReport::Unreadable { denied: true, reason: "denied".to_owned() };
    asking.step(DiscoveryEvent::Inspected(denied));
    match asking.step(DiscoveryEvent::Ensured(Ok(()))) {
        DiscoveryAction::Ask(request) => {
            let reply = helper_answer(request, HandlerEvent::Inspected(directory()));
            let action = asking.step(DiscoveryEvent::Answered(reply));
            assert!(matches!(action, DiscoveryAction::Finish(Ok(()))));
        }
        _ => panic!(),
    }

    let names = |list: Vec<Tunnel>| -> Vec<(String, String)> {
        list.into_iter().map(|t| (t.name, t.path.display())).collect()
    };
    let expected = vec![
        ("a".to_owned(), "/w/a.conf".to_owned()),
        ("b".to_owned(), "/w/b.conf".to_owned()),
    ];
    assert_eq!(names(direct.found.into_tunnels()), expected);
    assert_eq!(names(asking.found.into_tunnels()), expected);
}

#[test]
fn root_and_helper_report_alike() {
    let tunnel = Tunnel { name: "wg0".to_owned(), path: path("/w/wg0.conf") };
    for (success, stderr) in [(true, &b""[..]), (false, &b"no such key\n"[..])] {
        let mut direct = WireSmartApp::new(true, true);
        let (mut run, _) = direct.run_wg_quick("up", &tunnel);
        let root = CommandOutput { success: true, stdout: b"0\n".to_vec(), stderr: vec![] };
        run.step(&mut direct, ToggleEvent::UserChecked(Ok(root)));
        run.step(&mut direct, ToggleEvent::Ran(Ok(output(success, stderr))));

        let mut asking = WireSmartApp::new(true, true);
        let (mut run, _) = asking.run_wg_quick("up", &tunnel);
        run.step(&mut asking, ToggleEvent::UserChecked(Ok(output(false, b""))));
        match run.step(&mut asking, ToggleEvent::Ensured(Ok(()))) {
            ToggleAction::Ask(request) => {
                let ran = HandlerEvent::Ran(Ok(output(success, stderr)));
                run.step(&mut asking, ToggleEvent::Answered(helper_answer(request, ran)));
            }
            _ => panic!(),
        }

        assert_eq!(direct.error_message, asking.error_message);
        assert_eq!(direct.info_message, asking.info_message);
        assert_eq!(direct.error_message.is_none(), success);
    }
}

#[test]
fn offers_add_up() {
    let offers = ["/a/x.conf", "/b/x.conf", "/b/y.conf", "/c/z.conf"];
    let mut whole = TunnelTable::new();
    insert_tunnels_from_paths(&mut whole, &offers.iter().map(|p| path(p)).collect());
    let mut parts = TunnelTable::new();
    insert_tunnels_from_paths(&mut parts, &offers[..2].iter().map(|p| path(p)).collect());
    insert_tunnels_from_paths(&mut parts, &offers[2..].iter().map(|p| path(p)).collect());
    let shown = |t: TunnelTable| -> Vec<String> {
        t.into_tunnels().iter().map(|t| t.path.display()).collect()
    };
    let all = shown(whole);
    assert_eq!(all, vec!["/a/x.conf", "/b/y.conf", "/c/z.conf"]);
    assert_eq!(shown(parts), all);
}
