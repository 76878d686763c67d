use wiresmart::commands::CommandOutput;
use wiresmart::handler::{handle_helper_request, Handling, HandlerAction, HandlerEvent};
use wiresmart::listing::{pick_files, DirectoryReport, FoundEntry, Looker};
use wiresmart::paths::ConfigPath;
use wiresmart::protocol::{HelperRequest, HelperResponse};

fn path(s: &str) -> ConfigPath {
    ConfigPath::from_text(s)
}

fn entry(s: &str, is_file: bool) -> FoundEntry {
    FoundEntry { path: path(s), is_file }
}

fn entries(list: Vec<FoundEntry>) -> HandlerEvent {
    HandlerEvent::Inspected(DirectoryReport::Entries { entries: list, failure: None })
}

fn list_request(dirs: &[&str]) -> (Handling, HandlerAction) {
    handle_helper_request(HelperRequest::ListConfigs {
        dirs: dirs.iter().map(|d| path(d)).collect(),
    })
}

fn inspected(action: &HandlerAction) -> String {
    match action {
        HandlerAction::Inspect(dir) => dir.display(),
        _ => panic!("no directory is to be read"),
    }
}

fn configs(action: HandlerAction) -> Vec<String> {
    match action {
        HandlerAction::Respond(HelperResponse::Configs { paths }) => {
            paths.iter().map(|p| p.display()).collect()
        }
        _ => panic!("no listing"),
    }
}

fn error(action: HandlerAction) -> String {
    match action {
        HandlerAction::Respond(HelperResponse::Error { message }) => message,
        _ => panic!("no error"),
    }
}

fn wg_quick(ran: Result<CommandOutput, String>) -> HandlerAction {
    let (state, action) = handle_helper_request(HelperRequest::WgQuick {
        action: "up".to_owned(),
        path: path("/etc/wireguard/wg0.conf"),
    });
    match action {
        HandlerAction::RunWgQuick { action, path } => {
            assert_eq!(action, "up");
            assert_eq!(path.display(), "/etc/wireguard/wg0.conf");
        }
        _ => panic!(),
    }
    state.step(HandlerEvent::Ran(ran)).1
}

#[test]
fn ping_and_quit_are_answered_at_once() {
    let (_, action) = handle_helper_request(HelperRequest::Ping);
    assert!(matches!(action, HandlerAction::Respond(HelperResponse::Pong)));
    let (_, action) = handle_helper_request(HelperRequest::Quit);
    assert!(matches!(action, HandlerAction::Respond(HelperResponse::Done)));
}

#[test]
fn listing_several_directories() {
    let (state, action) = list_request(&["/a", "/b", "/c"]);
    assert_eq!(inspected(&action), "/a");
    let (state, action) = state.step(entries(vec![
        entry("/a/z.conf", true),
        entry("/a/dir.conf", false),
        entry("/a/notes.txt", true),
        entry("/a/.conf", true),
        entry("/a/y.conf", true),
    ]));
    assert_eq!(inspected(&action), "/b");
    let (state, action) = state.step(HandlerEvent::Inspected(DirectoryReport::Missing));
    assert_eq!(inspected(&action), "/c");
    let (_, action) = state.step(entries(vec![entry("/c/z.conf", true)]));
    assert_eq!(configs(action), vec!["/a/z.conf", "/a/y.conf", "/c/z.conf"]);
}

#[test]
fn listing_no_directory() {
    assert!(configs(list_request(&[]).1).is_empty());
}

#[test]
fn listing_an_unreadable_directory() {
    let (state, _) = list_request(&["/a", "/b"]);
    let report = DirectoryReport::Unreadable { denied: true, reason: "nope".to_owned() };
    assert_eq!(error(state.step(HandlerEvent::Inspected(report)).1), "Cannot read /a: nope");
}

#[test]
fn listing_with_an_unreadable_entry() {
    let (state, _) = list_request(&["/a"]);
    let report = DirectoryReport::Entries {
        entries: vec![entry("/a/x.conf", true)],
        failure: Some("eio".to_owned()),
    };
    let action = state.step(HandlerEvent::Inspected(report)).1;
    assert_eq!(error(action), "Failed reading directory entry: eio");
}

#[test]
fn helper_runs_wg_quick() {
    let done = CommandOutput { success: true, stdout: vec![], stderr: vec![] };
    assert!(matches!(wg_quick(Ok(done)), HandlerAction::Respond(HelperResponse::Done)));
    let quiet = CommandOutput { success: false, stdout: vec![], stderr: vec![] };
    assert_eq!(error(wg_quick(Ok(quiet))), "wg-quick up failed for /etc/wireguard/wg0.conf");
    let loud = CommandOutput { success: false, stdout: vec![], stderr: b"bad key\n".to_vec() };
    assert_eq!(error(wg_quick(Ok(loud))), "wg-quick up failed: bad key");
    assert_eq!(error(wg_quick(Err("x".to_owned()))), "Failed to start wg-quick: x");
}

#[test]
fn who_looks_decides_what_is_picked() {
    let seen = || vec![entry("/a/.conf", true), entry("/a/b.conf", true), entry("/a/c.conf", false)];
    let mine: Vec<String> =
        pick_files(Looker::FrontEnd, seen()).iter().map(|p| p.display()).collect();
    let its: Vec<String> = pick_files(Looker::Helper, seen()).iter().map(|p| p.display()).collect();
    assert_eq!(mine, vec!["/a/.conf", "/a/b.conf"]);
    assert_eq!(its, vec!["/a/b.conf"]);
}

#[test]
fn listings_add_up() {
    let first = || entries(vec![entry("/a/x.conf", true), entry("/a/y.txt", true)]);
    let second = || entries(vec![entry("/b/z.conf", true), entry("/b/x.conf", true)]);
    let (state, _) = list_request(&["/a", "/b"]);
    let (state, action) = state.step(first());
    assert_eq!(inspected(&action), "/b");
    let both = configs(state.step(second()).1);
    let mut parts = configs(list_request(&["/a"]).0.step(first()).1);
    parts.append(&mut configs(list_request(&["/b"]).0.step(second()).1));
    assert_eq!(both, vec!["/a/x.conf", "/b/z.conf", "/b/x.conf"]);
    assert_eq!(parts, both);
}
