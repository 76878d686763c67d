use wiresmart::discovery::{discover_tunnels, Discovery, DiscoveryAction, DiscoveryEvent};
use wiresmart::listing::{DirectoryReport, FoundEntry};
use wiresmart::paths::ConfigPath;
use wiresmart::protocol::{HelperRequest, HelperResponse};

fn path(s: &str) -> ConfigPath {
    ConfigPath::from_text(s)
}

fn begin(dirs: &[&str], can_elevate: bool) -> (Discovery, DiscoveryAction) {
    discover_tunnels(dirs.iter().map(|d| path(d)).collect(), can_elevate)
}

fn files(list: &[&str]) -> DiscoveryEvent {
    let entries = list.iter().map(|p| FoundEntry { path: path(p), is_file: true }).collect();
    DiscoveryEvent::Inspected(DirectoryReport::Entries { entries, failure: None })
}

fn unreadable(denied: bool) -> DiscoveryEvent {
    let reason = "why".to_owned();
    DiscoveryEvent::Inspected(DirectoryReport::Unreadable { denied, reason })
}

fn dir(action: &DiscoveryAction) -> String {
    match action {
        DiscoveryAction::Inspect(dir) => dir.display(),
        _ => panic!("no directory is to be read"),
    }
}

fn outcome(action: DiscoveryAction) -> Result<(), String> {
    match action {
        DiscoveryAction::Finish(r) => r,
        _ => panic!("the discovery goes on"),
    }
}

fn found(discovery: Discovery) -> Vec<(String, String)> {
    let list = discovery.found.into_tunnels();
    list.into_iter().map(|t| (t.name, t.path.display())).collect()
}

fn pair(name: &str, p: &str) -> (String, String) {
    (name.to_owned(), p.to_owned())
}

#[test]
fn discovery_in_readable_directories() {
    let (mut d, action) = begin(&["/b", "/none", "/a"], false);
    assert_eq!(dir(&action), "/b");
    let action = d.step(files(&["/b/wg1.conf", "/b/readme", "/b/wg0.conf"]));
    assert_eq!(dir(&action), "/none");
    let action = d.step(DiscoveryEvent::Inspected(DirectoryReport::Missing));
    assert_eq!(dir(&action), "/a");
    let action = d.step(files(&["/a/wg0.conf", "/a/home.conf"]));
    assert_eq!(outcome(action), Ok(()));
    assert_eq!(
        found(d),
        vec![pair("home", "/a/home.conf"), pair("wg0", "/b/wg0.conf"), pair("wg1", "/b/wg1.conf")]
    );
}

#[test]
fn discovery_without_directories() {
    let (d, action) = begin(&[], true);
    assert_eq!(outcome(action), Ok(()));
    assert!(found(d).is_empty());
}

#[test]
fn discovery_asks_the_helper_where_it_may_not_read() {
    let (mut d, _) = begin(&["/etc/wireguard", "/h"], true);
    assert!(matches!(d.step(unreadable(true)), DiscoveryAction::EnsureHelper));
    match d.step(DiscoveryEvent::Ensured(Ok(()))) {
        DiscoveryAction::Ask(HelperRequest::ListConfigs { dirs }) => {
            assert_eq!(dirs.len(), 1);
            assert_eq!(dirs[0].display(), "/etc/wireguard");
        }
        _ => panic!(),
    }
    let paths = vec![path("/etc/wireguard/office.conf")];
    let action = d.step(DiscoveryEvent::Answered(Ok(HelperResponse::Configs { paths })));
    assert_eq!(dir(&action), "/h");
    let action = d.step(files(&["/h/office.conf", "/h/x.conf"]));
    assert_eq!(outcome(action), Ok(()));
    assert_eq!(
        found(d),
        vec![pair("office", "/etc/wireguard/office.conf"), pair("x", "/h/x.conf")]
    );
}

#[test]
fn discovery_passes_over_what_it_may_not_read() {
    let (mut d, _) = begin(&["/a", "/b"], false);
    assert_eq!(dir(&d.step(unreadable(true))), "/b");
    assert!(d.blocked);
    assert_eq!(outcome(d.step(files(&["/b/x.conf"]))), Ok(()));
    assert_eq!(found(d), vec![pair("x", "/b/x.conf")]);
}

#[test]
fn discovery_that_found_nothing_for_want_of_permission() {
    let (mut d, _) = begin(&["/a", "/b"], false);
    d.step(unreadable(true));
    let end = outcome(d.step(files(&[])));
    assert!(end.unwrap_err().starts_with("Insufficient privileges, and no graphical"));
}

#[test]
fn discovery_failures() {
    let (mut d, _) = begin(&["/a"], true);
    assert_eq!(outcome(d.step(unreadable(false))), Err("Cannot read /a: why".to_owned()));

    let (mut d, _) = begin(&["/a"], true);
    let report = DirectoryReport::Entries { entries: vec![], failure: Some("eio".to_owned()) };
    assert_eq!(
        outcome(d.step(DiscoveryEvent::Inspected(report))),
        Err("Failed reading directory entry: eio".to_owned())
    );

    let (mut d, _) = begin(&["/a"], true);
    d.step(unreadable(true));
    assert_eq!(
        outcome(d.step(DiscoveryEvent::Ensured(Err("cancelled".to_owned())))),
        Err("cancelled".to_owned())
    );

    let (mut d, _) = begin(&["/a"], true);
    d.step(unreadable(true));
    d.step(DiscoveryEvent::Ensured(Ok(())));
    assert_eq!(
        outcome(d.step(DiscoveryEvent::Answered(Ok(HelperResponse::Pong)))),
        Err("Unexpected helper response".to_owned())
    );

    let (mut d, _) = begin(&["/a"], true);
    d.step(unreadable(true));
    d.step(DiscoveryEvent::Ensured(Ok(())));
    assert_eq!(
        outcome(d.step(DiscoveryEvent::Answered(Err("gone".to_owned())))),
        Err("gone".to_owned())
    );
}
