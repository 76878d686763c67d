use wiresmart::environment::{
    candidate_config_dirs, default_config_dir, default_config_dir_display, has_graphical_session,
    permission_guidance_message, Environment, ProbedDir,
};
use wiresmart::paths::ConfigPath;

fn path(s: &str) -> ConfigPath {
    ConfigPath::from_text(s)
}

fn env(dir: Option<&str>, home: Option<&str>) -> Environment {
    Environment {
        wayland_display: false,
        wayland_socket: false,
        display: false,
        wg_quick_config_dir: dir.map(path),
        home: home.map(path),
    }
}

fn shown(dirs: Vec<ConfigPath>) -> Vec<String> {
    dirs.iter().map(|d| d.display()).collect()
}

fn probed(s: &str, exists: bool) -> ProbedDir {
    ProbedDir { path: path(s), exists }
}

#[test]
fn guidance_text() {
    assert_eq!(
        permission_guidance_message(),
        "Insufficient privileges, and no graphical privilege dialog is available. Please re-run NB WireSmart as a user with the required privileges (for example via sudo)."
    );
}

#[test]
fn any_display_makes_a_graphical_session() {
    for bits in 0..8u8 {
        let mut e = env(None, None);
        e.wayland_display = bits & 1 != 0;
        e.wayland_socket = bits & 2 != 0;
        e.display = bits & 4 != 0;
        assert_eq!(has_graphical_session(&e), bits != 0);
    }
}

#[test]
fn candidates_in_order() {
    let dirs = candidate_config_dirs(Some(path("/custom")), &env(Some("/opt/wg"), Some("/home/u")));
    assert_eq!(
        shown(dirs),
        vec!["/custom", "/opt/wg", "/etc/wireguard", "/home/u/.config/wireguard"]
    );
}

#[test]
fn candidates_without_environment() {
    assert_eq!(shown(candidate_config_dirs(None, &env(None, None))), vec!["/etc/wireguard"]);
}

#[test]
fn candidates_keep_the_first_spelling() {
    let dirs = candidate_config_dirs(
        Some(path("/etc//wireguard/")),
        &env(Some("/etc/./wireguard"), Some("/home/u/")),
    );
    assert_eq!(shown(dirs), vec!["/etc//wireguard/", "/home/u/.config/wireguard"]);
}

#[test]
fn candidates_with_empty_values() {
    let dirs = candidate_config_dirs(None, &env(Some(""), Some("")));
    assert_eq!(shown(dirs), vec!["", "/etc/wireguard", ".config/wireguard"]);
}

#[test]
fn system_dir_is_always_a_candidate() {
    for custom in [None, Some("/x"), Some("/etc/wireguard/.")] {
        let dirs = candidate_config_dirs(custom.map(path), &env(None, Some("/root")));
        assert!(dirs.iter().any(|d| d.same_as(&path("/etc/wireguard"))));
        if let Some(c) = custom {
            assert_eq!(dirs[0].display(), c);
        }
    }
}

#[test]
fn default_dir_is_the_first_that_exists() {
    let v = vec![probed("/a", false), probed("/b", true), probed("/c", true)];
    assert_eq!(default_config_dir_display(&v), "/b");
    assert_eq!(default_config_dir(&v).unwrap().display(), "/b");
}

#[test]
fn default_dir_falls_back_to_the_first() {
    let v = vec![probed("/a", false), probed("/b", false)];
    assert_eq!(default_config_dir_display(&v), "/a");
    assert_eq!(default_config_dir_display(&Vec::new()), "/etc/wireguard");
    assert!(default_config_dir(&Vec::new()).is_none());
}

#[test]
fn custom_directory_replaces_only_its_own_spellings() {
    let e = env(Some("/opt/wg"), Some("/home/u"));
    let rest = vec!["/opt/wg", "/etc/wireguard", "/home/u/.config/wireguard"];
    assert_eq!(shown(candidate_config_dirs(None, &e)), rest);
    assert_eq!(
        shown(candidate_config_dirs(Some(path("/etc//wireguard/")), &e)),
        vec!["/etc//wireguard/", "/opt/wg", "/home/u/.config/wireguard"]
    );
    assert_eq!(shown(candidate_config_dirs(Some(path("/new")), &e)).len(), 4);
}
