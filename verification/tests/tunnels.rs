use wiresmart::paths::ConfigPath;
use wiresmart::tunnels::{
    conf_extension, insert_tunnel_from_path, insert_tunnels_from_paths, tunnel_file, TunnelTable,
};

fn path(s: &str) -> ConfigPath {
    ConfigPath::from_text(s)
}

fn list(table: TunnelTable) -> Vec<(String, String)> {
    table.into_tunnels().into_iter().map(|t| (t.name, t.path.display())).collect()
}

fn pair(name: &str, p: &str) -> (String, String) {
    (name.to_owned(), p.to_owned())
}

#[test]
fn tunnels_are_named_after_the_stem() {
    let mut table = TunnelTable::new();
    assert!(table.is_empty());
    insert_tunnel_from_path(&mut table, path("/etc/wireguard/office.conf"));
    insert_tunnel_from_path(&mut table, path("/x/a.b.conf"));
    insert_tunnel_from_path(&mut table, path("/x/.conf"));
    insert_tunnel_from_path(&mut table, path("/x/plain"));
    assert!(!table.is_empty());
    assert_eq!(
        list(table),
        vec![
            pair(".conf", "/x/.conf"),
            pair("a.b", "/x/a.b.conf"),
            pair("office", "/etc/wireguard/office.conf"),
            pair("plain", "/x/plain"),
        ]
    );
}

#[test]
fn the_first_path_under_a_name_stays() {
    let mut table = TunnelTable::new();
    let paths = vec![path("/a/wg0.conf"), path("/b/wg1.conf"), path("/b/wg0.conf")];
    insert_tunnels_from_paths(&mut table, &paths);
    insert_tunnel_from_path(&mut table, path("/c/wg1.conf"));
    assert_eq!(list(table), vec![pair("wg0", "/a/wg0.conf"), pair("wg1", "/b/wg1.conf")]);
}

#[test]
fn tunnels_ascend_by_name() {
    let mut table = TunnelTable::new();
    for n in ["wg2", "ä", "wg10", "B", "a", "wg1", "b"] {
        insert_tunnel_from_path(&mut table, path(&format!("/{}.conf", n)));
    }
    let names: Vec<String> = table.into_tunnels().into_iter().map(|t| t.name).collect();
    assert_eq!(names, vec!["B", "a", "b", "wg1", "wg10", "wg2", "ä"]);
}

#[test]
fn paths_without_a_usable_name_are_passed_over() {
    let mut table = TunnelTable::new();
    insert_tunnel_from_path(&mut table, path("/"));
    insert_tunnel_from_path(&mut table, path("/a/.."));
    insert_tunnel_from_path(&mut table, path(""));
    insert_tunnel_from_path(&mut table, ConfigPath { bytes: b"/a/\xff.conf".to_vec() });
    assert!(table.is_empty());
}

#[test]
fn front_end_and_helper_pick_the_same_files() {
    for s in ["wg0.conf", "/etc/wireguard/wg0.conf", "a.conf.bak", "conf", "xconf", "a.CONF", ".a.conf"]
    {
        assert_eq!(tunnel_file(&path(s)), conf_extension(&path(s)), "{}", s);
    }
    assert!(tunnel_file(&path("wg0.conf")));
    assert!(!tunnel_file(&path("wg0.confx")));
}

#[test]
fn where_front_end_and_helper_differ() {
    assert!(tunnel_file(&path("/a/.conf")));
    assert!(!conf_extension(&path("/a/.conf")));
    let odd = ConfigPath { bytes: b"/a/\xff.conf".to_vec() };
    assert!(!tunnel_file(&odd));
    assert!(conf_extension(&odd));
}

#[test]
fn a_second_file_of_a_name_changes_nothing() {
    let mut table = TunnelTable::new();
    insert_tunnel_from_path(&mut table, path("/a/wg0.conf"));
    insert_tunnel_from_path(&mut table, path("/b/wg0.conf"));
    assert_eq!(list(table), vec![pair("wg0", "/a/wg0.conf")]);
}

#[test]
fn files_of_different_names_come_in_any_order() {
    let (mut one, mut other) = (TunnelTable::new(), TunnelTable::new());
    insert_tunnels_from_paths(&mut one, &vec![path("/a/wg0.conf"), path("/b/wg1.conf")]);
    insert_tunnels_from_paths(&mut other, &vec![path("/b/wg1.conf"), path("/a/wg0.conf")]);
    assert_eq!(list(one), list(other));
}
