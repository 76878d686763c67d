use std::path::{Path, PathBuf};
use wiresmart::paths::{file_extension, file_stem, ConfigPath};

const SAMPLES: [&str; 34] = [
    "", ".", "./", "..", "../", "/", "//", "/.", "/..", "a", "a/", "./a", "a/.", "a/./b", "a//b",
    "a/b", "/a/b", "/a/b/", "/a/../b", "a/..", "/etc/wireguard", "/etc//wireguard/",
    "/etc/./wireguard", "etc/wireguard", "./etc/wireguard", "/etc/wireguard/wg0.conf",
    "wg0.conf", ".conf", "..conf", "a.b.conf", "a.", "...", ".a.b", "ä/ö.conf",
];

fn path(s: &str) -> ConfigPath {
    ConfigPath::from_text(s)
}

#[test]
fn file_name_is_like_std() {
    for s in SAMPLES {
        let expected = Path::new(s).file_name().map(|f| f.as_encoded_bytes().to_vec());
        assert_eq!(path(s).file_name(), expected, "{}", s);
    }
}

#[test]
fn stem_and_extension_are_like_std() {
    for s in SAMPLES {
        if let Some(f) = path(s).file_name() {
            let stem = Path::new(s).file_stem().map(|f| f.as_encoded_bytes().to_vec());
            let extension = Path::new(s).extension().map(|f| f.as_encoded_bytes().to_vec());
            assert_eq!(Some(file_stem(&f)), stem, "{}", s);
            assert_eq!(file_extension(&f), extension, "{}", s);
        }
    }
}

#[test]
fn stem_dot_extension_make_the_name() {
    for f in ["wg0.conf", "a.b.c", "a.", "..x"] {
        let bytes = f.as_bytes().to_vec();
        let mut whole = file_stem(&bytes);
        whole.push(b'.');
        whole.extend(file_extension(&bytes).unwrap());
        assert_eq!(whole, bytes);
    }
    assert_eq!(file_extension(&b".conf".to_vec()), None);
    assert_eq!(file_stem(&b".conf".to_vec()), b".conf".to_vec());
}

#[test]
fn same_path_is_like_std() {
    for a in SAMPLES {
        for b in SAMPLES {
            assert_eq!(path(a).same_as(&path(b)), Path::new(a) == Path::new(b), "{} {}", a, b);
        }
    }
}

#[test]
fn join_is_like_std() {
    for a in SAMPLES {
        for b in SAMPLES {
            let expected: PathBuf = Path::new(a).join(b);
            let joined = path(a).join(&path(b));
            assert_eq!(joined.bytes, expected.as_os_str().as_encoded_bytes(), "{} {}", a, b);
        }
    }
}

#[test]
fn display_of_utf8_is_the_text() {
    assert_eq!(path("/etc/wïre").display(), "/etc/wïre");
}

#[test]
fn display_replaces_malformed_bytes() {
    let p = ConfigPath { bytes: vec![b'/', 0xff, b'a'] };
    assert_eq!(p.display(), "/\u{fffd}a");
    assert_eq!(p.file_name(), Some(vec![0xff, b'a']));
}

#[test]
fn copies_are_equal() {
    let p = path("/a/b");
    assert_eq!(p.clone().bytes, p.bytes);
}
