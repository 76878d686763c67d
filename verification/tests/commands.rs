use wiresmart::commands::{
    active_interfaces, is_effective_root, judge_wg_quick, root_user_id, wg_quick_failure_message,
    CommandOutput,
};

fn output(success: bool, stdout: &[u8], stderr: &[u8]) -> Result<CommandOutput, String> {
    Ok(CommandOutput { success, stdout: stdout.to_vec(), stderr: stderr.to_vec() })
}

#[test]
fn wg_quick_success() {
    assert_eq!(judge_wg_quick("up", "wg0", output(true, b"", b"noise")), Ok(()));
}

#[test]
fn wg_quick_failure_in_its_own_words() {
    assert_eq!(
        judge_wg_quick("up", "wg0", output(false, b"", b"  `wg0' already exists\n")),
        Err("wg-quick up failed: `wg0' already exists".to_owned())
    );
    assert_eq!(
        judge_wg_quick("up", "wg0", output(false, b"", b"\xffx\n")),
        Err("wg-quick up failed: \u{fffd}x".to_owned())
    );
}

#[test]
fn wg_quick_failure_without_words() {
    assert_eq!(
        judge_wg_quick("down", "wg0", output(false, b"x", b" \n")),
        Err("wg-quick down failed for wg0".to_owned())
    );
    assert_eq!(wg_quick_failure_message("up", "s", ""), "wg-quick up failed for s");
    assert_eq!(wg_quick_failure_message("up", "s", " no "), "wg-quick up failed: no");
}

#[test]
fn wg_quick_that_does_not_start() {
    assert_eq!(
        judge_wg_quick("up", "wg0", Err("No such file or directory (os error 2)".to_owned())),
        Err("Failed to start wg-quick: No such file or directory (os error 2)".to_owned())
    );
}

#[test]
fn root_by_user_id() {
    assert!(is_effective_root(output(true, b"0\n", b"")));
    assert!(!is_effective_root(output(true, b"1000\n", b"")));
    assert!(!is_effective_root(output(true, b"00", b"")));
    assert!(!is_effective_root(output(false, b"0\n", b"")));
    assert!(!is_effective_root(Err("no id".to_owned())));
    assert!(root_user_id(" 0 "));
    assert!(!root_user_id(""));
}

#[test]
fn interfaces_that_are_up() {
    assert_eq!(active_interfaces(output(true, b"wg0 office\twg0\n", b"")), vec!["wg0", "office"]);
    assert_eq!(active_interfaces(output(true, b"w\xff", b"")), vec!["w\u{fffd}"]);
    assert!(active_interfaces(output(true, b"\n", b"")).is_empty());
    assert!(active_interfaces(output(false, b"wg0", b"")).is_empty());
    assert!(active_interfaces(Err("no wg".to_owned())).is_empty());
}
