use wiresmart::helper::{
    ensure_helper_available, helper_command, is_helper_invocation, start_failure_message,
    CheckAction, CheckEvent, StartFailure,
};
use wiresmart::paths::ConfigPath;
use wiresmart::protocol::{HelperRequest, HelperResponse};

fn outcome(action: CheckAction) -> Result<(), String> {
    match action {
        CheckAction::Finish(r) => r,
        _ => panic!("the check goes on"),
    }
}

#[test]
fn helper_flag_is_the_first_argument() {
    assert!(is_helper_invocation(Some("--helper-server".to_owned())));
    assert!(!is_helper_invocation(Some("--helper".to_owned())));
    assert!(!is_helper_invocation(None));
}

#[test]
fn helper_command_line() {
    let line = helper_command(ConfigPath::from_text("/opt/ws.AppImage"));
    let expected: Vec<Vec<u8>> = vec![
        b"pkexec".to_vec(),
        b"--disable-internal-agent".to_vec(),
        b"/opt/ws.AppImage".to_vec(),
        b"--helper-server".to_vec(),
    ];
    assert_eq!(line, expected);
    let last = String::from_utf8(line[3].clone()).unwrap();
    assert!(is_helper_invocation(Some(last)));
}

#[test]
fn reasons_why_a_helper_does_not_start() {
    assert_eq!(
        start_failure_message(StartFailure::Executable("e".to_owned())),
        "Failed to resolve app executable path: e"
    );
    assert_eq!(
        start_failure_message(StartFailure::Spawn("e".to_owned())),
        "Failed to start privilege dialog (pkexec): e"
    );
    assert_eq!(
        start_failure_message(StartFailure::NoStdin),
        "Failed to connect to helper stdin"
    );
    assert_eq!(
        start_failure_message(StartFailure::NoStdout),
        "Failed to connect to helper stdout"
    );
}

#[test]
fn check_without_a_dialog() {
    for running in [false, true] {
        let (check, action) = ensure_helper_available(false, running);
        assert!(outcome(action).unwrap_err().starts_with("Insufficient privileges"));
        assert_eq!(check.running, running);
    }
}

#[test]
fn check_of_a_helper_that_answers() {
    let (mut check, action) = ensure_helper_available(true, true);
    assert!(matches!(action, CheckAction::AskCurrent(HelperRequest::Ping)));
    assert_eq!(outcome(check.step(CheckEvent::Answered(Ok(HelperResponse::Pong)))), Ok(()));
    assert!(check.running);
}

#[test]
fn check_replaces_a_helper_that_does_not_answer() {
    for reply in [Err("Privileged helper disconnected".to_owned()), Ok(HelperResponse::Done)] {
        let (mut check, _) = ensure_helper_available(true, true);
        assert!(matches!(check.step(CheckEvent::Answered(reply)), CheckAction::Start));
        assert!(!check.running);
        let action = check.step(CheckEvent::Started(Ok(())));
        assert!(matches!(action, CheckAction::AskNew(HelperRequest::Ping)));
        assert!(!check.running);
        assert_eq!(outcome(check.step(CheckEvent::Answered(Ok(HelperResponse::Pong)))), Ok(()));
        assert!(check.running);
    }
}

#[test]
fn check_with_a_helper_that_does_not_start() {
    let (mut check, action) = ensure_helper_available(true, false);
    assert!(matches!(action, CheckAction::Start));
    let action = check.step(CheckEvent::Started(Err(StartFailure::NoStdin)));
    assert_eq!(outcome(action), Err("Failed to connect to helper stdin".to_owned()));
    assert!(!check.running);
}

#[test]
fn check_of_a_new_helper_that_answers_wrongly() {
    let (mut check, _) = ensure_helper_available(true, false);
    check.step(CheckEvent::Started(Ok(())));
    let action = check.step(CheckEvent::Answered(Ok(HelperResponse::Done)));
    assert_eq!(outcome(action), Err("Unexpected helper handshake response".to_owned()));
    assert!(!check.running);
    let (mut check, _) = ensure_helper_available(true, false);
    check.step(CheckEvent::Started(Ok(())));
    let action = check.step(CheckEvent::Answered(Err("no".to_owned())));
    assert_eq!(outcome(action), Err("no".to_owned()));
}
