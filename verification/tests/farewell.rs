use wiresmart::farewell::{let_helper_go, FarewellAction, FarewellEvent, FarewellPhase};
use wiresmart::protocol::HelperRequest;

/// The actions of a farewell in which all or none of the writes succeed.
fn actions(encoded: Result<String, String>, pipe: Result<(), String>) -> Vec<String> {
    let (mut farewell, mut action) = let_helper_go();
    let mut done: Vec<String> = Vec::new();
    loop {
        let event = match action {
            FarewellAction::Encode(request) => {
                assert!(matches!(request, HelperRequest::Quit));
                FarewellEvent::Encoded(encoded.clone())
            }
            FarewellAction::Write(text) => {
                done.push(text);
                FarewellEvent::Written(pipe.clone())
            }
            FarewellAction::Flush => {
                done.push("flush".to_owned());
                FarewellEvent::Flushed(pipe.clone())
            }
            FarewellAction::Kill => {
                done.push("kill".to_owned());
                assert_eq!(farewell.phase, FarewellPhase::Finished);
                return done;
            }
        };
        action = farewell.step(event);
    }
}

#[test]
fn helper_is_asked_to_quit_and_ended() {
    let all = vec!["\"Quit\"", "\n", "flush", "kill"];
    assert_eq!(actions(Ok("\"Quit\"".to_owned()), Ok(())), all);
    assert_eq!(actions(Ok("\"Quit\"".to_owned()), Err("gone".to_owned())), all);
}

#[test]
fn helper_is_ended_without_a_request() {
    assert_eq!(actions(Err("no".to_owned()), Ok(())), vec!["kill"]);
}
