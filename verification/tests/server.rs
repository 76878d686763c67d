use wiresmart::protocol::{HelperRequest, HelperResponse};
use wiresmart::server::{
    run_helper_server, write_helper_response, PipeFailure, Reply, ReplyAction, ReplyEvent,
    ReplyPhase, Server, ServerAction, ServerEvent, ServerPhase,
};

fn broken(broken: bool) -> PipeFailure {
    PipeFailure { broken, reason: "why".to_owned() }
}

fn finish(action: ReplyAction) -> Result<bool, String> {
    match action {
        ReplyAction::Finish(r) => r,
        _ => panic!("the reply goes on"),
    }
}

fn reading() -> Server {
    let (server, action) = run_helper_server();
    assert!(matches!(action, ServerAction::ReadLine));
    server
}

#[test]
fn reply_is_written_as_a_line() {
    let (mut reply, action) = write_helper_response(HelperResponse::Pong);
    assert!(matches!(action, ReplyAction::Encode(HelperResponse::Pong)));
    let mut line = String::new();
    for (event, expected) in [
        (ReplyEvent::Encoded(Ok("\"Pong\"".to_owned())), "\"Pong\""),
        (ReplyEvent::Written(Ok(())), "\n"),
    ] {
        match reply.step(event) {
            ReplyAction::Write(text) => {
                assert_eq!(text, expected);
                line.push_str(&text);
            }
            _ => panic!(),
        }
    }
    assert_eq!(line, "\"Pong\"\n");
    assert!(matches!(reply.step(ReplyEvent::Written(Ok(()))), ReplyAction::Flush));
    assert_eq!(finish(reply.step(ReplyEvent::Flushed(Ok(())))), Ok(true));
}

#[test]
fn reply_that_cannot_be_encoded() {
    let (mut reply, _) = write_helper_response(HelperResponse::Done);
    let end = finish(reply.step(ReplyEvent::Encoded(Err("path".to_owned()))));
    assert_eq!(end, Err("Helper encode error: path".to_owned()));
}

#[test]
fn reply_that_cannot_be_written() {
    for phase in [ReplyPhase::Writing, ReplyPhase::EndingLine] {
        let mut reply = Reply { phase };
        let end = finish(reply.step(ReplyEvent::Written(Err(broken(false)))));
        assert_eq!(end, Err("Helper write error: why".to_owned()));
        assert_eq!(reply.phase, ReplyPhase::Finished);
    }
    let mut reply = Reply { phase: ReplyPhase::Flushing };
    let end = finish(reply.step(ReplyEvent::Flushed(Err(broken(false)))));
    assert_eq!(end, Err("Helper flush error: why".to_owned()));
}

#[test]
fn reply_that_nobody_reads() {
    for phase in [ReplyPhase::Writing, ReplyPhase::EndingLine] {
        let mut reply = Reply { phase };
        assert_eq!(finish(reply.step(ReplyEvent::Written(Err(broken(true))))), Ok(false));
    }
    let mut reply = Reply { phase: ReplyPhase::Flushing };
    assert_eq!(finish(reply.step(ReplyEvent::Flushed(Err(broken(true))))), Ok(false));
}

#[test]
fn server_round() {
    let mut server = reading();
    match server.step(ServerEvent::LineRead(Ok((7, "\"Ping\"\n".to_owned())))) {
        ServerAction::Decode(payload) => assert_eq!(payload, "\"Ping\""),
        _ => panic!(),
    }
    let action = server.step(ServerEvent::Decoded(Ok(HelperRequest::Ping)));
    assert!(matches!(action, ServerAction::Handle(HelperRequest::Ping)));
    let action = server.step(ServerEvent::Handled(HelperResponse::Pong));
    assert!(matches!(action, ServerAction::Reply(HelperResponse::Pong)));
    assert!(matches!(server.step(ServerEvent::Replied(Ok(true))), ServerAction::ReadLine));
    assert_eq!(server.phase, ServerPhase::Reading);
}

#[test]
fn server_stops_after_quit() {
    let mut server = Server { phase: ServerPhase::Decoding };
    server.step(ServerEvent::Decoded(Ok(HelperRequest::Quit)));
    let action = server.step(ServerEvent::Handled(HelperResponse::Done));
    assert!(matches!(action, ServerAction::Reply(HelperResponse::Done)));
    assert!(matches!(server.step(ServerEvent::Replied(Ok(true))), ServerAction::Stop(Ok(()))));
}

#[test]
fn server_stops_at_the_end_of_input() {
    let action = reading().step(ServerEvent::LineRead(Ok((0, String::new()))));
    assert!(matches!(action, ServerAction::Stop(Ok(()))));
}

#[test]
fn server_stops_when_reading_fails() {
    match reading().step(ServerEvent::LineRead(Err("utf-8".to_owned()))) {
        ServerAction::Stop(Err(e)) => assert_eq!(e, "Helper read error: utf-8"),
        _ => panic!(),
    }
}

#[test]
fn server_stops_when_nobody_reads() {
    let mut server = Server { phase: ServerPhase::Replying { quit: false } };
    assert!(matches!(server.step(ServerEvent::Replied(Ok(false))), ServerAction::Stop(Ok(()))));
    let mut server = Server { phase: ServerPhase::Replying { quit: false } };
    match server.step(ServerEvent::Replied(Err("Helper write error: x".to_owned()))) {
        ServerAction::Stop(Err(e)) => assert_eq!(e, "Helper write error: x"),
        _ => panic!(),
    }
}

#[test]
fn server_answers_what_is_no_request() {
    let mut server = Server { phase: ServerPhase::Decoding };
    match server.step(ServerEvent::Decoded(Err("expected value".to_owned()))) {
        ServerAction::Reply(HelperResponse::Error { message }) => {
            assert_eq!(message, "Invalid helper request: expected value")
        }
        _ => panic!(),
    }
    assert!(matches!(server.step(ServerEvent::Replied(Ok(true))), ServerAction::ReadLine));
}

fn serve(lines: &[(&str, Result<HelperRequest, String>)]) -> (Vec<String>, Result<(), String>) {
    let (mut server, mut action) = run_helper_server();
    let mut input = lines.iter();
    let mut decoded: Option<Result<HelperRequest, String>> = None;
    let mut answers: Vec<String> = Vec::new();
    loop {
        let event = match action {
            ServerAction::ReadLine => match input.next() {
                Some((line, request)) => {
                    decoded = Some(match request {
                        Ok(HelperRequest::Ping) => Ok(HelperRequest::Ping),
                        Ok(_) => Ok(HelperRequest::Quit),
                        Err(e) => Err(e.clone()),
                    });
                    ServerEvent::LineRead(Ok((line.len() + 1, format!("{}\n", line))))
                }
                None => ServerEvent::LineRead(Ok((0, String::new()))),
            },
            ServerAction::Decode(_) => ServerEvent::Decoded(decoded.take().unwrap()),
            ServerAction::Handle(HelperRequest::Ping) => ServerEvent::Handled(HelperResponse::Pong),
            ServerAction::Handle(_) => ServerEvent::Handled(HelperResponse::Done),
            ServerAction::Reply(response) => {
                answers.push(match response {
                    HelperResponse::Pong => "pong".to_owned(),
                    HelperResponse::Done => "done".to_owned(),
                    HelperResponse::Error { message } => message,
                    _ => panic!(),
                });
                ServerEvent::Replied(Ok(true))
            }
            ServerAction::Stop(r) => return (answers, r),
        };
        action = server.step(event);
    }
}

#[test]
fn server_answers_every_line() {
    let (answers, end) = serve(&[
        ("\"Ping\"", Ok(HelperRequest::Ping)),
        ("nonsense", Err("expected value".to_owned())),
        ("\"Ping\"", Ok(HelperRequest::Ping)),
    ]);
    assert_eq!(answers, vec!["pong", "Invalid helper request: expected value", "pong"]);
    assert_eq!(end, Ok(()));
}

#[test]
fn server_answers_nothing_after_quit() {
    let (answers, end) = serve(&[
        ("\"Ping\"", Ok(HelperRequest::Ping)),
        ("\"Quit\"", Ok(HelperRequest::Quit)),
        ("\"Ping\"", Ok(HelperRequest::Ping)),
    ]);
    assert_eq!(answers, vec!["pong", "done"]);
    assert_eq!(end, Ok(()));
    let (answers, end) = serve(&[]);
    assert!(answers.is_empty());
    assert_eq!(end, Ok(()));
}

/// Performs the writing of an answer on a writer whose write `fails_at` fails.
fn perform(fails_at: usize) -> (Result<bool, String>, String) {
    let (mut reply, mut action) = write_helper_response(HelperResponse::Done);
    let mut sent = String::new();
    let mut writes = 0;
    loop {
        let event = match action {
            ReplyAction::Encode(_) => ReplyEvent::Encoded(Ok("\"Ok\"".to_owned())),
            ReplyAction::Write(text) => {
                writes += 1;
                if writes == fails_at {
                    ReplyEvent::Written(Err(broken(false)))
                } else {
                    sent.push_str(&text);
                    ReplyEvent::Written(Ok(()))
                }
            }
            ReplyAction::Flush => ReplyEvent::Flushed(Ok(())),
            ReplyAction::Finish(r) => return (r, sent),
        };
        action = reply.step(event);
    }
}

#[test]
fn reply_takes_two_writes() {
    let failed = Err("Helper write error: why".to_owned());
    assert_eq!(perform(1), (failed.clone(), String::new()));
    assert_eq!(perform(2), (failed, "\"Ok\"".to_owned()));
    assert_eq!(perform(3), (Ok(true), "\"Ok\"\n".to_owned()));
}
