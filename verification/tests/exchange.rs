use wiresmart::exchange::{answer, Exchange, ExchangeAction, ExchangeEvent, ExchangePhase};
use wiresmart::paths::ConfigPath;
use wiresmart::protocol::{line_feed, unframe, HelperRequest, HelperResponse};

fn start() -> Exchange {
    let (exchange, action) = Exchange::request(HelperRequest::Ping);
    assert!(matches!(action, ExchangeAction::Encode(HelperRequest::Ping)));
    exchange
}

fn failure(action: ExchangeAction) -> String {
    match action {
        ExchangeAction::Finish(Err(e)) => e,
        _ => panic!("the exchange goes on"),
    }
}

fn at(phase: ExchangePhase) -> Exchange {
    Exchange { phase }
}

fn written(action: ExchangeAction) -> String {
    match action {
        ExchangeAction::Write(text) => text,
        _ => panic!("nothing is to be written"),
    }
}

#[test]
fn frames_are_lines() {
    assert_eq!(line_feed(), "\n");
    assert_eq!(unframe("\"Ping\"\r\n"), "\"Ping\"");
    for payload in ["", "{}", "{\"a\":\"b c\"}"] {
        let message = payload.to_owned() + &line_feed();
        assert_eq!(unframe(&message), payload);
        assert_eq!(message.lines().count(), 1);
    }
    assert_ne!(unframe("a \n"), "a ");
}

#[test]
fn exchange_from_request_to_answer() {
    let mut x = start();
    assert_eq!(written(x.step(ExchangeEvent::Encoded(Ok("\"Ping\"".to_owned())))), "\"Ping\"");
    assert_eq!(x.phase, ExchangePhase::Writing);
    assert_eq!(written(x.step(ExchangeEvent::Written(Ok(())))), "\n");
    assert_eq!(x.phase, ExchangePhase::EndingLine);
    assert!(matches!(x.step(ExchangeEvent::Written(Ok(()))), ExchangeAction::Flush));
    assert!(matches!(x.step(ExchangeEvent::Flushed(Ok(()))), ExchangeAction::ReadLine));
    match x.step(ExchangeEvent::LineRead(Ok((7, "\"Pong\"\n".to_owned())))) {
        ExchangeAction::Decode(payload) => assert_eq!(payload, "\"Pong\""),
        _ => panic!(),
    }
    let last = x.step(ExchangeEvent::Decoded(Ok(HelperResponse::Pong)));
    assert!(matches!(last, ExchangeAction::Finish(Ok(HelperResponse::Pong))));
    assert_eq!(x.phase, ExchangePhase::Finished);
}

#[test]
fn exchange_encode_error() {
    let e = start().step(ExchangeEvent::Encoded(Err("bad path".to_owned())));
    assert_eq!(failure(e), "Helper encode error: bad path");
}

#[test]
fn exchange_write_error() {
    for phase in [ExchangePhase::Writing, ExchangePhase::EndingLine] {
        let e = at(phase).step(ExchangeEvent::Written(Err("gone".to_owned())));
        assert_eq!(failure(e), "Helper write error: gone");
    }
}

#[test]
fn exchange_flush_error() {
    let e = at(ExchangePhase::Flushing).step(ExchangeEvent::Flushed(Err("gone".to_owned())));
    assert_eq!(failure(e), "Helper flush error: gone");
}

#[test]
fn exchange_read_error() {
    let e = at(ExchangePhase::Reading).step(ExchangeEvent::LineRead(Err("eio".to_owned())));
    assert_eq!(failure(e), "Helper read error: eio");
}

#[test]
fn exchange_with_a_helper_that_is_gone() {
    let e = at(ExchangePhase::Reading).step(ExchangeEvent::LineRead(Ok((0, String::new()))));
    assert_eq!(failure(e), "Privileged helper disconnected");
}

#[test]
fn exchange_decode_error() {
    let e = at(ExchangePhase::Decoding).step(ExchangeEvent::Decoded(Err("eof".to_owned())));
    assert_eq!(failure(e), "Helper decode error: eof");
}

#[test]
fn a_reported_error_is_a_failure() {
    let said = HelperResponse::Error { message: "Cannot read /x: denied".to_owned() };
    let e = at(ExchangePhase::Decoding).step(ExchangeEvent::Decoded(Ok(said)));
    assert_eq!(failure(e), "Cannot read /x: denied");
    assert!(matches!(answer(HelperResponse::Done), Ok(HelperResponse::Done)));
    let configs = HelperResponse::Configs { paths: vec![ConfigPath::from_text("/a.conf")] };
    match answer(configs) {
        Ok(HelperResponse::Configs { paths }) => assert_eq!(paths[0].display(), "/a.conf"),
        _ => panic!(),
    }
}
