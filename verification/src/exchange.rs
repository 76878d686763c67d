//! One question to the privileged helper, from encoding it to its answer.

use crate::protocol::{framed, law_frame_is_written_in_two, line_end, line_feed, unframe};
use crate::protocol::{HelperRequest, HelperResponse, RequestModel, ResponseModel};
use crate::protocol::{reply_result, text_result, unit_result};
use crate::text::trimmed_end;
use vstd::prelude::*;

verus! {

/// What an exchange waits for.
#[derive(Debug, Clone, Copy, PartialEq, Eq, Structural)]
pub enum ExchangePhase {
    Encoding,
    /// The request is written.
    Writing,
    /// The line feed behind it is written.
    EndingLine,
    Flushing,
    Reading,
    Decoding,
    Finished,
}

/// What came of an action. A failure is its text.
pub enum ExchangeEvent {
    /// The request was encoded.
    Encoded(Result<String, String>),
    /// The text was written.
    Written(Result<(), String>),
    /// The pipe was flushed.
    Flushed(Result<(), String>),
    /// That many bytes were read, and they are this line.
    LineRead(Result<(usize, String), String>),
    /// The answer was decoded.
    Decoded(Result<HelperResponse, String>),
}

/// What an `ExchangeEvent` holds.
pub enum ExchangeEventModel {
    Encoded(Result<Seq<char>, Seq<char>>),
    Written(Result<(), Seq<char>>),
    Flushed(Result<(), Seq<char>>),
    LineRead(Result<(usize, Seq<char>), Seq<char>>),
    Decoded(Result<ResponseModel, Seq<char>>),
}

impl View for ExchangeEvent {
    type V = ExchangeEventModel;

    open spec fn view(&self) -> ExchangeEventModel {
        match *self {
            ExchangeEvent::Encoded(r) => ExchangeEventModel::Encoded(text_result(r)),
            ExchangeEvent::Written(r) => ExchangeEventModel::Written(unit_result(r)),
            ExchangeEvent::Flushed(r) => ExchangeEventModel::Flushed(unit_result(r)),
            ExchangeEvent::LineRead(r) => ExchangeEventModel::LineRead(
                match r {
                    Ok((n, line)) => Ok((n, line@)),
                    Err(e) => Err(e@),
                },
            ),
            ExchangeEvent::Decoded(r) => ExchangeEventModel::Decoded(reply_result(r)),
        }
    }
}

/// What is to be done next.
pub enum ExchangeAction {
    /// Encode this request.
    Encode(HelperRequest),
    /// Write this to the helper.
    Write(String),
    /// Flush the pipe.
    Flush,
    /// Read a line.
    ReadLine,
    /// Decode this.
    Decode(String),
    /// The exchange is over.
    Finish(Result<HelperResponse, String>),
}

/// What an `ExchangeAction` holds.
#[verifier::ext_equal]
pub enum ExchangeActionModel {
    Encode(RequestModel),
    Write(Seq<char>),
    Flush,
    ReadLine,
    Decode(Seq<char>),
    Finish(Result<ResponseModel, Seq<char>>),
}

impl View for ExchangeAction {
    type V = ExchangeActionModel;

    open spec fn view(&self) -> ExchangeActionModel {
        match *self {
            ExchangeAction::Encode(request) => ExchangeActionModel::Encode(request@),
            ExchangeAction::Write(t) => ExchangeActionModel::Write(t@),
            ExchangeAction::Flush => ExchangeActionModel::Flush,
            ExchangeAction::ReadLine => ExchangeActionModel::ReadLine,
            ExchangeAction::Decode(t) => ExchangeActionModel::Decode(t@),
            ExchangeAction::Finish(r) => ExchangeActionModel::Finish(reply_result(r)),
        }
    }
}

/// Whether an exchange in this phase waits for an event of this kind.
pub open spec fn exchange_awaits(phase: ExchangePhase, event: ExchangeEventModel) -> bool {
    match event {
        ExchangeEventModel::Encoded(_) => phase == ExchangePhase::Encoding,
        ExchangeEventModel::Written(_) => phase == ExchangePhase::Writing || phase
            == ExchangePhase::EndingLine,
        ExchangeEventModel::Flushed(_) => phase == ExchangePhase::Flushing,
        ExchangeEventModel::LineRead(_) => phase == ExchangePhase::Reading,
        ExchangeEventModel::Decoded(_) => phase == ExchangePhase::Decoding,
    }
}

/// The end of an exchange that failed.
pub open spec fn exchange_failed(prefix: Seq<char>, detail: Seq<char>) -> (
    ExchangePhase,
    ExchangeActionModel,
) {
    (ExchangePhase::Finished, ExchangeActionModel::Finish(Err(prefix + detail)))
}

/// What the asker gets of an answer: an error that the helper reports is a
/// failure.
pub open spec fn answer_of(response: ResponseModel) -> Result<ResponseModel, Seq<char>> {
    match response {
        ResponseModel::Error { message } => Err(message),
        _ => Ok(response),
    }
}

/// The phase and the action after an event.
pub open spec fn exchange_next(phase: ExchangePhase, event: ExchangeEventModel) -> (
    ExchangePhase,
    ExchangeActionModel,
) {
    match event {
        ExchangeEventModel::Encoded(Ok(payload)) => (
            ExchangePhase::Writing,
            ExchangeActionModel::Write(payload),
        ),
        ExchangeEventModel::Encoded(Err(e)) => exchange_failed("Helper encode error: "@, e),
        ExchangeEventModel::Written(Ok(_)) => if phase == ExchangePhase::Writing {
            (ExchangePhase::EndingLine, ExchangeActionModel::Write(line_end()))
        } else {
            (ExchangePhase::Flushing, ExchangeActionModel::Flush)
        },
        ExchangeEventModel::Written(Err(e)) => exchange_failed("Helper write error: "@, e),
        ExchangeEventModel::Flushed(Ok(_)) => (
            ExchangePhase::Reading,
            ExchangeActionModel::ReadLine,
        ),
        ExchangeEventModel::Flushed(Err(e)) => exchange_failed("Helper flush error: "@, e),
        ExchangeEventModel::LineRead(Ok((count, line))) => if count == 0 {
            (
                ExchangePhase::Finished,
                ExchangeActionModel::Finish(Err("Privileged helper disconnected"@)),
            )
        } else {
            (ExchangePhase::Decoding, ExchangeActionModel::Decode(trimmed_end(line)))
        },
        ExchangeEventModel::LineRead(Err(e)) => exchange_failed("Helper read error: "@, e),
        ExchangeEventModel::Decoded(Ok(response)) => (
            ExchangePhase::Finished,
            ExchangeActionModel::Finish(answer_of(response)),
        ),
        ExchangeEventModel::Decoded(Err(e)) => exchange_failed("Helper decode error: "@, e),
    }
}

/// An error that the helper reports is a failure of the request.
pub fn answer(response: HelperResponse) -> (res: Result<HelperResponse, String>)
    ensures
        reply_result(res) == answer_of(response@),
{
    match response {
        HelperResponse::Error { message } => Err(message),
        other => Ok(other),
    }
}

/// A request under way.
pub struct Exchange {
    pub phase: ExchangePhase,
}

impl Exchange {
    /// Begins with encoding the request.
    pub fn request(request: HelperRequest) -> (res: (Self, ExchangeAction))
        ensures
            res.0.phase == ExchangePhase::Encoding,
            res.1@ == ExchangeActionModel::Encode(request@),
    {
        (Exchange { phase: ExchangePhase::Encoding }, ExchangeAction::Encode(request))
    }

    /// Ends with a failure.
    fn fail(&mut self, prefix: &str, detail: &str) -> (res: ExchangeAction)
        ensures
            (final(self).phase, res@) == exchange_failed(prefix@, detail@),
    {
        self.phase = ExchangePhase::Finished;
        ExchangeAction::Finish(Err(prefix.to_owned().concat(detail)))
    }

    /// Goes on after an event.
    pub fn step(&mut self, event: ExchangeEvent) -> (res: ExchangeAction)
        requires
            exchange_awaits(old(self).phase, event@),
        ensures
            (final(self).phase, res@) == exchange_next(old(self).phase, event@),
    {
        match event {
            ExchangeEvent::Encoded(Ok(payload)) => {
                self.phase = ExchangePhase::Writing;
                ExchangeAction::Write(payload)
            },
            ExchangeEvent::Encoded(Err(e)) => self.fail("Helper encode error: ", &e),
            ExchangeEvent::Written(Ok(_)) => {
                if self.phase == ExchangePhase::Writing {
                    self.phase = ExchangePhase::EndingLine;
                    ExchangeAction::Write(line_feed())
                } else {
                    self.phase = ExchangePhase::Flushing;
                    ExchangeAction::Flush
                }
            },
            ExchangeEvent::Written(Err(e)) => self.fail("Helper write error: ", &e),
            ExchangeEvent::Flushed(Ok(_)) => {
                self.phase = ExchangePhase::Reading;
                ExchangeAction::ReadLine
            },
            ExchangeEvent::Flushed(Err(e)) => self.fail("Helper flush error: ", &e),
            ExchangeEvent::LineRead(Ok((count, line))) => {
                if count == 0 {
                    self.phase = ExchangePhase::Finished;
                    ExchangeAction::Finish(Err("Privileged helper disconnected".to_owned()))
                } else {
                    self.phase = ExchangePhase::Decoding;
                    ExchangeAction::Decode(unframe(&line))
                }
            },
            ExchangeEvent::LineRead(Err(e)) => self.fail("Helper read error: ", &e),
            ExchangeEvent::Decoded(Ok(response)) => {
                self.phase = ExchangePhase::Finished;
                ExchangeAction::Finish(answer(response))
            },
            ExchangeEvent::Decoded(Err(e)) => self.fail("Helper decode error: ", &e),
        }
    }
}

/// What an exchange ends with on these events, if they suffice.
pub open spec fn exchange_run(phase: ExchangePhase, events: Seq<ExchangeEventModel>) -> Option<
    Result<ResponseModel, Seq<char>>,
>
    decreases events.len(),
{
    if events.len() == 0 || !exchange_awaits(phase, events[0]) {
        None
    } else {
        let (next, action) = exchange_next(phase, events[0]);
        match action {
            ExchangeActionModel::Finish(r) => Some(r),
            _ => exchange_run(next, events.drop_first()),
        }
    }
}

/// An exchange gives the helper's answer iff every step of it succeeds, some
/// bytes come back and the answer is not an error. Otherwise it gives the
/// failure of the first step that failed.
pub proof fn law_exchange_outcome(
    encoded: Result<Seq<char>, Seq<char>>,
    written: Result<(), Seq<char>>,
    ended: Result<(), Seq<char>>,
    flushed: Result<(), Seq<char>>,
    line: Result<(usize, Seq<char>), Seq<char>>,
    decoded: Result<ResponseModel, Seq<char>>,
)
    ensures
        exchange_run(
            ExchangePhase::Encoding,
            seq![
                ExchangeEventModel::Encoded(encoded),
                ExchangeEventModel::Written(written),
                ExchangeEventModel::Written(ended),
                ExchangeEventModel::Flushed(flushed),
                ExchangeEventModel::LineRead(line),
                ExchangeEventModel::Decoded(decoded),
            ],
        ) == Some(
            match (encoded, written, ended, flushed, line, decoded) {
                (Err(e), _, _, _, _, _) => Err("Helper encode error: "@ + e),
                (_, Err(e), _, _, _, _) => Err("Helper write error: "@ + e),
                (_, _, Err(e), _, _, _) => Err("Helper write error: "@ + e),
                (_, _, _, Err(e), _, _) => Err("Helper flush error: "@ + e),
                (_, _, _, _, Err(e), _) => Err("Helper read error: "@ + e),
                (_, _, _, _, Ok((0, _)), _) => Err("Privileged helper disconnected"@),
                (_, _, _, _, _, Err(e)) => Err("Helper decode error: "@ + e),
                (_, _, _, _, _, Ok(ResponseModel::Error { message })) => Err(message),
                (_, _, _, _, _, Ok(response)) => Ok(response),
            },
        ),
{
    reveal_with_fuel(exchange_run, 7);
    let e1 = ExchangeEventModel::Encoded(encoded);
    let e2 = ExchangeEventModel::Written(written);
    let e3 = ExchangeEventModel::Written(ended);
    let e4 = ExchangeEventModel::Flushed(flushed);
    let e5 = ExchangeEventModel::LineRead(line);
    let e6 = ExchangeEventModel::Decoded(decoded);
    assert(seq![e1, e2, e3, e4, e5, e6].drop_first() =~= seq![e2, e3, e4, e5, e6]);
    assert(seq![e2, e3, e4, e5, e6].drop_first() =~= seq![e3, e4, e5, e6]);
    assert(seq![e3, e4, e5, e6].drop_first() =~= seq![e4, e5, e6]);
    assert(seq![e4, e5, e6].drop_first() =~= seq![e5, e6]);
    assert(seq![e5, e6].drop_first() =~= seq![e6]);
}

/// What an exchange has written on these events: the texts of the writes that
/// succeeded, one behind the other.
pub open spec fn exchange_sent(
    phase: ExchangePhase,
    action: ExchangeActionModel,
    events: Seq<ExchangeEventModel>,
) -> Seq<char>
    decreases events.len(),
{
    if events.len() == 0 || !exchange_awaits(phase, events[0]) {
        Seq::empty()
    } else {
        let (next, then_do) = exchange_next(phase, events[0]);
        let sent = match (action, events[0]) {
            (ExchangeActionModel::Write(t), ExchangeEventModel::Written(Ok(_))) => t,
            _ => Seq::empty(),
        };
        sent + exchange_sent(next, then_do, events.drop_first())
    }
}

/// Nothing is written once the line has ended.
proof fn lemma_nothing_sent_after(
    phase: ExchangePhase,
    action: ExchangeActionModel,
    events: Seq<ExchangeEventModel>,
)
    requires
        phase == ExchangePhase::Flushing || phase == ExchangePhase::Reading || phase
            == ExchangePhase::Decoding || phase == ExchangePhase::Finished,
    ensures
        exchange_sent(phase, action, events) == Seq::<char>::empty(),
    decreases events.len(),
{
    if events.len() > 0 && exchange_awaits(phase, events[0]) {
        let (next, then_do) = exchange_next(phase, events[0]);
        lemma_nothing_sent_after(next, then_do, events.drop_first());
    }
}

/// An exchange whose writes succeed has written the encoded request and a line
/// feed behind it, and nothing else whatever follows: one message.
pub proof fn law_exchange_sends_one_message(
    request: RequestModel,
    payload: Seq<char>,
    rest: Seq<ExchangeEventModel>,
)
    requires
        rest.len() >= 2,
        rest[0] matches ExchangeEventModel::Written(r) && r is Ok,
        rest[1] matches ExchangeEventModel::Written(r) && r is Ok,
    ensures
        exchange_sent(
            ExchangePhase::Encoding,
            ExchangeActionModel::Encode(request),
            seq![ExchangeEventModel::Encoded(Ok(payload))] + rest,
        ) == framed(payload),
{
    reveal_with_fuel(exchange_sent, 4);
    let events = seq![ExchangeEventModel::Encoded(Ok(payload))] + rest;
    assert(events.drop_first() =~= rest);
    assert(rest.drop_first()[0] == rest[1]);
    lemma_nothing_sent_after(
        ExchangePhase::Flushing,
        ExchangeActionModel::Flush,
        rest.drop_first().drop_first(),
    );
    law_frame_is_written_in_two(payload);
    assert(Seq::<char>::empty() + (payload + (line_end() + Seq::<char>::empty())) =~= payload
        + line_end());
}

/// Whether an event is what comes of an action.
pub open spec fn exchange_brings(action: ExchangeActionModel, event: ExchangeEventModel) -> bool {
    match action {
        ExchangeActionModel::Encode(_) => event is Encoded,
        ExchangeActionModel::Write(_) => event is Written,
        ExchangeActionModel::Flush => event is Flushed,
        ExchangeActionModel::ReadLine => event is LineRead,
        ExchangeActionModel::Decode(_) => event is Decoded,
        ExchangeActionModel::Finish(_) => false,
    }
}

/// An exchange waits for what its last action brings, from its start to its end.
pub proof fn law_exchange_awaits_its_action(
    request: RequestModel,
    phase: ExchangePhase,
    event: ExchangeEventModel,
    next: ExchangeEventModel,
)
    ensures
        exchange_brings(ExchangeActionModel::Encode(request), next) ==> exchange_awaits(
            ExchangePhase::Encoding,
            next,
        ),
        exchange_brings(exchange_next(phase, event).1, next) ==> exchange_awaits(
            exchange_next(phase, event).0,
            next,
        ),
{
}

/// The actions of an exchange on these events, in order.
pub open spec fn exchange_actions(
    phase: ExchangePhase,
    action: ExchangeActionModel,
    events: Seq<ExchangeEventModel>,
) -> Seq<ExchangeActionModel>
    decreases events.len(),
{
    seq![action] + if action is Finish || events.len() == 0 || !exchange_awaits(
        phase,
        events[0],
    ) {
        Seq::empty()
    } else {
        let (next, then_do) = exchange_next(phase, events[0]);
        exchange_actions(next, then_do, events.drop_first())
    }
}

/// The steps of an exchange: the request is encoded, written, ended with a line
/// feed and flushed, then a line is read and decoded without the white space at its
/// end. It stops at the first of these that fails.
pub proof fn law_steps_of_an_exchange(
    request: RequestModel,
    encoded: Result<Seq<char>, Seq<char>>,
    written: Result<(), Seq<char>>,
    ended: Result<(), Seq<char>>,
    flushed: Result<(), Seq<char>>,
    line: Result<(usize, Seq<char>), Seq<char>>,
    decoded: Result<ResponseModel, Seq<char>>,
)
    ensures
        ({
            let steps = exchange_actions(
                ExchangePhase::Encoding,
                ExchangeActionModel::Encode(request),
                seq![
                    ExchangeEventModel::Encoded(encoded),
                    ExchangeEventModel::Written(written),
                    ExchangeEventModel::Written(ended),
                    ExchangeEventModel::Flushed(flushed),
                    ExchangeEventModel::LineRead(line),
                    ExchangeEventModel::Decoded(decoded),
                ],
            );
            let full = seq![
                ExchangeActionModel::Encode(request),
                ExchangeActionModel::Write(encoded->Ok_0),
                ExchangeActionModel::Write(seq!['\n']),
                ExchangeActionModel::Flush,
                ExchangeActionModel::ReadLine,
                ExchangeActionModel::Decode(trimmed_end(line->Ok_0.1)),
            ];
            let done = if encoded is Err {
                1int
            } else if written is Err {
                2
            } else if ended is Err {
                3
            } else if flushed is Err {
                4
            } else if line is Err || line->Ok_0.0 == 0 {
                5
            } else {
                6
            };
            &&& steps.len() == done + 1
            &&& steps.drop_last() == full.take(done)
            &&& steps.last() is Finish
        }),
{
    reveal_with_fuel(exchange_actions, 8);
    let e1 = ExchangeEventModel::Encoded(encoded);
    let e2 = ExchangeEventModel::Written(written);
    let e3 = ExchangeEventModel::Written(ended);
    let e4 = ExchangeEventModel::Flushed(flushed);
    let e5 = ExchangeEventModel::LineRead(line);
    let e6 = ExchangeEventModel::Decoded(decoded);
    assert(seq![e1, e2, e3, e4, e5, e6].drop_first() =~= seq![e2, e3, e4, e5, e6]);
    assert(seq![e2, e3, e4, e5, e6].drop_first() =~= seq![e3, e4, e5, e6]);
    assert(seq![e3, e4, e5, e6].drop_first() =~= seq![e4, e5, e6]);
    assert(seq![e4, e5, e6].drop_first() =~= seq![e5, e6]);
    assert(seq![e5, e6].drop_first() =~= seq![e6]);
}

/// Who asks gets the answer, unless it is an error: then the failure is what the
/// helper says.
pub proof fn law_answers(response: ResponseModel)
    ensures
        answer_of(response) == match response {
            ResponseModel::Error { message } => Err(message),
            ResponseModel::Pong => Ok(ResponseModel::Pong),
            ResponseModel::Done => Ok(ResponseModel::Done),
            ResponseModel::Configs { paths } => Ok(ResponseModel::Configs { paths }),
        },
{
}

/// What an exchange returns to be written is the encoded request and then a line
/// feed, and it ends with the answer that was decoded, or with what the helper says
/// went wrong.
pub proof fn law_exchange_step_returned(
    exchange: &mut Exchange,
    event: ExchangeEvent,
    res: ExchangeAction,
)
    requires
        exchange_awaits(old(exchange).phase, event@),
        call_ensures(Exchange::step, (exchange, event), res),
    ensures
        event matches ExchangeEvent::Encoded(Ok(payload)) ==> (res matches ExchangeAction::Write(t)
            && t@ == payload@ && final(exchange).phase == ExchangePhase::Writing),
        event matches ExchangeEvent::Written(Ok(_)) ==> if old(exchange).phase
            == ExchangePhase::Writing {
            res matches ExchangeAction::Write(t) && t@ == seq!['\n'] && final(exchange).phase
                == ExchangePhase::EndingLine
        } else {
            res is Flush && final(exchange).phase == ExchangePhase::Flushing
        },
        event matches ExchangeEvent::Decoded(Ok(response)) ==> (res matches ExchangeAction::Finish(
            r,
        ) && match response {
            HelperResponse::Error { message } => r matches Err(e) && e@ == message@,
            _ => r matches Ok(answer) && answer@ == response@,
        }),
{
}

/// What `request` returns: the request is to be encoded, as it is.
pub proof fn law_request_returned(request: HelperRequest, res: (Exchange, ExchangeAction))
    requires
        call_ensures(Exchange::request, (request,), res),
    ensures
        res.0.phase == ExchangePhase::Encoding,
        res.1 matches ExchangeAction::Encode(r) && r@ == request@,
{
}

} // verus!
