//! The privileged helper's main loop, and how it writes an answer.

use crate::exchange::{answer_of, exchange_next, exchange_sent, law_exchange_sends_one_message};
use crate::exchange::{ExchangeActionModel, ExchangeEventModel, ExchangePhase};
use crate::protocol::{framed, line_end, line_feed, text_result, unframe, unit_result};
use crate::protocol::{law_frame_is_one_line, law_frame_is_written_in_two, law_frame_round_trip};
use crate::protocol::{HelperRequest, HelperResponse, RequestModel, ResponseModel};
use crate::text::{is_white_space, trimmed_end};
use vstd::pervasive::unreached;
use vstd::prelude::*;

verus! {

/// Why writing to a pipe failed.
#[derive(Debug)]
pub struct PipeFailure {
    /// Nobody reads the pipe any more.
    pub broken: bool,
    pub reason: String,
}

/// What a `PipeFailure` holds.
pub struct PipeFailureModel {
    pub broken: bool,
    pub reason: Seq<char>,
}

impl View for PipeFailure {
    type V = PipeFailureModel;

    open spec fn view(&self) -> PipeFailureModel {
        PipeFailureModel { broken: self.broken, reason: self.reason@ }
    }
}

/// The failure of a write, if it failed.
pub open spec fn pipe_result(r: Result<(), PipeFailure>) -> Result<(), PipeFailureModel> {
    match r {
        Ok(_) => Ok(()),
        Err(f) => Err(f@),
    }
}

/// Whether an answer was delivered, or why not.
pub open spec fn delivery(r: Result<bool, String>) -> Result<bool, Seq<char>> {
    match r {
        Ok(b) => Ok(b),
        Err(e) => Err(e@),
    }
}

/// What the writing of an answer waits for.
#[derive(Debug, Clone, Copy, PartialEq, Eq, Structural)]
pub enum ReplyPhase {
    Encoding,
    /// The answer is written.
    Writing,
    /// The line feed behind it is written.
    EndingLine,
    Flushing,
    Finished,
}

/// What came of an action.
pub enum ReplyEvent {
    /// The answer was encoded.
    Encoded(Result<String, String>),
    /// The text was written.
    Written(Result<(), PipeFailure>),
    /// The pipe was flushed.
    Flushed(Result<(), PipeFailure>),
}

/// What a `ReplyEvent` holds.
pub enum ReplyEventModel {
    Encoded(Result<Seq<char>, Seq<char>>),
    Written(Result<(), PipeFailureModel>),
    Flushed(Result<(), PipeFailureModel>),
}

impl View for ReplyEvent {
    type V = ReplyEventModel;

    open spec fn view(&self) -> ReplyEventModel {
        match *self {
            ReplyEvent::Encoded(r) => ReplyEventModel::Encoded(text_result(r)),
            ReplyEvent::Written(r) => ReplyEventModel::Written(pipe_result(r)),
            ReplyEvent::Flushed(r) => ReplyEventModel::Flushed(pipe_result(r)),
        }
    }
}

/// What is to be done next.
pub enum ReplyAction {
    /// Encode this answer.
    Encode(HelperResponse),
    /// Write this.
    Write(String),
    /// Flush the pipe.
    Flush,
    /// It is over: the answer was delivered, or nobody reads it, or it failed.
    Finish(Result<bool, String>),
}

/// What a `ReplyAction` holds.
#[verifier::ext_equal]
pub enum ReplyActionModel {
    Encode(ResponseModel),
    Write(Seq<char>),
    Flush,
    Finish(Result<bool, Seq<char>>),
}

impl View for ReplyAction {
    type V = ReplyActionModel;

    open spec fn view(&self) -> ReplyActionModel {
        match *self {
            ReplyAction::Encode(response) => ReplyActionModel::Encode(response@),
            ReplyAction::Write(t) => ReplyActionModel::Write(t@),
            ReplyAction::Flush => ReplyActionModel::Flush,
            ReplyAction::Finish(r) => ReplyActionModel::Finish(delivery(r)),
        }
    }
}

/// Whether the writing of an answer waits for an event of this kind.
pub open spec fn reply_awaits(phase: ReplyPhase, event: ReplyEventModel) -> bool {
    match event {
        ReplyEventModel::Encoded(_) => phase == ReplyPhase::Encoding,
        ReplyEventModel::Written(_) => phase == ReplyPhase::Writing || phase
            == ReplyPhase::EndingLine,
        ReplyEventModel::Flushed(_) => phase == ReplyPhase::Flushing,
    }
}

/// How a pipe failure counts: a reader that is gone is no error.
pub open spec fn pipe_verdict(prefix: Seq<char>, failure: PipeFailureModel) -> Result<
    bool,
    Seq<char>,
> {
    if failure.broken {
        Ok(false)
    } else {
        Err(prefix + failure.reason)
    }
}

/// The phase and the action after an event.
pub open spec fn reply_next(phase: ReplyPhase, event: ReplyEventModel) -> (
    ReplyPhase,
    ReplyActionModel,
) {
    match event {
        ReplyEventModel::Encoded(Ok(payload)) => (
            ReplyPhase::Writing,
            ReplyActionModel::Write(payload),
        ),
        ReplyEventModel::Encoded(Err(e)) => (
            ReplyPhase::Finished,
            ReplyActionModel::Finish(Err("Helper encode error: "@ + e)),
        ),
        ReplyEventModel::Written(Ok(_)) => if phase == ReplyPhase::Writing {
            (ReplyPhase::EndingLine, ReplyActionModel::Write(line_end()))
        } else {
            (ReplyPhase::Flushing, ReplyActionModel::Flush)
        },
        ReplyEventModel::Written(Err(f)) => (
            ReplyPhase::Finished,
            ReplyActionModel::Finish(pipe_verdict("Helper write error: "@, f)),
        ),
        ReplyEventModel::Flushed(Ok(_)) => (
            ReplyPhase::Finished,
            ReplyActionModel::Finish(Ok(true)),
        ),
        ReplyEventModel::Flushed(Err(f)) => (
            ReplyPhase::Finished,
            ReplyActionModel::Finish(pipe_verdict("Helper flush error: "@, f)),
        ),
    }
}

/// Judges a pipe failure.
fn judge_pipe(prefix: &str, failure: PipeFailure) -> (res: Result<bool, String>)
    ensures
        delivery(res) == pipe_verdict(prefix@, failure@),
{
    if failure.broken {
        Ok(false)
    } else {
        Err(prefix.to_owned().concat(&failure.reason))
    }
}

/// An answer that is being written.
pub struct Reply {
    pub phase: ReplyPhase,
}

/// Begins to write an answer with encoding it.
pub fn write_helper_response(response: HelperResponse) -> (res: (Reply, ReplyAction))
    ensures
        res.0.phase == ReplyPhase::Encoding,
        res.1@ == ReplyActionModel::Encode(response@),
{
    (Reply { phase: ReplyPhase::Encoding }, ReplyAction::Encode(response))
}

impl Reply {
    /// Goes on after an event.
    pub fn step(&mut self, event: ReplyEvent) -> (res: ReplyAction)
        requires
            reply_awaits(old(self).phase, event@),
        ensures
            (final(self).phase, res@) == reply_next(old(self).phase, event@),
    {
        match event {
            ReplyEvent::Encoded(Ok(payload)) => {
                self.phase = ReplyPhase::Writing;
                ReplyAction::Write(payload)
            },
            ReplyEvent::Encoded(Err(e)) => {
                self.phase = ReplyPhase::Finished;
                ReplyAction::Finish(Err("Helper encode error: ".to_owned().concat(&e)))
            },
            ReplyEvent::Written(Ok(_)) => {
                if self.phase == ReplyPhase::Writing {
                    self.phase = ReplyPhase::EndingLine;
                    ReplyAction::Write(line_feed())
                } else {
                    self.phase = ReplyPhase::Flushing;
                    ReplyAction::Flush
                }
            },
            ReplyEvent::Written(Err(f)) => {
                self.phase = ReplyPhase::Finished;
                ReplyAction::Finish(judge_pipe("Helper write error: ", f))
            },
            ReplyEvent::Flushed(Ok(_)) => {
                self.phase = ReplyPhase::Finished;
                ReplyAction::Finish(Ok(true))
            },
            ReplyEvent::Flushed(Err(f)) => {
                self.phase = ReplyPhase::Finished;
                ReplyAction::Finish(judge_pipe("Helper flush error: ", f))
            },
        }
    }
}

/// What the writing of an answer ends with on these events, if they suffice.
pub open spec fn reply_run(phase: ReplyPhase, events: Seq<ReplyEventModel>) -> Option<
    Result<bool, Seq<char>>,
>
    decreases events.len(),
{
    if events.len() == 0 || !reply_awaits(phase, events[0]) {
        None
    } else {
        let (next, action) = reply_next(phase, events[0]);
        match action {
            ReplyActionModel::Finish(r) => Some(r),
            _ => reply_run(next, events.drop_first()),
        }
    }
}

/// An answer counts as delivered iff it was encoded, it and a line feed were
/// written and the pipe was flushed. A pipe that nobody reads is not an error, any
/// other failure is.
pub proof fn law_reply_outcome(
    encoded: Result<Seq<char>, Seq<char>>,
    written: Result<(), PipeFailureModel>,
    ended: Result<(), PipeFailureModel>,
    flushed: Result<(), PipeFailureModel>,
)
    ensures
        reply_run(
            ReplyPhase::Encoding,
            seq![
                ReplyEventModel::Encoded(encoded),
                ReplyEventModel::Written(written),
                ReplyEventModel::Written(ended),
                ReplyEventModel::Flushed(flushed),
            ],
        ) == Some(
            match (encoded, written, ended, flushed) {
                (Err(e), _, _, _) => Err("Helper encode error: "@ + e),
                (_, Err(f), _, _) => pipe_verdict("Helper write error: "@, f),
                (_, _, Err(f), _) => pipe_verdict("Helper write error: "@, f),
                (_, _, _, Err(f)) => pipe_verdict("Helper flush error: "@, f),
                _ => Ok(true),
            },
        ),
{
    reveal_with_fuel(reply_run, 5);
    let e1 = ReplyEventModel::Encoded(encoded);
    let e2 = ReplyEventModel::Written(written);
    let e3 = ReplyEventModel::Written(ended);
    let e4 = ReplyEventModel::Flushed(flushed);
    assert(seq![e1, e2, e3, e4].drop_first() =~= seq![e2, e3, e4]);
    assert(seq![e2, e3, e4].drop_first() =~= seq![e3, e4]);
    assert(seq![e3, e4].drop_first() =~= seq![e4]);
}

/// What the writing of an answer has written on these events: the texts of the
/// writes that succeeded, one behind the other.
pub open spec fn reply_sent(
    phase: ReplyPhase,
    action: ReplyActionModel,
    events: Seq<ReplyEventModel>,
) -> Seq<char>
    decreases events.len(),
{
    if events.len() == 0 || !reply_awaits(phase, events[0]) {
        Seq::empty()
    } else {
        let (next, then_do) = reply_next(phase, events[0]);
        let sent = match (action, events[0]) {
            (ReplyActionModel::Write(t), ReplyEventModel::Written(Ok(_))) => t,
            _ => Seq::empty(),
        };
        sent + reply_sent(next, then_do, events.drop_first())
    }
}

/// An answer counts as delivered only after the encoded answer and a line feed
/// behind it were written, and nothing else: one message.
pub proof fn law_reply_sends_one_message(response: ResponseModel, events: Seq<ReplyEventModel>)
    requires
        reply_run(ReplyPhase::Encoding, events) == Some(Ok::<bool, Seq<char>>(true)),
    ensures
        events[0] matches ReplyEventModel::Encoded(Ok(payload)) && reply_sent(
            ReplyPhase::Encoding,
            ReplyActionModel::Encode(response),
            events,
        ) == framed(payload),
{
    reveal_with_fuel(reply_run, 5);
    reveal_with_fuel(reply_sent, 6);
    let payload = events[0]->Encoded_0->Ok_0;
    let none = Seq::<char>::empty();
    law_frame_is_written_in_two(payload);
    assert(none + (payload + (line_end() + (none + none))) =~= payload + line_end());
}

/// What the helper's loop waits for. `quit` tells that the answer is to be its
/// last.
#[derive(Debug, Clone, Copy, PartialEq, Eq, Structural)]
pub enum ServerPhase {
    Reading,
    Decoding,
    Handling { quit: bool },
    Replying { quit: bool },
    Stopped,
}

/// What came of an action.
pub enum ServerEvent {
    /// That many bytes were read, and they are this line.
    LineRead(Result<(usize, String), String>),
    /// The request was decoded.
    Decoded(Result<HelperRequest, String>),
    /// The request was handled.
    Handled(HelperResponse),
    /// The answer was written: whether it was delivered.
    Replied(Result<bool, String>),
}

/// What a `ServerEvent` holds.
pub enum ServerEventModel {
    LineRead(Result<(usize, Seq<char>), Seq<char>>),
    Decoded(Result<RequestModel, Seq<char>>),
    Handled(ResponseModel),
    Replied(Result<bool, Seq<char>>),
}

impl View for ServerEvent {
    type V = ServerEventModel;

    open spec fn view(&self) -> ServerEventModel {
        match *self {
            ServerEvent::LineRead(r) => ServerEventModel::LineRead(
                match r {
                    Ok((n, line)) => Ok((n, line@)),
                    Err(e) => Err(e@),
                },
            ),
            ServerEvent::Decoded(r) => ServerEventModel::Decoded(
                match r {
                    Ok(request) => Ok(request@),
                    Err(e) => Err(e@),
                },
            ),
            ServerEvent::Handled(response) => ServerEventModel::Handled(response@),
            ServerEvent::Replied(r) => ServerEventModel::Replied(delivery(r)),
        }
    }
}

/// What is to be done next.
pub enum ServerAction {
    /// Read a line.
    ReadLine,
    /// Decode this.
    Decode(String),
    /// Handle this request.
    Handle(HelperRequest),
    /// Write this answer.
    Reply(HelperResponse),
    /// Stop.
    Stop(Result<(), String>),
}

/// What a `ServerAction` holds.
#[verifier::ext_equal]
pub enum ServerActionModel {
    ReadLine,
    Decode(Seq<char>),
    Handle(RequestModel),
    Reply(ResponseModel),
    Stop(Result<(), Seq<char>>),
}

impl View for ServerAction {
    type V = ServerActionModel;

    open spec fn view(&self) -> ServerActionModel {
        match *self {
            ServerAction::ReadLine => ServerActionModel::ReadLine,
            ServerAction::Decode(t) => ServerActionModel::Decode(t@),
            ServerAction::Handle(request) => ServerActionModel::Handle(request@),
            ServerAction::Reply(response) => ServerActionModel::Reply(response@),
            ServerAction::Stop(r) => ServerActionModel::Stop(unit_result(r)),
        }
    }
}

/// Whether the loop waits for an event of this kind.
pub open spec fn server_awaits(phase: ServerPhase, event: ServerEventModel) -> bool {
    match event {
        ServerEventModel::LineRead(_) => phase == ServerPhase::Reading,
        ServerEventModel::Decoded(_) => phase == ServerPhase::Decoding,
        ServerEventModel::Handled(_) => phase is Handling,
        ServerEventModel::Replied(_) => phase is Replying,
    }
}

/// The phase and the action after an event.
pub open spec fn server_next(phase: ServerPhase, event: ServerEventModel) -> (
    ServerPhase,
    ServerActionModel,
) {
    match event {
        ServerEventModel::LineRead(Ok((count, line))) => if count == 0 {
            (ServerPhase::Stopped, ServerActionModel::Stop(Ok(())))
        } else {
            (ServerPhase::Decoding, ServerActionModel::Decode(trimmed_end(line)))
        },
        ServerEventModel::LineRead(Err(e)) => (
            ServerPhase::Stopped,
            ServerActionModel::Stop(Err("Helper read error: "@ + e)),
        ),
        ServerEventModel::Decoded(Ok(request)) => (
            ServerPhase::Handling { quit: request is Quit },
            ServerActionModel::Handle(request),
        ),
        ServerEventModel::Decoded(Err(e)) => (
            ServerPhase::Replying { quit: false },
            ServerActionModel::Reply(
                ResponseModel::Error { message: "Invalid helper request: "@ + e },
            ),
        ),
        ServerEventModel::Handled(response) => (
            ServerPhase::Replying { quit: phase->Handling_quit },
            ServerActionModel::Reply(response),
        ),
        ServerEventModel::Replied(Ok(delivered)) => if delivered && !phase->Replying_quit {
            (ServerPhase::Reading, ServerActionModel::ReadLine)
        } else {
            (ServerPhase::Stopped, ServerActionModel::Stop(Ok(())))
        },
        ServerEventModel::Replied(Err(e)) => (
            ServerPhase::Stopped,
            ServerActionModel::Stop(Err(e)),
        ),
    }
}

/// The helper's loop.
pub struct Server {
    pub phase: ServerPhase,
}

/// Begins the loop with reading a line.
pub fn run_helper_server() -> (res: (Server, ServerAction))
    ensures
        res.0.phase == ServerPhase::Reading,
        res.1@ == ServerActionModel::ReadLine,
{
    (Server { phase: ServerPhase::Reading }, ServerAction::ReadLine)
}

impl Server {
    /// Goes on after an event.
    pub fn step(&mut self, event: ServerEvent) -> (res: ServerAction)
        requires
            server_awaits(old(self).phase, event@),
        ensures
            (final(self).phase, res@) == server_next(old(self).phase, event@),
    {
        match event {
            ServerEvent::LineRead(Ok((count, line))) => {
                if count == 0 {
                    self.phase = ServerPhase::Stopped;
                    ServerAction::Stop(Ok(()))
                } else {
                    self.phase = ServerPhase::Decoding;
                    ServerAction::Decode(unframe(&line))
                }
            },
            ServerEvent::LineRead(Err(e)) => {
                self.phase = ServerPhase::Stopped;
                ServerAction::Stop(Err("Helper read error: ".to_owned().concat(&e)))
            },
            ServerEvent::Decoded(Ok(request)) => {
                let quit = match request {
                    HelperRequest::Quit => true,
                    _ => false,
                };
                self.phase = ServerPhase::Handling { quit };
                ServerAction::Handle(request)
            },
            ServerEvent::Decoded(Err(e)) => {
                self.phase = ServerPhase::Replying { quit: false };
                let message = "Invalid helper request: ".to_owned().concat(&e);
                ServerAction::Reply(HelperResponse::Error { message })
            },
            ServerEvent::Handled(response) => {
                match self.phase {
                    ServerPhase::Handling { quit } => {
                        self.phase = ServerPhase::Replying { quit };
                        ServerAction::Reply(response)
                    },
                    _ => unreached(),
                }
            },
            ServerEvent::Replied(Ok(delivered)) => {
                match self.phase {
                    ServerPhase::Replying { quit } => {
                        if delivered && !quit {
                            self.phase = ServerPhase::Reading;
                            ServerAction::ReadLine
                        } else {
                            self.phase = ServerPhase::Stopped;
                            ServerAction::Stop(Ok(()))
                        }
                    },
                    _ => unreached(),
                }
            },
            ServerEvent::Replied(Err(e)) => {
                self.phase = ServerPhase::Stopped;
                ServerAction::Stop(Err(e))
            },
        }
    }
}

/// Where the loop is after a request was read, decoded, handled and answered.
pub open spec fn after_round(
    count: usize,
    line: Seq<char>,
    request: RequestModel,
    response: ResponseModel,
    replied: Result<bool, Seq<char>>,
) -> (ServerPhase, ServerActionModel) {
    let (p1, _) = server_next(ServerPhase::Reading, ServerEventModel::LineRead(Ok((count, line))));
    let (p2, _) = server_next(p1, ServerEventModel::Decoded(Ok(request)));
    let (p3, _) = server_next(p2, ServerEventModel::Handled(response));
    server_next(p3, ServerEventModel::Replied(replied))
}

/// The helper serves on after every request but the one to quit, as long as its
/// answers are delivered.
pub proof fn law_helper_serves_until_quit(
    count: usize,
    line: Seq<char>,
    request: RequestModel,
    response: ResponseModel,
    replied: Result<bool, Seq<char>>,
)
    requires
        count > 0,
    ensures
        after_round(count, line, request, response, replied) == match replied {
            Ok(true) => if request is Quit {
                (ServerPhase::Stopped, ServerActionModel::Stop(Ok(())))
            } else {
                (ServerPhase::Reading, ServerActionModel::ReadLine)
            },
            Ok(false) => (ServerPhase::Stopped, ServerActionModel::Stop(Ok(()))),
            Err(e) => (ServerPhase::Stopped, ServerActionModel::Stop(Err(e))),
        },
{
}

/// A line that is no request is answered with an error, and the helper serves
/// on once the answer is delivered.
pub proof fn law_helper_survives_bad_requests(e: Seq<char>)
    ensures
        ({
            let (p, action) = server_next(
                ServerPhase::Decoding,
                ServerEventModel::Decoded(Err(e)),
            );
            &&& action == ServerActionModel::Reply(
                ResponseModel::Error { message: "Invalid helper request: "@ + e },
            )
            &&& server_next(p, ServerEventModel::Replied(Ok(true))) == (
                ServerPhase::Reading,
                ServerActionModel::ReadLine,
            )
        }),
{
}

/// A line that the helper reads, and what comes of it.
pub struct Round {
    /// How many bytes the line has.
    pub count: usize,
    pub line: Seq<char>,
    /// The request in the line, or why there is none.
    pub decoded: Result<RequestModel, Seq<char>>,
    /// How the request is handled, where there is one.
    pub response: ResponseModel,
    /// Whether the answer is delivered.
    pub replied: Result<bool, Seq<char>>,
}

impl Round {
    /// What happens in the round.
    pub open spec fn events(self) -> Seq<ServerEventModel> {
        let read = ServerEventModel::LineRead(Ok((self.count, self.line)));
        let decoded = ServerEventModel::Decoded(self.decoded);
        let replied = ServerEventModel::Replied(self.replied);
        match self.decoded {
            Ok(_) => seq![read, decoded, ServerEventModel::Handled(self.response), replied],
            Err(_) => seq![read, decoded, replied],
        }
    }

    /// What the helper answers.
    pub open spec fn answer(self) -> ResponseModel {
        match self.decoded {
            Ok(_) => self.response,
            Err(e) => ResponseModel::Error { message: "Invalid helper request: "@ + e },
        }
    }

    /// Whether the round is the last: it was asked to quit, or its answer was
    /// not delivered.
    pub open spec fn is_last(self) -> bool {
        self.decoded == Ok::<RequestModel, Seq<char>>(RequestModel::Quit) || self.replied != Ok::<
            bool,
            Seq<char>,
        >(true)
    }
}

/// What happens on these lines, and then at the end of the input.
pub open spec fn input_events(rounds: Seq<Round>) -> Seq<ServerEventModel>
    decreases rounds.len(),
{
    if rounds.len() == 0 {
        seq![ServerEventModel::LineRead(Ok((0, Seq::empty())))]
    } else {
        rounds[0].events() + input_events(rounds.drop_first())
    }
}

/// How many of the lines are answered: those up to the last round.
pub open spec fn lines_served(rounds: Seq<Round>) -> nat
    decreases rounds.len(),
{
    if rounds.len() == 0 {
        0
    } else if rounds[0].is_last() {
        1
    } else {
        1 + lines_served(rounds.drop_first())
    }
}

/// What the loop answers on these events, in order, and what it ends with, if
/// they suffice.
pub open spec fn server_run(
    phase: ServerPhase,
    action: ServerActionModel,
    events: Seq<ServerEventModel>,
) -> (Seq<ResponseModel>, Option<Result<(), Seq<char>>>)
    decreases events.len(),
{
    let said = match action {
        ServerActionModel::Reply(response) => seq![response],
        _ => Seq::empty(),
    };
    if let ServerActionModel::Stop(r) = action {
        (said, Some(r))
    } else if events.len() == 0 || !server_awaits(phase, events[0]) {
        (said, None)
    } else {
        let (next, then_do) = server_next(phase, events[0]);
        let (answers, end) = server_run(next, then_do, events.drop_first());
        (said + answers, end)
    }
}

/// The loop over one line.
proof fn lemma_round(round: Round, rest: Seq<ServerEventModel>)
    requires
        round.count > 0,
    ensures
        ({
            let run = server_run(
                ServerPhase::Reading,
                ServerActionModel::ReadLine,
                round.events() + rest,
            );
            let on = server_run(ServerPhase::Reading, ServerActionModel::ReadLine, rest);
            if round.is_last() {
                &&& run.0 == seq![round.answer()]
                &&& run.1 matches Some(end) && match round.replied {
                    Ok(_) => end is Ok,
                    Err(e) => end == Err::<(), Seq<char>>(e),
                }
            } else {
                run.0 == seq![round.answer()] + on.0 && run.1 == on.1
            }
        }),
{
    reveal_with_fuel(server_run, 5);
    let read = ServerEventModel::LineRead(Ok((round.count, round.line)));
    let decoded = ServerEventModel::Decoded(round.decoded);
    let handled = ServerEventModel::Handled(round.response);
    let replied = ServerEventModel::Replied(round.replied);
    let all = round.events() + rest;
    assert((seq![replied] + rest).drop_first() =~= rest);
    if round.decoded is Ok {
        assert(all.drop_first() =~= seq![decoded, handled, replied] + rest);
        assert((seq![decoded, handled, replied] + rest).drop_first() =~= seq![handled, replied]
            + rest);
        assert((seq![handled, replied] + rest).drop_first() =~= seq![replied] + rest);
    } else {
        assert(all.drop_first() =~= seq![decoded, replied] + rest);
        assert((seq![decoded, replied] + rest).drop_first() =~= seq![replied] + rest);
    }
}

/// The helper answers each line that it reads with one answer, in order, up to
/// and including the one to quit or one whose answer is not delivered. Then it
/// stops, without an error unless that delivery failed with one. It stops without
/// an error, too, where the input ends.
pub proof fn law_helper_answers_every_line(rounds: Seq<Round>)
    requires
        forall|i: int| #![trigger rounds[i]] 0 <= i < rounds.len() ==> rounds[i].count > 0,
    ensures
        ({
            let (answers, end) = server_run(
                ServerPhase::Reading,
                ServerActionModel::ReadLine,
                input_events(rounds),
            );
            let n = lines_served(rounds);
            &&& n <= rounds.len()
            &&& answers == rounds.take(n as int).map_values(|r: Round| r.answer())
            &&& forall|i: int| #![trigger rounds[i]] 0 <= i < n - 1 ==> !rounds[i].is_last()
            &&& n < rounds.len() ==> n > 0 && rounds[n - 1].is_last()
            &&& end matches Some(r) && match r {
                Ok(_) => n > 0 ==> rounds[n - 1].replied is Ok,
                Err(e) => n > 0 && rounds[n - 1].replied == Err::<bool, Seq<char>>(e),
            }
        }),
    decreases rounds.len(),
{
    let n = lines_served(rounds);
    let answer = |r: Round| r.answer();
    reveal_with_fuel(server_run, 2);
    if rounds.len() == 0 {
        assert(rounds.take(0).map_values(answer) =~= Seq::<ResponseModel>::empty());
    } else {
        let rest = rounds.drop_first();
        lemma_round(rounds[0], input_events(rest));
        if rounds[0].is_last() {
            assert(rounds.take(1).map_values(answer) =~= seq![rounds[0].answer()]);
        } else {
            assert forall|i: int| #![trigger rest[i]] 0 <= i < rest.len() implies rest[i].count
                > 0 by {
                assert(rest[i] == rounds[i + 1]);
            }
            law_helper_answers_every_line(rest);
            let m = lines_served(rest);
            assert(rounds.take(n as int).map_values(answer) =~= seq![rounds[0].answer()]
                + rest.take(m as int).map_values(answer));
            assert forall|i: int| #![trigger rounds[i]] 0 <= i < n - 1 implies !rounds[i].is_last() by {
                if i > 0 {
                    assert(rounds[i] == rest[i - 1]);
                }
            }
            if m > 0 {
                assert(rest[m - 1] == rounds[n - 1]);
            }
        }
    }
}

/// The line that the front end writes is the line that the helper decodes: what
/// is framed on one side is unframed on the other.
pub proof fn law_request_reaches_the_helper(
    request: RequestModel,
    payload: Seq<char>,
    rest: Seq<ExchangeEventModel>,
    count: usize,
)
    requires
        count > 0,
        payload.len() > 0 ==> !is_white_space(payload.last()),
        rest.len() >= 2,
        rest[0] matches ExchangeEventModel::Written(r) && r is Ok,
        rest[1] matches ExchangeEventModel::Written(r) && r is Ok,
    ensures
        ({
            let line = exchange_sent(
                ExchangePhase::Encoding,
                ExchangeActionModel::Encode(request),
                seq![ExchangeEventModel::Encoded(Ok(payload))] + rest,
            );
            server_next(ServerPhase::Reading, ServerEventModel::LineRead(Ok((count, line)))) == (
                ServerPhase::Decoding,
                ServerActionModel::Decode(payload),
            )
        }),
{
    law_exchange_sends_one_message(request, payload, rest);
    law_frame_round_trip(payload);
}

/// The line that the helper writes is the line that the front end decodes.
pub proof fn law_answer_reaches_the_front_end(
    response: ResponseModel,
    payload: Seq<char>,
    rest: Seq<ReplyEventModel>,
    count: usize,
)
    requires
        count > 0,
        payload.len() > 0 ==> !is_white_space(payload.last()),
        reply_run(
            ReplyPhase::Encoding,
            seq![ReplyEventModel::Encoded(Ok(payload))] + rest,
        ) == Some(Ok::<bool, Seq<char>>(true)),
    ensures
        ({
            let line = reply_sent(
                ReplyPhase::Encoding,
                ReplyActionModel::Encode(response),
                seq![ReplyEventModel::Encoded(Ok(payload))] + rest,
            );
            exchange_next(
                ExchangePhase::Reading,
                ExchangeEventModel::LineRead(Ok((count, line))),
            ) == (ExchangePhase::Decoding, ExchangeActionModel::Decode(payload))
        }),
{
    let events = seq![ReplyEventModel::Encoded(Ok(payload))] + rest;
    assert(events[0] == ReplyEventModel::Encoded(Ok(payload)));
    law_reply_sends_one_message(response, events);
    law_frame_round_trip(payload);
}

/// An answer that was delivered is one line on the wire, and the front end gets
/// that answer out of the line, where decoding undoes encoding and an encoded
/// answer neither holds a line feed nor ends in white space.
pub proof fn law_answer_reads_back(
    encode: spec_fn(ResponseModel) -> Seq<char>,
    decode: spec_fn(Seq<char>) -> Result<ResponseModel, Seq<char>>,
    response: ResponseModel,
    rest: Seq<ReplyEventModel>,
    count: usize,
)
    requires
        count > 0,
        decode(encode(response)) == Ok::<ResponseModel, Seq<char>>(response),
        !encode(response).contains('\n'),
        encode(response).len() > 0 ==> !is_white_space(encode(response).last()),
        reply_run(
            ReplyPhase::Encoding,
            seq![ReplyEventModel::Encoded(Ok(encode(response)))] + rest,
        ) == Some(Ok::<bool, Seq<char>>(true)),
    ensures
        ({
            let line = reply_sent(
                ReplyPhase::Encoding,
                ReplyActionModel::Encode(response),
                seq![ReplyEventModel::Encoded(Ok(encode(response)))] + rest,
            );
            let (phase, got) = exchange_next(
                ExchangePhase::Reading,
                ExchangeEventModel::LineRead(Ok((count, line))),
            );
            &&& line.last() == '\n' && !line.drop_last().contains('\n')
            &&& decode(trimmed_end(line)) == Ok::<ResponseModel, Seq<char>>(response)
            &&& got == ExchangeActionModel::Decode(trimmed_end(line))
            &&& exchange_next(phase, ExchangeEventModel::Decoded(decode(trimmed_end(line)))).1
                == ExchangeActionModel::Finish(answer_of(response))
        }),
{
    let events = seq![ReplyEventModel::Encoded(Ok(encode(response)))] + rest;
    assert(events[0] == ReplyEventModel::Encoded(Ok(encode(response))));
    law_reply_sends_one_message(response, events);
    law_frame_round_trip(encode(response));
    law_frame_is_one_line(encode(response));
}

/// A request that was written is one line on the wire, and the helper handles
/// that request, where decoding undoes encoding and an encoded request neither
/// holds a line feed nor ends in white space.
pub proof fn law_request_reads_back(
    encode: spec_fn(RequestModel) -> Seq<char>,
    decode: spec_fn(Seq<char>) -> Result<RequestModel, Seq<char>>,
    request: RequestModel,
    rest: Seq<ExchangeEventModel>,
    count: usize,
)
    requires
        count > 0,
        decode(encode(request)) == Ok::<RequestModel, Seq<char>>(request),
        !encode(request).contains('\n'),
        encode(request).len() > 0 ==> !is_white_space(encode(request).last()),
        rest.len() >= 2,
        rest[0] matches ExchangeEventModel::Written(r) && r is Ok,
        rest[1] matches ExchangeEventModel::Written(r) && r is Ok,
    ensures
        ({
            let line = exchange_sent(
                ExchangePhase::Encoding,
                ExchangeActionModel::Encode(request),
                seq![ExchangeEventModel::Encoded(Ok(encode(request)))] + rest,
            );
            let (phase, got) = server_next(
                ServerPhase::Reading,
                ServerEventModel::LineRead(Ok((count, line))),
            );
            &&& line.last() == '\n' && !line.drop_last().contains('\n')
            &&& decode(trimmed_end(line)) == Ok::<RequestModel, Seq<char>>(request)
            &&& got == ServerActionModel::Decode(trimmed_end(line))
            &&& server_next(phase, ServerEventModel::Decoded(decode(trimmed_end(line)))).1
                == ServerActionModel::Handle(request)
        }),
{
    law_exchange_sends_one_message(request, encode(request), rest);
    law_frame_round_trip(encode(request));
    law_frame_is_one_line(encode(request));
}

/// Whether an event is what comes of an action.
pub open spec fn reply_brings(action: ReplyActionModel, event: ReplyEventModel) -> bool {
    match action {
        ReplyActionModel::Encode(_) => event is Encoded,
        ReplyActionModel::Write(_) => event is Written,
        ReplyActionModel::Flush => event is Flushed,
        ReplyActionModel::Finish(_) => false,
    }
}

/// The writing of an answer waits for what its last action brings, from its
/// start to its end.
pub proof fn law_reply_awaits_its_action(
    response: ResponseModel,
    phase: ReplyPhase,
    event: ReplyEventModel,
    next: ReplyEventModel,
)
    ensures
        reply_brings(ReplyActionModel::Encode(response), next) ==> reply_awaits(
            ReplyPhase::Encoding,
            next,
        ),
        reply_brings(reply_next(phase, event).1, next) ==> reply_awaits(
            reply_next(phase, event).0,
            next,
        ),
{
}

/// Whether an event is what comes of an action.
pub open spec fn server_brings(action: ServerActionModel, event: ServerEventModel) -> bool {
    match action {
        ServerActionModel::ReadLine => event is LineRead,
        ServerActionModel::Decode(_) => event is Decoded,
        ServerActionModel::Handle(_) => event is Handled,
        ServerActionModel::Reply(_) => event is Replied,
        ServerActionModel::Stop(_) => false,
    }
}

/// The helper's loop waits for what its last action brings, from its start to
/// its end.
pub proof fn law_server_awaits_its_action(
    phase: ServerPhase,
    event: ServerEventModel,
    next: ServerEventModel,
)
    ensures
        server_brings(ServerActionModel::ReadLine, next) ==> server_awaits(
            ServerPhase::Reading,
            next,
        ),
        server_brings(server_next(phase, event).1, next) ==> server_awaits(
            server_next(phase, event).0,
            next,
        ),
{
}

/// The actions of writing an answer on these events, in order.
pub open spec fn reply_actions(
    phase: ReplyPhase,
    action: ReplyActionModel,
    events: Seq<ReplyEventModel>,
) -> Seq<ReplyActionModel>
    decreases events.len(),
{
    seq![action] + if action is Finish || events.len() == 0 || !reply_awaits(phase, events[0]) {
        Seq::empty()
    } else {
        let (next, then_do) = reply_next(phase, events[0]);
        reply_actions(next, then_do, events.drop_first())
    }
}

/// The steps of writing an answer: it is encoded, written, ended with a line feed
/// and flushed, up to the first of these that fails. Where a write or the flush
/// fails because nobody reads any more, the answer counts as not delivered. Any
/// other failure is an error.
pub proof fn law_steps_of_a_reply(
    response: ResponseModel,
    encoded: Result<Seq<char>, Seq<char>>,
    written: Result<(), PipeFailureModel>,
    ended: Result<(), PipeFailureModel>,
    flushed: Result<(), PipeFailureModel>,
)
    ensures
        ({
            let steps = reply_actions(
                ReplyPhase::Encoding,
                ReplyActionModel::Encode(response),
                seq![
                    ReplyEventModel::Encoded(encoded),
                    ReplyEventModel::Written(written),
                    ReplyEventModel::Written(ended),
                    ReplyEventModel::Flushed(flushed),
                ],
            );
            let encode = ReplyActionModel::Encode(response);
            let write = ReplyActionModel::Write(encoded->Ok_0);
            let end = ReplyActionModel::Write(seq!['\n']);
            let undelivered = ReplyActionModel::Finish(Ok(false));
            match (encoded, written, ended, flushed) {
                (Err(e), _, _, _) => steps == seq![
                    encode,
                    ReplyActionModel::Finish(Err("Helper encode error: "@ + e)),
                ],
                (_, Err(f), _, _) => steps == seq![
                    encode,
                    write,
                    if f.broken {
                        undelivered
                    } else {
                        ReplyActionModel::Finish(Err("Helper write error: "@ + f.reason))
                    },
                ],
                (_, _, Err(f), _) => steps == seq![
                    encode,
                    write,
                    end,
                    if f.broken {
                        undelivered
                    } else {
                        ReplyActionModel::Finish(Err("Helper write error: "@ + f.reason))
                    },
                ],
                (_, _, _, Err(f)) => steps == seq![
                    encode,
                    write,
                    end,
                    ReplyActionModel::Flush,
                    if f.broken {
                        undelivered
                    } else {
                        ReplyActionModel::Finish(Err("Helper flush error: "@ + f.reason))
                    },
                ],
                _ => steps == seq![
                    encode,
                    write,
                    end,
                    ReplyActionModel::Flush,
                    ReplyActionModel::Finish(Ok(true)),
                ],
            }
        }),
{
    reveal_with_fuel(reply_actions, 6);
    let e1 = ReplyEventModel::Encoded(encoded);
    let e2 = ReplyEventModel::Written(written);
    let e3 = ReplyEventModel::Written(ended);
    let e4 = ReplyEventModel::Flushed(flushed);
    assert(seq![e1, e2, e3, e4].drop_first() =~= seq![e2, e3, e4]);
    assert(seq![e2, e3, e4].drop_first() =~= seq![e3, e4]);
    assert(seq![e3, e4].drop_first() =~= seq![e4]);
}

/// The steps of a round of the helper's loop: what was read is decoded without the
/// white space at its end, the request in it is handled and the answer written. A
/// line that is no request is answered with why not. The loop goes on to read iff
/// the answer was delivered and the request was not to quit.
pub proof fn law_steps_of_a_round(
    count: usize,
    line: Seq<char>,
    decoded: Result<RequestModel, Seq<char>>,
    response: ResponseModel,
    replied: Result<bool, Seq<char>>,
)
    requires
        count > 0,
    ensures
        ({
            let (p1, a1) = server_next(
                ServerPhase::Reading,
                ServerEventModel::LineRead(Ok((count, line))),
            );
            let (p2, a2) = server_next(p1, ServerEventModel::Decoded(decoded));
            let (p3, a3) = server_next(p2, ServerEventModel::Handled(response));
            let (p, said) = match decoded {
                Ok(_) => (p3, a3),
                Err(_) => (p2, a2),
            };
            let (_, last) = server_next(p, ServerEventModel::Replied(replied));
            &&& a1 == ServerActionModel::Decode(trimmed_end(line))
            &&& decoded matches Ok(request) ==> a2 == ServerActionModel::Handle(request)
            &&& said == ServerActionModel::Reply(
                match decoded {
                    Ok(_) => response,
                    Err(e) => ResponseModel::Error { message: "Invalid helper request: "@ + e },
                },
            )
            &&& match replied {
                Ok(delivered) => if delivered && decoded != Ok::<RequestModel, Seq<char>>(
                    RequestModel::Quit,
                ) {
                    last is ReadLine
                } else {
                    last matches ServerActionModel::Stop(r) && r is Ok
                },
                Err(e) => last == ServerActionModel::Stop(Err(e)),
            }
        }),
{
}

/// The loop stops without an error where the input ends, and with one where it
/// cannot be read.
pub proof fn law_end_of_input(line: Seq<char>, e: Seq<char>)
    ensures
        server_next(ServerPhase::Reading, ServerEventModel::LineRead(Ok((0, line)))).1 matches
            ServerActionModel::Stop(r) && r is Ok,
        server_next(ServerPhase::Reading, ServerEventModel::LineRead(Err(e))).1
            == ServerActionModel::Stop(Err("Helper read error: "@ + e)),
{
}

/// What the loop's `step` returns: a request that was decoded is the one to be
/// handled, and what came of handling it is the answer.
pub proof fn law_loop_step_returned(server: &mut Server, event: ServerEvent, res: ServerAction)
    requires
        server_awaits(old(server).phase, event@),
        call_ensures(Server::step, (server, event), res),
    ensures
        event matches ServerEvent::Decoded(Ok(request)) ==> (res matches ServerAction::Handle(r)
            && r@ == request@),
        event matches ServerEvent::Handled(response) ==> (res matches ServerAction::Reply(r) && r@
            == response@),
        event matches ServerEvent::Decoded(Err(e)) ==> (res matches ServerAction::Reply(
            HelperResponse::Error { message },
        ) && message@ == "Invalid helper request: "@ + e@),
        event matches ServerEvent::LineRead(Ok((count, line))) ==> if count == 0 {
            res matches ServerAction::Stop(r) && r is Ok
        } else {
            res matches ServerAction::Decode(t) && t@ == trimmed_end(line@)
        },
{
}

/// What the writing of an answer returns: the encoded answer, then a line feed, then
/// the flush, and that the answer was delivered only after the flush.
pub proof fn law_reply_step_returned(reply: &mut Reply, event: ReplyEvent, res: ReplyAction)
    requires
        reply_awaits(old(reply).phase, event@),
        call_ensures(Reply::step, (reply, event), res),
    ensures
        event matches ReplyEvent::Encoded(Ok(payload)) ==> (res matches ReplyAction::Write(t) && t@
            == payload@ && final(reply).phase == ReplyPhase::Writing),
        event matches ReplyEvent::Written(Ok(_)) ==> if old(reply).phase == ReplyPhase::Writing {
            res matches ReplyAction::Write(t) && t@ == seq!['\n'] && final(reply).phase
                == ReplyPhase::EndingLine
        } else {
            res is Flush && final(reply).phase == ReplyPhase::Flushing
        },
        res matches ReplyAction::Finish(Ok(delivered)) ==> (delivered <==> (event matches
            ReplyEvent::Flushed(r) && r is Ok)),
{
}

/// What `write_helper_response` and `run_helper_server` return: the answer is to be
/// encoded, as it is, and the loop begins with reading a line.
pub proof fn law_starts_returned(
    response: HelperResponse,
    reply: (Reply, ReplyAction),
    server: (Server, ServerAction),
)
    requires
        call_ensures(write_helper_response, (response,), reply),
        call_ensures(run_helper_server, (), server),
    ensures
        reply.0.phase == ReplyPhase::Encoding,
        reply.1 matches ReplyAction::Encode(r) && r@ == response@,
        server.0.phase == ServerPhase::Reading,
        server.1 is ReadLine,
{
}

} // verus!
