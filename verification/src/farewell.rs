//! Letting a helper go: it is asked to quit, and ended however that went.

use crate::protocol::{framed, law_frame_is_written_in_two, line_end, line_feed};
use crate::protocol::{text_result, unit_result, HelperRequest, RequestModel};
use vstd::prelude::*;

verus! {

/// What a farewell waits for.
#[derive(Debug, Clone, Copy, PartialEq, Eq, Structural)]
pub enum FarewellPhase {
    Encoding,
    /// The request is written.
    Writing,
    /// The line feed behind it is written.
    EndingLine,
    Flushing,
    Finished,
}

/// What came of an action.
pub enum FarewellEvent {
    /// The request was encoded.
    Encoded(Result<String, String>),
    /// The text was written.
    Written(Result<(), String>),
    /// The pipe was flushed.
    Flushed(Result<(), String>),
}

/// What a `FarewellEvent` holds.
pub enum FarewellEventModel {
    Encoded(Result<Seq<char>, Seq<char>>),
    Written(Result<(), Seq<char>>),
    Flushed(Result<(), Seq<char>>),
}

impl View for FarewellEvent {
    type V = FarewellEventModel;

    open spec fn view(&self) -> FarewellEventModel {
        match *self {
            FarewellEvent::Encoded(r) => FarewellEventModel::Encoded(text_result(r)),
            FarewellEvent::Written(r) => FarewellEventModel::Written(unit_result(r)),
            FarewellEvent::Flushed(r) => FarewellEventModel::Flushed(unit_result(r)),
        }
    }
}

/// What is to be done next.
pub enum FarewellAction {
    /// Encode this request.
    Encode(HelperRequest),
    /// Write this to the helper.
    Write(String),
    /// Flush the pipe.
    Flush,
    /// End the helper's process. Then the farewell is over.
    Kill,
}

/// What a `FarewellAction` holds.
#[verifier::ext_equal]
pub enum FarewellActionModel {
    Encode(RequestModel),
    Write(Seq<char>),
    Flush,
    Kill,
}

impl View for FarewellAction {
    type V = FarewellActionModel;

    open spec fn view(&self) -> FarewellActionModel {
        match *self {
            FarewellAction::Encode(request) => FarewellActionModel::Encode(request@),
            FarewellAction::Write(t) => FarewellActionModel::Write(t@),
            FarewellAction::Flush => FarewellActionModel::Flush,
            FarewellAction::Kill => FarewellActionModel::Kill,
        }
    }
}

/// Whether a farewell in this phase waits for an event of this kind.
pub open spec fn farewell_awaits(phase: FarewellPhase, event: FarewellEventModel) -> bool {
    match event {
        FarewellEventModel::Encoded(_) => phase == FarewellPhase::Encoding,
        FarewellEventModel::Written(_) => phase == FarewellPhase::Writing || phase
            == FarewellPhase::EndingLine,
        FarewellEventModel::Flushed(_) => phase == FarewellPhase::Flushing,
    }
}

/// The phase and the action after an event. A write or a flush that failed holds
/// nothing up.
pub open spec fn farewell_next(phase: FarewellPhase, event: FarewellEventModel) -> (
    FarewellPhase,
    FarewellActionModel,
) {
    match event {
        FarewellEventModel::Encoded(Ok(payload)) => (
            FarewellPhase::Writing,
            FarewellActionModel::Write(payload),
        ),
        FarewellEventModel::Encoded(Err(_)) => (FarewellPhase::Finished, FarewellActionModel::Kill),
        FarewellEventModel::Written(_) => if phase == FarewellPhase::Writing {
            (FarewellPhase::EndingLine, FarewellActionModel::Write(line_end()))
        } else {
            (FarewellPhase::Flushing, FarewellActionModel::Flush)
        },
        FarewellEventModel::Flushed(_) => (FarewellPhase::Finished, FarewellActionModel::Kill),
    }
}

/// A farewell under way.
pub struct Farewell {
    pub phase: FarewellPhase,
}

/// Begins to let a helper go with encoding the request to quit.
pub fn let_helper_go() -> (res: (Farewell, FarewellAction))
    ensures
        res.0.phase == FarewellPhase::Encoding,
        res.1@ == FarewellActionModel::Encode(RequestModel::Quit),
{
    (Farewell { phase: FarewellPhase::Encoding }, FarewellAction::Encode(HelperRequest::Quit))
}

impl Farewell {
    /// Goes on after an event.
    pub fn step(&mut self, event: FarewellEvent) -> (res: FarewellAction)
        requires
            farewell_awaits(old(self).phase, event@),
        ensures
            (final(self).phase, res@) == farewell_next(old(self).phase, event@),
    {
        match event {
            FarewellEvent::Encoded(Ok(payload)) => {
                self.phase = FarewellPhase::Writing;
                FarewellAction::Write(payload)
            },
            FarewellEvent::Written(_) => {
                if self.phase == FarewellPhase::Writing {
                    self.phase = FarewellPhase::EndingLine;
                    FarewellAction::Write(line_feed())
                } else {
                    self.phase = FarewellPhase::Flushing;
                    FarewellAction::Flush
                }
            },
            FarewellEvent::Encoded(Err(_)) | FarewellEvent::Flushed(_) => {
                self.phase = FarewellPhase::Finished;
                FarewellAction::Kill
            },
        }
    }
}

/// The actions of a farewell on these events, in order.
pub open spec fn farewell_actions(
    phase: FarewellPhase,
    action: FarewellActionModel,
    events: Seq<FarewellEventModel>,
) -> Seq<FarewellActionModel>
    decreases events.len(),
{
    seq![action] + if events.len() == 0 || !farewell_awaits(phase, events[0]) {
        Seq::empty()
    } else {
        let (next, then_do) = farewell_next(phase, events[0]);
        farewell_actions(next, then_do, events.drop_first())
    }
}

/// A helper that is let go is ended, whatever fails on the way. Before that it is
/// sent the request to quit as one message, unless the request cannot be encoded.
pub proof fn law_helper_is_let_go(
    encoded: Result<Seq<char>, Seq<char>>,
    written: Result<(), Seq<char>>,
    ended: Result<(), Seq<char>>,
    flushed: Result<(), Seq<char>>,
)
    ensures
        farewell_actions(
            FarewellPhase::Encoding,
            FarewellActionModel::Encode(RequestModel::Quit),
            seq![
                FarewellEventModel::Encoded(encoded),
                FarewellEventModel::Written(written),
                FarewellEventModel::Written(ended),
                FarewellEventModel::Flushed(flushed),
            ],
        ) == match encoded {
            Ok(payload) => seq![
                FarewellActionModel::Encode(RequestModel::Quit),
                FarewellActionModel::Write(payload),
                FarewellActionModel::Write(line_end()),
                FarewellActionModel::Flush,
                FarewellActionModel::Kill,
            ],
            Err(_) => seq![
                FarewellActionModel::Encode(RequestModel::Quit),
                FarewellActionModel::Kill,
            ],
        },
        encoded matches Ok(payload) ==> payload + line_end() == framed(payload),
{
    reveal_with_fuel(farewell_actions, 6);
    let e1 = FarewellEventModel::Encoded(encoded);
    let e2 = FarewellEventModel::Written(written);
    let e3 = FarewellEventModel::Written(ended);
    let e4 = FarewellEventModel::Flushed(flushed);
    assert(seq![e1, e2, e3, e4].drop_first() =~= seq![e2, e3, e4]);
    assert(seq![e2, e3, e4].drop_first() =~= seq![e3, e4]);
    assert(seq![e3, e4].drop_first() =~= seq![e4]);
    if let Ok(payload) = encoded {
        law_frame_is_written_in_two(payload);
    }
}

/// Whether an event is what comes of an action.
pub open spec fn farewell_brings(action: FarewellActionModel, event: FarewellEventModel) -> bool {
    match action {
        FarewellActionModel::Encode(_) => event is Encoded,
        FarewellActionModel::Write(_) => event is Written,
        FarewellActionModel::Flush => event is Flushed,
        FarewellActionModel::Kill => false,
    }
}

/// A farewell waits for what its last action brings, from its start to its end.
pub proof fn law_farewell_awaits_its_action(
    phase: FarewellPhase,
    event: FarewellEventModel,
    next: FarewellEventModel,
)
    ensures
        farewell_brings(FarewellActionModel::Encode(RequestModel::Quit), next) ==> farewell_awaits(
            FarewellPhase::Encoding,
            next,
        ),
        farewell_brings(farewell_next(phase, event).1, next) ==> farewell_awaits(
            farewell_next(phase, event).0,
            next,
        ),
{
}

/// What `let_helper_go` and `step` return: the request to quit is to be encoded, then
/// written and ended with a line feed whatever fails, and at last the helper is to be
/// ended.
pub proof fn law_farewell_returned(
    start: (Farewell, FarewellAction),
    farewell: &mut Farewell,
    event: FarewellEvent,
    res: FarewellAction,
)
    requires
        call_ensures(let_helper_go, (), start),
        farewell_awaits(old(farewell).phase, event@),
        call_ensures(Farewell::step, (farewell, event), res),
    ensures
        start.0.phase == FarewellPhase::Encoding,
        start.1 matches FarewellAction::Encode(HelperRequest::Quit),
        event matches FarewellEvent::Encoded(Ok(payload)) ==> (res matches FarewellAction::Write(t)
            && t@ == payload@),
        event is Written ==> if old(farewell).phase == FarewellPhase::Writing {
            res matches FarewellAction::Write(t) && t@ == seq!['\n']
        } else {
            res is Flush
        },
        res is Kill <==> event is Flushed || (event matches FarewellEvent::Encoded(r) && r is Err),
{
}

} // verus!
