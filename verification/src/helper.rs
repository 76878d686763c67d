//! Starting the privileged helper, and making sure that one answers.

use crate::environment::{guidance, permission_guidance_message};
use crate::exchange::answer_of;
use crate::handler::{handling_start, HandlerActionModel};
use crate::paths::{byte_lists, ConfigPath};
use crate::protocol::{reply_result, unit_result};
use crate::protocol::{HelperRequest, HelperResponse, RequestModel, ResponseModel};
use vstd::prelude::*;
use vstd::utf8::*;

verus! {

/// The argument that turns the program into the helper.
pub open spec fn helper_flag() -> Seq<char> {
    "--helper-server"@
}

/// Whether the program was started as the helper, by its first argument.
pub fn is_helper_invocation(first_argument: Option<String>) -> (res: bool)
    ensures
        res == (first_argument matches Some(a) && a@ == helper_flag()),
{
    match first_argument {
        Some(a) => a == "--helper-server".to_owned(),
        None => false,
    }
}

/// The command line that starts the helper through the privilege dialog.
pub open spec fn helper_command_line(executable: Seq<u8>) -> Seq<Seq<u8>> {
    seq![
        encode_utf8("pkexec"@),
        encode_utf8("--disable-internal-agent"@),
        executable,
        encode_utf8(helper_flag()),
    ]
}

/// The program and the arguments that start the helper.
pub fn helper_command(executable: ConfigPath) -> (res: Vec<Vec<u8>>)
    ensures
        byte_lists(res@) == helper_command_line(executable@),
{
    let mut res: Vec<Vec<u8>> = Vec::new();
    res.push("pkexec".as_bytes_vec());
    res.push("--disable-internal-agent".as_bytes_vec());
    res.push(executable.bytes);
    res.push("--helper-server".as_bytes_vec());
    assert(byte_lists(res@) =~= helper_command_line(executable@));
    res
}

/// Why the helper did not start.
#[derive(Debug)]
pub enum StartFailure {
    /// The program does not know where it is.
    Executable(String),
    /// The privilege dialog did not start.
    Spawn(String),
    /// The helper cannot be written to.
    NoStdin,
    /// The helper cannot be read from.
    NoStdout,
}

/// What the user is told of a failed start.
pub open spec fn start_failure_text(failure: StartFailure) -> Seq<char> {
    match failure {
        StartFailure::Executable(e) => "Failed to resolve app executable path: "@ + e@,
        StartFailure::Spawn(e) => "Failed to start privilege dialog (pkexec): "@ + e@,
        StartFailure::NoStdin => "Failed to connect to helper stdin"@,
        StartFailure::NoStdout => "Failed to connect to helper stdout"@,
    }
}

/// Writes what the user is told of a failed start.
pub fn start_failure_message(failure: StartFailure) -> (res: String)
    ensures
        res@ == start_failure_text(failure),
{
    match failure {
        StartFailure::Executable(e) => {
            "Failed to resolve app executable path: ".to_owned().concat(&e)
        },
        StartFailure::Spawn(e) => {
            "Failed to start privilege dialog (pkexec): ".to_owned().concat(&e)
        },
        StartFailure::NoStdin => "Failed to connect to helper stdin".to_owned(),
        StartFailure::NoStdout => "Failed to connect to helper stdout".to_owned(),
    }
}

/// What the check for a helper waits for.
#[derive(Debug, Clone, Copy, PartialEq, Eq, Structural)]
pub enum CheckPhase {
    /// The helper that runs is asked whether it is there.
    AskingCurrent,
    /// A new helper is started.
    Starting,
    /// The new helper is asked whether it is there.
    AskingNew,
    Finished,
}

/// What came of an action.
pub enum CheckEvent {
    /// The helper answered, or could not be asked.
    Answered(Result<HelperResponse, String>),
    /// The new helper started, or why not.
    Started(Result<(), StartFailure>),
}

/// What a `CheckEvent` holds.
pub enum CheckEventModel {
    Answered(Result<ResponseModel, Seq<char>>),
    Started(Result<(), Seq<char>>),
}

impl View for CheckEvent {
    type V = CheckEventModel;

    open spec fn view(&self) -> CheckEventModel {
        match *self {
            CheckEvent::Answered(r) => CheckEventModel::Answered(reply_result(r)),
            CheckEvent::Started(r) => CheckEventModel::Started(
                match r {
                    Ok(_) => Ok(()),
                    Err(failure) => Err(start_failure_text(failure)),
                },
            ),
        }
    }
}

/// What is to be done next.
pub enum CheckAction {
    /// Ask the helper that runs.
    AskCurrent(HelperRequest),
    /// Start a new helper.
    Start,
    /// Ask the new helper.
    AskNew(HelperRequest),
    /// The check is over.
    Finish(Result<(), String>),
}

/// What a `CheckAction` holds.
#[verifier::ext_equal]
pub enum CheckActionModel {
    AskCurrent(RequestModel),
    Start,
    AskNew(RequestModel),
    Finish(Result<(), Seq<char>>),
}

impl View for CheckAction {
    type V = CheckActionModel;

    open spec fn view(&self) -> CheckActionModel {
        match *self {
            CheckAction::AskCurrent(request) => CheckActionModel::AskCurrent(request@),
            CheckAction::Start => CheckActionModel::Start,
            CheckAction::AskNew(request) => CheckActionModel::AskNew(request@),
            CheckAction::Finish(r) => CheckActionModel::Finish(unit_result(r)),
        }
    }
}

/// Where a check stands: its phase, and whether there is a helper to rely on. A
/// helper that is not to be relied on any more is to be dropped. A new helper
/// is one to rely on once the check has succeeded.
pub struct CheckModel {
    pub phase: CheckPhase,
    pub running: bool,
}

/// The state and the action of a check that is over.
pub open spec fn check_over(running: bool, outcome: Result<(), Seq<char>>) -> (
    CheckModel,
    CheckActionModel,
) {
    (CheckModel { phase: CheckPhase::Finished, running }, CheckActionModel::Finish(outcome))
}

/// A new helper is to be started in place of any old one.
pub open spec fn check_starts() -> (CheckModel, CheckActionModel) {
    (CheckModel { phase: CheckPhase::Starting, running: false }, CheckActionModel::Start)
}

/// How a check begins.
pub open spec fn check_start(can_elevate: bool, running: bool) -> (CheckModel, CheckActionModel) {
    if !can_elevate {
        check_over(running, Err(guidance()))
    } else if running {
        (
            CheckModel { phase: CheckPhase::AskingCurrent, running },
            CheckActionModel::AskCurrent(RequestModel::Ping),
        )
    } else {
        check_starts()
    }
}

/// Whether a check in this phase waits for an event of this kind.
pub open spec fn check_awaits(phase: CheckPhase, event: CheckEventModel) -> bool {
    match event {
        CheckEventModel::Answered(_) => phase == CheckPhase::AskingCurrent || phase
            == CheckPhase::AskingNew,
        CheckEventModel::Started(_) => phase == CheckPhase::Starting,
    }
}

/// The state and the action after an event.
pub open spec fn check_next(phase: CheckPhase, event: CheckEventModel) -> (
    CheckModel,
    CheckActionModel,
) {
    match event {
        CheckEventModel::Answered(reply) => if phase == CheckPhase::AskingCurrent {
            match reply {
                Ok(ResponseModel::Pong) => check_over(true, Ok(())),
                _ => check_starts(),
            }
        } else {
            match reply {
                Ok(ResponseModel::Pong) => check_over(true, Ok(())),
                Ok(_) => check_over(false, Err("Unexpected helper handshake response"@)),
                Err(e) => check_over(false, Err(e)),
            }
        },
        CheckEventModel::Started(Ok(_)) => (
            CheckModel { phase: CheckPhase::AskingNew, running: false },
            CheckActionModel::AskNew(RequestModel::Ping),
        ),
        CheckEventModel::Started(Err(e)) => check_over(false, Err(e)),
    }
}

/// A check for a helper that answers.
pub struct HelperCheck {
    pub phase: CheckPhase,
    /// There is a helper to rely on.
    pub running: bool,
}

impl View for HelperCheck {
    type V = CheckModel;

    open spec fn view(&self) -> CheckModel {
        CheckModel { phase: self.phase, running: self.running }
    }
}

/// Begins to make sure that a helper answers. `can_elevate` tells whether a
/// privilege dialog can be shown, `running` whether a helper was started.
pub fn ensure_helper_available(can_elevate: bool, running: bool) -> (res: (
    HelperCheck,
    CheckAction,
))
    ensures
        (res.0@, res.1@) == check_start(can_elevate, running),
{
    if !can_elevate {
        (
            HelperCheck { phase: CheckPhase::Finished, running },
            CheckAction::Finish(Err(permission_guidance_message())),
        )
    } else if running {
        (
            HelperCheck { phase: CheckPhase::AskingCurrent, running },
            CheckAction::AskCurrent(HelperRequest::Ping),
        )
    } else {
        (HelperCheck { phase: CheckPhase::Starting, running: false }, CheckAction::Start)
    }
}

impl HelperCheck {
    /// Ends the check.
    fn finish(&mut self, running: bool, outcome: Result<(), String>) -> (res: CheckAction)
        ensures
            (final(self)@, res@) == check_over(running, unit_result(outcome)),
    {
        self.phase = CheckPhase::Finished;
        self.running = running;
        CheckAction::Finish(outcome)
    }

    /// Goes on after an event.
    pub fn step(&mut self, event: CheckEvent) -> (res: CheckAction)
        requires
            check_awaits(old(self).phase, event@),
        ensures
            (final(self)@, res@) == check_next(old(self).phase, event@),
    {
        match event {
            CheckEvent::Answered(Ok(HelperResponse::Pong)) => self.finish(true, Ok(())),
            CheckEvent::Answered(reply) => match self.phase {
                CheckPhase::AskingCurrent => {
                    self.phase = CheckPhase::Starting;
                    self.running = false;
                    CheckAction::Start
                },
                _ => match reply {
                    Ok(_) => self.finish(
                        false,
                        Err("Unexpected helper handshake response".to_owned()),
                    ),
                    Err(e) => self.finish(false, Err(e)),
                },
            },
            CheckEvent::Started(Ok(_)) => {
                self.phase = CheckPhase::AskingNew;
                self.running = false;
                CheckAction::AskNew(HelperRequest::Ping)
            },
            CheckEvent::Started(Err(failure)) => {
                let message = start_failure_message(failure);
                self.finish(false, Err(message))
            },
        }
    }
}

/// What a check ends with on these events, if they suffice: whether there is a
/// helper to rely on, and the outcome.
pub open spec fn check_run(
    state: CheckModel,
    action: CheckActionModel,
    events: Seq<CheckEventModel>,
) -> Option<(bool, Result<(), Seq<char>>)>
    decreases events.len(),
{
    match action {
        CheckActionModel::Finish(r) => Some((state.running, r)),
        _ => if events.len() == 0 || !check_awaits(state.phase, events[0]) {
            None
        } else {
            let (next, then_do) = check_next(state.phase, events[0]);
            check_run(next, then_do, events.drop_first())
        },
    }
}

/// Success from the middle of a check.
proof fn lemma_success_means_running(
    state: CheckModel,
    action: CheckActionModel,
    events: Seq<CheckEventModel>,
)
    requires
        action matches CheckActionModel::Finish(Ok(_)) ==> state.running,
    ensures
        check_run(state, action, events) matches Some((running, Ok(_))) ==> running,
    decreases events.len(),
{
    if action !is Finish && events.len() > 0 && check_awaits(state.phase, events[0]) {
        let (next, then_do) = check_next(state.phase, events[0]);
        lemma_success_means_running(next, then_do, events.drop_first());
    }
}

/// Whenever the check succeeds, there is a helper to ask.
pub proof fn law_success_means_running(
    can_elevate: bool,
    running: bool,
    events: Seq<CheckEventModel>,
)
    ensures
        ({
            let (state, action) = check_start(can_elevate, running);
            check_run(state, action, events) matches Some((r, Ok(_))) ==> r
        }),
{
    let (state, action) = check_start(can_elevate, running);
    lemma_success_means_running(state, action, events);
}

/// The outcome of asking a new helper.
pub open spec fn new_helper_outcome(
    started: Result<(), Seq<char>>,
    reply: Result<ResponseModel, Seq<char>>,
) -> (bool, Result<(), Seq<char>>) {
    match (started, reply) {
        (Err(e), _) => (false, Err(e)),
        (_, Ok(ResponseModel::Pong)) => (true, Ok(())),
        (_, Ok(_)) => (false, Err("Unexpected helper handshake response"@)),
        (_, Err(e)) => (false, Err(e)),
    }
}

/// Without a dialog nothing is tried. A helper that answers is kept. In every
/// other case a new helper is started, and kept iff it answers.
pub proof fn law_check_outcome(
    can_elevate: bool,
    running: bool,
    current: Result<ResponseModel, Seq<char>>,
    started: Result<(), Seq<char>>,
    new: Result<ResponseModel, Seq<char>>,
)
    ensures
        ({
            let (state, action) = check_start(can_elevate, running);
            let answers = if running {
                seq![CheckEventModel::Answered(current)]
            } else {
                Seq::empty()
            };
            let events = answers + seq![
                CheckEventModel::Started(started),
                CheckEventModel::Answered(new),
            ];
            check_run(state, action, events) == Some(
                if !can_elevate {
                    (running, Err(guidance()))
                } else if running && current == Ok::<ResponseModel, Seq<char>>(
                    ResponseModel::Pong,
                ) {
                    (true, Ok(()))
                } else {
                    new_helper_outcome(started, new)
                },
            )
        }),
{
    reveal_with_fuel(check_run, 4);
    let e1 = CheckEventModel::Answered(current);
    let e2 = CheckEventModel::Started(started);
    let e3 = CheckEventModel::Answered(new);
    assert(seq![e1] + seq![e2, e3] =~= seq![e1, e2, e3]);
    assert(Seq::<CheckEventModel>::empty() + seq![e2, e3] =~= seq![e2, e3]);
    assert(seq![e1, e2, e3].drop_first() =~= seq![e2, e3]);
    assert(seq![e2, e3].drop_first() =~= seq![e3]);
}

/// A helper that starts and answers as the handler of requests does passes the
/// check, whatever became of an earlier one.
pub proof fn law_new_helper_passes(running: bool, current: Result<ResponseModel, Seq<char>>)
    ensures
        handling_start(RequestModel::Ping).1 matches HandlerActionModel::Respond(pong) && {
            let (state, action) = check_start(true, running);
            let answers = if running {
                seq![CheckEventModel::Answered(current)]
            } else {
                Seq::empty()
            };
            let events = answers + seq![
                CheckEventModel::Started(Ok(())),
                CheckEventModel::Answered(answer_of(pong)),
            ];
            check_run(state, action, events) == Some((true, Ok::<(), Seq<char>>(())))
        },
{
    law_check_outcome(true, running, current, Ok(()), answer_of(ResponseModel::Pong));
}

/// The command line that starts the helper ends in the argument that makes the
/// program the helper.
pub proof fn law_command_line_starts_the_helper(executable: Seq<u8>)
    ensures
        helper_command_line(executable).last() == encode_utf8(helper_flag()),
        helper_command_line(executable)[2] == executable,
{
}

/// Whether an event is what comes of an action.
pub open spec fn check_brings(action: CheckActionModel, event: CheckEventModel) -> bool {
    match action {
        CheckActionModel::AskCurrent(_) => event is Answered,
        CheckActionModel::Start => event is Started,
        CheckActionModel::AskNew(_) => event is Answered,
        CheckActionModel::Finish(_) => false,
    }
}

/// A check waits for what its last action brings, from its start to its end. The
/// helper that runs is asked only where there is one.
pub proof fn law_check_awaits_its_action(
    can_elevate: bool,
    running: bool,
    phase: CheckPhase,
    event: CheckEventModel,
    next: CheckEventModel,
)
    ensures
        check_brings(check_start(can_elevate, running).1, next) ==> check_awaits(
            check_start(can_elevate, running).0.phase,
            next,
        ),
        check_brings(check_next(phase, event).1, next) ==> check_awaits(
            check_next(phase, event).0.phase,
            next,
        ),
        check_start(can_elevate, running).1 is AskCurrent ==> running,
        check_next(phase, event).1 !is AskCurrent,
{
}

/// The actions of a check on these events, in order.
pub open spec fn check_actions(
    state: CheckModel,
    action: CheckActionModel,
    events: Seq<CheckEventModel>,
) -> Seq<CheckActionModel>
    decreases events.len(),
{
    seq![action] + if action is Finish || events.len() == 0 || !check_awaits(
        state.phase,
        events[0],
    ) {
        Seq::empty()
    } else {
        let (next, then_do) = check_next(state.phase, events[0]);
        check_actions(next, then_do, events.drop_first())
    }
}

/// The steps of a check. Without a dialog there are none. A helper that runs is
/// asked whether it is there, and kept iff it says so. Otherwise a new one is
/// started, asked the same, and kept iff it says so.
pub proof fn law_steps_of_a_check(
    running: bool,
    current: Result<ResponseModel, Seq<char>>,
    started: Result<(), Seq<char>>,
    new: Result<ResponseModel, Seq<char>>,
    events: Seq<CheckEventModel>,
)
    ensures
        ({
            let (state, action) = check_start(false, running);
            &&& check_actions(state, action, events) == seq![
                CheckActionModel::Finish(Err(guidance())),
            ]
            &&& state.running == running
        }),
        ({
            let (state, action) = check_start(true, true);
            let pong = current == Ok::<ResponseModel, Seq<char>>(ResponseModel::Pong);
            let (next, then_do) = check_next(state.phase, CheckEventModel::Answered(current));
            &&& state.running
            &&& action == CheckActionModel::AskCurrent(RequestModel::Ping)
            &&& pong ==> (then_do matches CheckActionModel::Finish(r) && r is Ok && next.running)
            &&& !pong ==> (next, then_do) == check_start(true, false)
        }),
        ({
            let (state, action) = check_start(true, false);
            let ask = CheckActionModel::AskNew(RequestModel::Ping);
            let all = seq![CheckEventModel::Started(started), CheckEventModel::Answered(new)];
            let (asked, _) = check_next(state.phase, CheckEventModel::Started(started));
            &&& !state.running && !asked.running
            &&& check_actions(state, action, all) == match (started, new) {
                (Err(e), _) => seq![CheckActionModel::Start, CheckActionModel::Finish(Err(e))],
                (_, Ok(ResponseModel::Pong)) => seq![
                    CheckActionModel::Start,
                    ask,
                    CheckActionModel::Finish(Ok(())),
                ],
                (_, Ok(_)) => seq![
                    CheckActionModel::Start,
                    ask,
                    CheckActionModel::Finish(Err("Unexpected helper handshake response"@)),
                ],
                (_, Err(e)) => seq![
                    CheckActionModel::Start,
                    ask,
                    CheckActionModel::Finish(Err(e)),
                ],
            }
            &&& check_run(state, action, all) matches Some((runs, _)) && (runs <==> started is Ok
                && new == Ok::<ResponseModel, Seq<char>>(ResponseModel::Pong))
        }),
{
    reveal_with_fuel(check_actions, 4);
    reveal_with_fuel(check_run, 4);
    let e1 = CheckEventModel::Started(started);
    let e2 = CheckEventModel::Answered(new);
    assert(seq![e1, e2].drop_first() =~= seq![e2]);
}

/// The helper is this program, started by `pkexec` without an agent of its own and
/// told to be the helper.
pub proof fn law_helper_command(executable: Seq<u8>)
    ensures
        helper_command_line(executable).len() == 4,
        helper_command_line(executable)[0] == encode_utf8("pkexec"@),
        helper_command_line(executable)[1] == encode_utf8("--disable-internal-agent"@),
        helper_command_line(executable)[2] == executable,
        helper_command_line(executable)[3] == encode_utf8("--helper-server"@),
        helper_flag() == "--helper-server"@,
{
}

/// The user is told what of the start failed, and why where that is known.
pub proof fn law_start_failures(failure: StartFailure)
    ensures
        match failure {
            StartFailure::Executable(e) => start_failure_text(failure)
                == "Failed to resolve app executable path: "@ + e@,
            StartFailure::Spawn(e) => start_failure_text(failure)
                == "Failed to start privilege dialog (pkexec): "@ + e@,
            StartFailure::NoStdin => start_failure_text(failure)
                == "Failed to connect to helper stdin"@,
            StartFailure::NoStdout => start_failure_text(failure)
                == "Failed to connect to helper stdout"@,
        },
{
}

/// What `ensure_helper_available` returns first: without a dialog the guidance, else
/// the question to the helper that runs, else the start of a new one.
pub proof fn law_check_returned(can_elevate: bool, running: bool, res: (HelperCheck, CheckAction))
    requires
        call_ensures(ensure_helper_available, (can_elevate, running), res),
    ensures
        !can_elevate ==> (res.1 matches CheckAction::Finish(Err(e)) && e@ == guidance()),
        can_elevate && running ==> res.1 matches CheckAction::AskCurrent(HelperRequest::Ping),
        can_elevate && !running ==> res.1 is Start,
        res.0.running == running,
{
}

/// What a check's `step` returns: a helper that says that it is there is kept and
/// ends the check. Another answer of the helper that ran leads to a new one, and a
/// new one that does not start or answers otherwise ends the check without a helper.
pub proof fn law_check_step_returned(check: &mut HelperCheck, event: CheckEvent, res: CheckAction)
    requires
        check_awaits(old(check).phase, event@),
        call_ensures(HelperCheck::step, (check, event), res),
    ensures
        final(check).running <==> (event matches CheckEvent::Answered(Ok(HelperResponse::Pong))),
        final(check).running <==> (res matches CheckAction::Finish(r) && r is Ok),
        event matches CheckEvent::Started(Ok(_)) ==> res matches CheckAction::AskNew(
            HelperRequest::Ping,
        ),
        res is Start <==> old(check).phase == CheckPhase::AskingCurrent && !final(check).running,
        event matches CheckEvent::Started(Err(failure)) ==> (res matches CheckAction::Finish(Err(e))
            && e@ == start_failure_text(failure)),
        event matches CheckEvent::Answered(Err(e)) ==> (old(check).phase == CheckPhase::AskingNew
            ==> (res matches CheckAction::Finish(Err(m)) && m@ == e@)),
{
}

/// What `helper_command` returns, and which argument makes the program the helper.
pub proof fn law_command_returned(
    executable: ConfigPath,
    res: Vec<Vec<u8>>,
    argument: Option<String>,
    helper: bool,
)
    requires
        call_ensures(helper_command, (executable,), res),
        call_ensures(is_helper_invocation, (argument,), helper),
    ensures
        res@.len() == 4,
        res@[0]@ == encode_utf8("pkexec"@),
        res@[1]@ == encode_utf8("--disable-internal-agent"@),
        res@[2]@ == executable@,
        res@[3]@ == encode_utf8("--helper-server"@),
        helper <==> (argument matches Some(a) && a@ == "--helper-server"@),
{
    law_helper_command(executable@);
    assert(byte_lists(res@).len() == res@.len());
    assert(forall|k: int| 0 <= k < res@.len() ==> byte_lists(res@)[k] == (#[trigger] res@[k])@);
}

} // verus!
