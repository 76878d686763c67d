//! Bringing a tunnel up or down with `wg-quick`, as root or through the helper.

use crate::commands::{interfaces_up, law_interfaces};
use crate::commands::{is_effective_root, is_root, judge_wg_quick, output_result};
use crate::commands::{wg_quick_outcome, CommandOutput, OutputModel};
use crate::exchange::answer_of;
use crate::front_end::{law_front_end_holds_its_fields, AppModel, WireSmartApp};
use crate::handler::wg_quick_response;
use crate::paths::ConfigPath;
use crate::protocol::{reply_result, unit_result};
use crate::protocol::{HelperRequest, HelperResponse, RequestModel, ResponseModel};
use crate::text::{readable, trimmed, words};
use crate::tunnels::{Tunnel, TunnelModel};
use vstd::prelude::*;

verus! {

/// What a run of `wg-quick` waits for.
#[derive(Debug, Clone, Copy, PartialEq, Eq, Structural)]
pub enum TogglePhase {
    /// The user id is read.
    CheckingUser,
    /// A helper is made sure of.
    Elevating,
    /// The helper is asked to run the command.
    Asking,
    /// The command runs.
    Running,
    /// The interfaces that are up are read.
    ReadingStatus,
    Finished,
}

/// A run of `wg-quick`.
pub struct Toggle {
    pub phase: TogglePhase,
    /// What `wg-quick` is to do.
    pub action: String,
    pub tunnel: Tunnel,
}

/// What a `Toggle` holds.
#[verifier::ext_equal]
pub struct ToggleModel {
    pub phase: TogglePhase,
    pub action: Seq<char>,
    pub tunnel: TunnelModel,
}

impl View for Toggle {
    type V = ToggleModel;

    open spec fn view(&self) -> ToggleModel {
        ToggleModel { phase: self.phase, action: self.action@, tunnel: self.tunnel@ }
    }
}

/// What came of an action.
pub enum ToggleEvent {
    /// `id -u` was run.
    UserChecked(Result<CommandOutput, String>),
    /// A helper was made sure of, or why there is none.
    Ensured(Result<(), String>),
    /// The helper answered, or could not be asked.
    Answered(Result<HelperResponse, String>),
    /// `wg-quick` was run.
    Ran(Result<CommandOutput, String>),
    /// `wg show interfaces` was run.
    StatusRead(Result<CommandOutput, String>),
}

/// What a `ToggleEvent` holds.
pub enum ToggleEventModel {
    UserChecked(Result<OutputModel, Seq<char>>),
    Ensured(Result<(), Seq<char>>),
    Answered(Result<ResponseModel, Seq<char>>),
    Ran(Result<OutputModel, Seq<char>>),
    StatusRead(Result<OutputModel, Seq<char>>),
}

impl View for ToggleEvent {
    type V = ToggleEventModel;

    open spec fn view(&self) -> ToggleEventModel {
        match *self {
            ToggleEvent::UserChecked(r) => ToggleEventModel::UserChecked(output_result(r)),
            ToggleEvent::Ensured(r) => ToggleEventModel::Ensured(unit_result(r)),
            ToggleEvent::Answered(r) => ToggleEventModel::Answered(reply_result(r)),
            ToggleEvent::Ran(r) => ToggleEventModel::Ran(output_result(r)),
            ToggleEvent::StatusRead(r) => ToggleEventModel::StatusRead(output_result(r)),
        }
    }
}

/// What is to be done next.
pub enum ToggleAction {
    /// Run `id -u`.
    CheckUser,
    /// Make sure that a helper answers.
    EnsureHelper,
    /// Ask the helper.
    Ask(HelperRequest),
    /// Run `wg-quick` with this action on this file.
    RunWgQuick { action: String, path: ConfigPath },
    /// Run `wg show interfaces`.
    ReadStatus,
    /// The run is over.
    Finish,
}

/// What a `ToggleAction` holds.
#[verifier::ext_equal]
pub enum ToggleActionModel {
    CheckUser,
    EnsureHelper,
    Ask(RequestModel),
    RunWgQuick { action: Seq<char>, path: Seq<u8> },
    ReadStatus,
    Finish,
}

impl View for ToggleAction {
    type V = ToggleActionModel;

    open spec fn view(&self) -> ToggleActionModel {
        match *self {
            ToggleAction::CheckUser => ToggleActionModel::CheckUser,
            ToggleAction::EnsureHelper => ToggleActionModel::EnsureHelper,
            ToggleAction::Ask(request) => ToggleActionModel::Ask(request@),
            ToggleAction::RunWgQuick { action, path } => ToggleActionModel::RunWgQuick {
                action: action@,
                path: path@,
            },
            ToggleAction::ReadStatus => ToggleActionModel::ReadStatus,
            ToggleAction::Finish => ToggleActionModel::Finish,
        }
    }
}

/// The status line after `wg-quick` succeeded.
pub open spec fn success_text(action: Seq<char>, name: Seq<char>) -> Seq<char> {
    "Successfully ran wg-quick "@ + action + " "@ + name + "."@
}

/// How a run begins.
pub open spec fn toggle_start(app: AppModel, action: Seq<char>, tunnel: TunnelModel) -> (
    ToggleModel,
    AppModel,
    ToggleActionModel,
) {
    if app.wg_quick_available {
        (
            ToggleModel { phase: TogglePhase::CheckingUser, action, tunnel },
            app.cleared(),
            ToggleActionModel::CheckUser,
        )
    } else {
        (
            ToggleModel { phase: TogglePhase::Finished, action, tunnel },
            app.failing("wg-quick is not available in PATH"@),
            ToggleActionModel::Finish,
        )
    }
}

impl ToggleModel {
    /// Whether the run waits for an event of this kind.
    pub open spec fn awaits(self, event: ToggleEventModel) -> bool {
        match event {
            ToggleEventModel::UserChecked(_) => self.phase == TogglePhase::CheckingUser,
            ToggleEventModel::Ensured(_) => self.phase == TogglePhase::Elevating,
            ToggleEventModel::Answered(_) => self.phase == TogglePhase::Asking,
            ToggleEventModel::Ran(_) => self.phase == TogglePhase::Running,
            ToggleEventModel::StatusRead(_) => self.phase == TogglePhase::ReadingStatus,
        }
    }

    /// The run is over.
    pub open spec fn over(self, app: AppModel) -> (ToggleModel, AppModel, ToggleActionModel) {
        (
            ToggleModel { phase: TogglePhase::Finished, ..self },
            app,
            ToggleActionModel::Finish,
        )
    }

    /// The command was run, with this outcome.
    pub open spec fn judged(self, app: AppModel, outcome: Result<(), Seq<char>>) -> (
        ToggleModel,
        AppModel,
        ToggleActionModel,
    ) {
        match outcome {
            Ok(_) => (
                ToggleModel { phase: TogglePhase::ReadingStatus, ..self },
                app.informing(success_text(self.action, self.tunnel.name)),
                ToggleActionModel::ReadStatus,
            ),
            Err(e) => self.over(app.failing(e)),
        }
    }

    /// The run, the front end and the action after an event.
    pub open spec fn after(self, app: AppModel, event: ToggleEventModel) -> (
        ToggleModel,
        AppModel,
        ToggleActionModel,
    ) {
        match event {
            ToggleEventModel::UserChecked(ran) => if is_root(ran) {
                (
                    ToggleModel { phase: TogglePhase::Running, ..self },
                    app,
                    ToggleActionModel::RunWgQuick { action: self.action, path: self.tunnel.path },
                )
            } else {
                (
                    ToggleModel { phase: TogglePhase::Elevating, ..self },
                    app,
                    ToggleActionModel::EnsureHelper,
                )
            },
            ToggleEventModel::Ensured(Ok(_)) => (
                ToggleModel { phase: TogglePhase::Asking, ..self },
                app,
                ToggleActionModel::Ask(
                    RequestModel::WgQuick { action: self.action, path: self.tunnel.path },
                ),
            ),
            ToggleEventModel::Ensured(Err(e)) => self.over(app.failing(e)),
            ToggleEventModel::Answered(reply) => self.judged(app, helper_verdict(reply)),
            ToggleEventModel::Ran(ran) => self.judged(
                app,
                wg_quick_outcome(self.action, self.tunnel.name, ran),
            ),
            ToggleEventModel::StatusRead(ran) => self.over(app.with_status(ran)),
        }
    }
}

/// What the helper's answer says of the command.
pub open spec fn helper_verdict(reply: Result<ResponseModel, Seq<char>>) -> Result<
    (),
    Seq<char>,
> {
    match reply {
        Ok(ResponseModel::Done) => Ok(()),
        Ok(_) => Err("Unexpected helper response"@),
        Err(e) => Err(e),
    }
}

impl WireSmartApp {
    /// Begins to run `wg-quick` on a tunnel.
    pub fn run_wg_quick(&mut self, action: &str, tunnel: &Tunnel) -> (res: (Toggle, ToggleAction))
        requires
            old(self).wf(),
        ensures
            final(self).wf(),
            (res.0@, final(self)@, res.1@) == toggle_start(old(self)@, action@, tunnel@),
    {
        self.error_message = None;
        if !self.wg_quick_available {
            self.error_message = Some("wg-quick is not available in PATH".to_owned());
            return (
                Toggle {
                    phase: TogglePhase::Finished,
                    action: action.to_owned(),
                    tunnel: tunnel.clone(),
                },
                ToggleAction::Finish,
            );
        }
        (
            Toggle {
                phase: TogglePhase::CheckingUser,
                action: action.to_owned(),
                tunnel: tunnel.clone(),
            },
            ToggleAction::CheckUser,
        )
    }
}

impl Toggle {
    /// Ends the run with an error to show.
    fn fail(&mut self, app: &mut WireSmartApp, message: String) -> (res: ToggleAction)
        requires
            old(app).wf(),
        ensures
            final(app).wf(),
            (final(self)@, final(app)@, res@) == old(self)@.over(old(app)@.failing(message@)),
    {
        app.error_message = Some(message);
        self.phase = TogglePhase::Finished;
        ToggleAction::Finish
    }

    /// Tells the user how the command went.
    fn judge(&mut self, app: &mut WireSmartApp, outcome: Result<(), String>) -> (res: ToggleAction)
        requires
            old(app).wf(),
        ensures
            final(app).wf(),
            (final(self)@, final(app)@, res@) == old(self)@.judged(
                old(app)@,
                unit_result(outcome),
            ),
    {
        match outcome {
            Ok(_) => {
                app.info_message = "Successfully ran wg-quick ".to_owned().concat(
                    &self.action,
                ).concat(" ").concat(&self.tunnel.name).concat(".");
                self.phase = TogglePhase::ReadingStatus;
                ToggleAction::ReadStatus
            },
            Err(e) => self.fail(app, e),
        }
    }

    /// Goes on after an event.
    pub fn step(&mut self, app: &mut WireSmartApp, event: ToggleEvent) -> (res: ToggleAction)
        requires
            old(app).wf(),
            old(self)@.awaits(event@),
        ensures
            final(app).wf(),
            (final(self)@, final(app)@, res@) == old(self)@.after(old(app)@, event@),
    {
        match event {
            ToggleEvent::UserChecked(ran) => {
                if is_effective_root(ran) {
                    self.phase = TogglePhase::Running;
                    ToggleAction::RunWgQuick {
                        action: self.action.clone(),
                        path: self.tunnel.path.clone(),
                    }
                } else {
                    self.phase = TogglePhase::Elevating;
                    ToggleAction::EnsureHelper
                }
            },
            ToggleEvent::Ensured(Ok(_)) => {
                self.phase = TogglePhase::Asking;
                ToggleAction::Ask(
                    HelperRequest::WgQuick {
                        action: self.action.clone(),
                        path: self.tunnel.path.clone(),
                    },
                )
            },
            ToggleEvent::Ensured(Err(e)) => self.fail(app, e),
            ToggleEvent::Answered(Ok(HelperResponse::Done)) => self.judge(app, Ok(())),
            ToggleEvent::Answered(Ok(_)) => {
                self.judge(app, Err("Unexpected helper response".to_owned()))
            },
            ToggleEvent::Answered(Err(e)) => self.judge(app, Err(e)),
            ToggleEvent::Ran(ran) => {
                let outcome = judge_wg_quick(&self.action, &self.tunnel.name, ran);
                self.judge(app, outcome)
            },
            ToggleEvent::StatusRead(ran) => {
                app.refresh_status(ran);
                self.phase = TogglePhase::Finished;
                ToggleAction::Finish
            },
        }
    }
}

/// The front end at the end of a run on these events, if they suffice.
pub open spec fn toggle_run(
    run: ToggleModel,
    app: AppModel,
    action: ToggleActionModel,
    events: Seq<ToggleEventModel>,
) -> Option<AppModel>
    decreases events.len(),
{
    if action is Finish {
        Some(app)
    } else if events.len() == 0 || !run.awaits(events[0]) {
        None
    } else {
        let (next, then_app, then_do) = run.after(app, events[0]);
        toggle_run(next, then_app, then_do, events.drop_first())
    }
}

/// The front end after a run that came to this outcome.
pub open spec fn toggled(
    app: AppModel,
    action: Seq<char>,
    tunnel: TunnelModel,
    outcome: Result<(), Seq<char>>,
    status: Result<OutputModel, Seq<char>>,
) -> AppModel {
    match outcome {
        Ok(_) => app.cleared().informing(success_text(action, tunnel.name)).with_status(status),
        Err(e) => app.failing(e),
    }
}

/// Root runs `wg-quick` itself: the front end shows how it went, and reads the
/// interfaces anew where it succeeded. No helper is asked.
pub proof fn law_root_runs_wg_quick(
    app: AppModel,
    action: Seq<char>,
    tunnel: TunnelModel,
    user: Result<OutputModel, Seq<char>>,
    ran: Result<OutputModel, Seq<char>>,
    status: Result<OutputModel, Seq<char>>,
)
    requires
        app.wg_quick_available,
        is_root(user),
    ensures
        ({
            let (run, app1, first) = toggle_start(app, action, tunnel);
            let events = seq![
                ToggleEventModel::UserChecked(user),
                ToggleEventModel::Ran(ran),
                ToggleEventModel::StatusRead(status),
            ];
            toggle_run(run, app1, first, events) == Some(
                toggled(app, action, tunnel, wg_quick_outcome(action, tunnel.name, ran), status),
            )
        }),
{
    reveal_with_fuel(toggle_run, 4);
    let e1 = ToggleEventModel::UserChecked(user);
    let e2 = ToggleEventModel::Ran(ran);
    let e3 = ToggleEventModel::StatusRead(status);
    assert(seq![e1, e2, e3].drop_first() =~= seq![e2, e3]);
    assert(seq![e2, e3].drop_first() =~= seq![e3]);
}

/// Any other user goes through the helper: what stopped it from answering is
/// shown, else its verdict.
pub proof fn law_others_ask_the_helper(
    app: AppModel,
    action: Seq<char>,
    tunnel: TunnelModel,
    user: Result<OutputModel, Seq<char>>,
    ensured: Result<(), Seq<char>>,
    reply: Result<ResponseModel, Seq<char>>,
    status: Result<OutputModel, Seq<char>>,
)
    requires
        app.wg_quick_available,
        !is_root(user),
    ensures
        ({
            let (run, app1, first) = toggle_start(app, action, tunnel);
            let events = seq![
                ToggleEventModel::UserChecked(user),
                ToggleEventModel::Ensured(ensured),
                ToggleEventModel::Answered(reply),
                ToggleEventModel::StatusRead(status),
            ];
            toggle_run(run, app1, first, events) == Some(
                toggled(
                    app,
                    action,
                    tunnel,
                    match ensured {
                        Ok(_) => helper_verdict(reply),
                        Err(e) => Err(e),
                    },
                    status,
                ),
            )
        }),
{
    reveal_with_fuel(toggle_run, 5);
    let e1 = ToggleEventModel::UserChecked(user);
    let e2 = ToggleEventModel::Ensured(ensured);
    let e3 = ToggleEventModel::Answered(reply);
    let e4 = ToggleEventModel::StatusRead(status);
    assert(seq![e1, e2, e3, e4].drop_first() =~= seq![e2, e3, e4]);
    assert(seq![e2, e3, e4].drop_first() =~= seq![e3, e4]);
    assert(seq![e3, e4].drop_first() =~= seq![e4]);
}

/// Without `wg-quick` nothing is run and nothing is asked.
pub proof fn law_without_wg_quick(
    app: AppModel,
    action: Seq<char>,
    tunnel: TunnelModel,
    events: Seq<ToggleEventModel>,
)
    requires
        !app.wg_quick_available,
    ensures
        ({
            let (run, app1, first) = toggle_start(app, action, tunnel);
            toggle_run(run, app1, first, events) == Some(
                app.failing("wg-quick is not available in PATH"@),
            )
        }),
{
}

/// What a run may change: `now` is `was` but for the messages and the interfaces
/// that are up. Either an error is shown, and nothing else has changed, or none
/// is, and the status line tells of the success.
pub open spec fn reported(
    was: AppModel,
    now: AppModel,
    action: Seq<char>,
    tunnel: TunnelModel,
) -> bool {
    ||| now.error is Some && now == was.failing(now.error.unwrap())
    ||| now == (AppModel { active: now.active, ..was }).cleared().informing(
        success_text(action, tunnel.name),
    )
}

/// The end of a run from its middle.
proof fn lemma_run_reports(
    was: AppModel,
    run: ToggleModel,
    app: AppModel,
    action: ToggleActionModel,
    events: Seq<ToggleEventModel>,
)
    requires
        if action is Finish {
            reported(was, app, run.action, run.tunnel)
        } else if run.phase == TogglePhase::ReadingStatus {
            app == was.cleared().informing(success_text(run.action, run.tunnel.name))
        } else {
            app == was.cleared()
        },
    ensures
        toggle_run(run, app, action, events) matches Some(now) ==> reported(
            was,
            now,
            run.action,
            run.tunnel,
        ),
    decreases events.len(),
{
    if action !is Finish && events.len() > 0 && run.awaits(events[0]) {
        let (next, then_app, then_do) = run.after(app, events[0]);
        lemma_run_reports(was, next, then_app, then_do, events.drop_first());
    }
}

/// However a run goes, the user is told of an error or of the success, never of
/// both, and the list of tunnels stays as it is. (Making sure of a helper, which
/// goes on between two steps of the run, is not part of it.)
pub proof fn law_run_reports(
    app: AppModel,
    action: Seq<char>,
    tunnel: TunnelModel,
    events: Seq<ToggleEventModel>,
)
    ensures
        ({
            let (run, app1, first) = toggle_start(app, action, tunnel);
            toggle_run(run, app1, first, events) matches Some(now) ==> {
                &&& reported(app, now, action, tunnel)
                &&& now.tunnels == app.tunnels
            }
        }),
{
    let (run, app1, first) = toggle_start(app, action, tunnel);
    lemma_run_reports(app, run, app1, first, events);
}

/// It makes no difference to the success whether root runs `wg-quick` or the
/// helper does. Nor does it to the message where `wg-quick` did not start or had
/// something to say.
pub proof fn law_helper_and_root_agree(
    action: Seq<char>,
    tunnel: TunnelModel,
    ran: Result<OutputModel, Seq<char>>,
)
    ensures
        ({
            let direct = wg_quick_outcome(action, tunnel.name, ran);
            let asked = helper_verdict(
                answer_of(wg_quick_response(action, tunnel.path, ran)),
            );
            &&& direct is Ok <==> asked is Ok
            &&& (ran matches Ok(output) ==> trimmed(readable(output.stderr)).len() > 0)
                ==> direct == asked
        }),
{
}

/// The actions of a run on these events, in order.
pub open spec fn toggle_actions(
    run: ToggleModel,
    app: AppModel,
    action: ToggleActionModel,
    events: Seq<ToggleEventModel>,
) -> Seq<ToggleActionModel>
    decreases events.len(),
{
    seq![action] + if action is Finish || events.len() == 0 || !run.awaits(events[0]) {
        Seq::empty()
    } else {
        let (next, then_app, then_do) = run.after(app, events[0]);
        toggle_actions(next, then_app, then_do, events.drop_first())
    }
}

/// Whether an action, where it is to run `wg-quick` or to have it run, is to do so
/// with this action on this file.
pub open spec fn runs_only(step: ToggleActionModel, action: Seq<char>, path: Seq<u8>) -> bool {
    &&& step matches ToggleActionModel::RunWgQuick { action: a, path: p } ==> a == action && p
        == path
    &&& step matches ToggleActionModel::Ask(request) ==> request == (RequestModel::WgQuick {
        action,
        path,
    })
}

/// What is run from the middle of a run.
proof fn lemma_runs_only(
    run: ToggleModel,
    app: AppModel,
    action: ToggleActionModel,
    events: Seq<ToggleEventModel>,
    i: int,
)
    requires
        runs_only(action, run.action, run.tunnel.path),
        0 <= i < toggle_actions(run, app, action, events).len(),
    ensures
        runs_only(toggle_actions(run, app, action, events)[i], run.action, run.tunnel.path),
    decreases events.len(),
{
    if i > 0 {
        let (next, then_app, then_do) = run.after(app, events[0]);
        assert(toggle_actions(run, app, action, events)[i] == toggle_actions(
            next,
            then_app,
            then_do,
            events.drop_first(),
        )[i - 1]);
        lemma_runs_only(next, then_app, then_do, events.drop_first(), i - 1);
    }
}

/// Whatever happens on the way, nothing is run but what was asked for: `wg-quick`
/// with that action on the tunnel's file, by root or by the helper.
pub proof fn law_run_is_what_was_asked_for(
    app: AppModel,
    action: Seq<char>,
    tunnel: TunnelModel,
    events: Seq<ToggleEventModel>,
    i: int,
)
    requires
        ({
            let (run, app1, first) = toggle_start(app, action, tunnel);
            0 <= i < toggle_actions(run, app1, first, events).len()
        }),
    ensures
        ({
            let (run, app1, first) = toggle_start(app, action, tunnel);
            let step = toggle_actions(run, app1, first, events)[i];
            &&& step matches ToggleActionModel::RunWgQuick { action: a, path: p } ==> a == action
                && p == tunnel.path
            &&& step matches ToggleActionModel::Ask(request) ==> request == (
            RequestModel::WgQuick { action, path: tunnel.path })
        }),
{
    let (run, app1, first) = toggle_start(app, action, tunnel);
    lemma_runs_only(run, app1, first, events, i);
}

/// Root checks who it is, runs `wg-quick` itself, and reads the interfaces anew iff
/// that succeeded.
pub proof fn law_steps_of_root(
    app: AppModel,
    action: Seq<char>,
    tunnel: TunnelModel,
    user: Result<OutputModel, Seq<char>>,
    ran: Result<OutputModel, Seq<char>>,
    status: Result<OutputModel, Seq<char>>,
)
    requires
        app.wg_quick_available,
        is_root(user),
    ensures
        ({
            let (run, app1, first) = toggle_start(app, action, tunnel);
            let events = seq![
                ToggleEventModel::UserChecked(user),
                ToggleEventModel::Ran(ran),
                ToggleEventModel::StatusRead(status),
            ];
            toggle_actions(run, app1, first, events) == seq![
                ToggleActionModel::CheckUser,
                ToggleActionModel::RunWgQuick { action, path: tunnel.path },
            ] + if ran matches Ok(output) && output.success {
                seq![ToggleActionModel::ReadStatus, ToggleActionModel::Finish]
            } else {
                seq![ToggleActionModel::Finish]
            }
        }),
{
    reveal_with_fuel(toggle_actions, 5);
    let e1 = ToggleEventModel::UserChecked(user);
    let e2 = ToggleEventModel::Ran(ran);
    let e3 = ToggleEventModel::StatusRead(status);
    assert(seq![e1, e2, e3].drop_first() =~= seq![e2, e3]);
    assert(seq![e2, e3].drop_first() =~= seq![e3]);
}

/// Any other user checks who it is, makes sure of a helper and asks it, and reads
/// the interfaces anew iff the helper says that it is done.
pub proof fn law_steps_of_others(
    app: AppModel,
    action: Seq<char>,
    tunnel: TunnelModel,
    user: Result<OutputModel, Seq<char>>,
    ensured: Result<(), Seq<char>>,
    reply: Result<ResponseModel, Seq<char>>,
    status: Result<OutputModel, Seq<char>>,
)
    requires
        app.wg_quick_available,
        !is_root(user),
    ensures
        ({
            let (run, app1, first) = toggle_start(app, action, tunnel);
            let events = seq![
                ToggleEventModel::UserChecked(user),
                ToggleEventModel::Ensured(ensured),
                ToggleEventModel::Answered(reply),
                ToggleEventModel::StatusRead(status),
            ];
            let ask = ToggleActionModel::Ask(RequestModel::WgQuick { action, path: tunnel.path });
            toggle_actions(run, app1, first, events) == seq![
                ToggleActionModel::CheckUser,
                ToggleActionModel::EnsureHelper,
            ] + match (ensured, reply) {
                (Err(_), _) => seq![ToggleActionModel::Finish],
                (_, Ok(ResponseModel::Done)) => seq![
                    ask,
                    ToggleActionModel::ReadStatus,
                    ToggleActionModel::Finish,
                ],
                _ => seq![ask, ToggleActionModel::Finish],
            }
        }),
{
    reveal_with_fuel(toggle_actions, 6);
    let e1 = ToggleEventModel::UserChecked(user);
    let e2 = ToggleEventModel::Ensured(ensured);
    let e3 = ToggleEventModel::Answered(reply);
    let e4 = ToggleEventModel::StatusRead(status);
    assert(seq![e1, e2, e3, e4].drop_first() =~= seq![e2, e3, e4]);
    assert(seq![e2, e3, e4].drop_first() =~= seq![e3, e4]);
    assert(seq![e3, e4].drop_first() =~= seq![e4]);
}

/// Where `wg-quick` is missing, the user is told so, and nothing else happens.
pub proof fn law_steps_without_wg_quick(
    app: AppModel,
    action: Seq<char>,
    tunnel: TunnelModel,
    events: Seq<ToggleEventModel>,
)
    requires
        !app.wg_quick_available,
    ensures
        ({
            let (run, app1, first) = toggle_start(app, action, tunnel);
            &&& toggle_actions(run, app1, first, events) == seq![ToggleActionModel::Finish]
            &&& app1 == (AppModel { error: Some("wg-quick is not available in PATH"@), ..app })
        }),
{
}

/// What the user gets to see after root has run `wg-quick`: the success and the
/// interfaces that are up then, or the failure in words. Nothing else changes.
pub proof fn law_outcome_for_root(
    app: AppModel,
    action: Seq<char>,
    tunnel: TunnelModel,
    user: Result<OutputModel, Seq<char>>,
    ran: Result<OutputModel, Seq<char>>,
    status: Result<OutputModel, Seq<char>>,
)
    requires
        app.wg_quick_available,
        is_root(user),
    ensures
        ({
            let (run, app1, first) = toggle_start(app, action, tunnel);
            let events = seq![
                ToggleEventModel::UserChecked(user),
                ToggleEventModel::Ran(ran),
                ToggleEventModel::StatusRead(status),
            ];
            toggle_run(run, app1, first, events) matches Some(now) && match ran {
                Err(e) => now == (AppModel {
                    error: Some("Failed to start wg-quick: "@ + e),
                    ..app
                }),
                Ok(output) => if output.success {
                    now == (AppModel {
                        error: None,
                        info: "Successfully ran wg-quick "@ + action + " "@ + tunnel.name + "."@,
                        active: now.active,
                        ..app
                    }) && forall|name: Seq<char>| #[trigger]
                        now.active.contains(name) <==> (status matches Ok(o) && o.success && words(
                            readable(o.stdout),
                        ).contains(name))
                } else {
                    let complaint = trimmed(readable(output.stderr));
                    now == (AppModel {
                        error: Some(
                            if complaint.len() > 0 {
                                "wg-quick "@ + action + " failed: "@ + complaint
                            } else {
                                "wg-quick "@ + action + " failed for "@ + tunnel.name
                            },
                        ),
                        ..app
                    })
                },
            }
        }),
{
    law_root_runs_wg_quick(app, action, tunnel, user, ran, status);
    assert forall|name: Seq<char>| #[trigger]
        interfaces_up(status).contains(name) <==> (status matches Ok(o) && o.success && words(
            readable(o.stdout),
        ).contains(name)) by {
        law_interfaces(status, name);
    }
}

/// What any other user gets to see: why no helper could be had, or what the helper
/// failed with, or the success and the interfaces that are up then. Nothing else
/// changes.
pub proof fn law_outcome_for_others(
    app: AppModel,
    action: Seq<char>,
    tunnel: TunnelModel,
    user: Result<OutputModel, Seq<char>>,
    ensured: Result<(), Seq<char>>,
    reply: Result<ResponseModel, Seq<char>>,
    status: Result<OutputModel, Seq<char>>,
)
    requires
        app.wg_quick_available,
        !is_root(user),
    ensures
        ({
            let (run, app1, first) = toggle_start(app, action, tunnel);
            let events = seq![
                ToggleEventModel::UserChecked(user),
                ToggleEventModel::Ensured(ensured),
                ToggleEventModel::Answered(reply),
                ToggleEventModel::StatusRead(status),
            ];
            toggle_run(run, app1, first, events) matches Some(now) && match (ensured, reply) {
                (Err(e), _) => now == (AppModel { error: Some(e), ..app }),
                (_, Err(e)) => now == (AppModel { error: Some(e), ..app }),
                (_, Ok(ResponseModel::Done)) => now == (AppModel {
                    error: None,
                    info: "Successfully ran wg-quick "@ + action + " "@ + tunnel.name + "."@,
                    active: now.active,
                    ..app
                }) && forall|name: Seq<char>| #[trigger]
                    now.active.contains(name) <==> (status matches Ok(o) && o.success && words(
                        readable(o.stdout),
                    ).contains(name)),
                (_, Ok(_)) => now == (AppModel {
                    error: Some("Unexpected helper response"@),
                    ..app
                }),
            }
        }),
{
    law_others_ask_the_helper(app, action, tunnel, user, ensured, reply, status);
    assert forall|name: Seq<char>| #[trigger]
        interfaces_up(status).contains(name) <==> (status matches Ok(o) && o.success && words(
            readable(o.stdout),
        ).contains(name)) by {
        law_interfaces(status, name);
    }
}

/// What `run_wg_quick` returns remembers the action and the tunnel that it was
/// called with.
pub proof fn law_run_remembers(
    app: &mut WireSmartApp,
    action: &str,
    tunnel: &Tunnel,
    res: (Toggle, ToggleAction),
)
    requires
        call_ensures(WireSmartApp::run_wg_quick, (app, action, tunnel), res),
    ensures
        res.0.action@ == action@,
        res.0.tunnel.name@ == tunnel.name@,
        res.0.tunnel.path@ == tunnel.path@,
        old(app).wg_quick_available ==> res.1 is CheckUser && final(app).error_message is None,
        !old(app).wg_quick_available ==> res.1 is Finish && (final(app).error_message matches Some(
            e,
        ) && e@ == "wg-quick is not available in PATH"@),
{
    law_front_end_holds_its_fields(*old(app), Seq::empty(), 0);
    law_front_end_holds_its_fields(*final(app), Seq::empty(), 0);
}

/// What `step` returns to be run, by this process or by the helper, is the action of
/// the run on the file of its tunnel. The run keeps both.
pub proof fn law_step_runs_what_was_asked_for(
    run: &mut Toggle,
    app: &mut WireSmartApp,
    event: ToggleEvent,
    res: ToggleAction,
)
    requires
        call_ensures(Toggle::step, (run, app, event), res),
    ensures
        final(run).action@ == old(run).action@,
        final(run).tunnel.name@ == old(run).tunnel.name@,
        final(run).tunnel.path@ == old(run).tunnel.path@,
        res matches ToggleAction::RunWgQuick { action, path } ==> action@ == old(run).action@
            && path@ == old(run).tunnel.path@,
        res matches ToggleAction::Ask(request) ==> (request matches HelperRequest::WgQuick {
            action,
            path,
        } && action@ == old(run).action@ && path@ == old(run).tunnel.path@),
        event matches ToggleEvent::UserChecked(ran) ==> (res is RunWgQuick <==> is_root(
            output_result(ran),
        )) && (res is EnsureHelper <==> !is_root(output_result(ran))),
        event matches ToggleEvent::Ensured(ensured) ==> (res is Ask <==> ensured is Ok),
{
}

/// Whether an event is what comes of an action.
pub open spec fn toggle_brings(action: ToggleActionModel, event: ToggleEventModel) -> bool {
    match action {
        ToggleActionModel::CheckUser => event is UserChecked,
        ToggleActionModel::EnsureHelper => event is Ensured,
        ToggleActionModel::Ask(_) => event is Answered,
        ToggleActionModel::RunWgQuick { .. } => event is Ran,
        ToggleActionModel::ReadStatus => event is StatusRead,
        ToggleActionModel::Finish => false,
    }
}

/// A run waits for what its last action brings, from its start to its end.
pub proof fn law_run_awaits_its_action(
    app: AppModel,
    action: Seq<char>,
    tunnel: TunnelModel,
    run: ToggleModel,
    event: ToggleEventModel,
    next: ToggleEventModel,
)
    ensures
        ({
            let (first, _, start) = toggle_start(app, action, tunnel);
            toggle_brings(start, next) ==> first.awaits(next)
        }),
        ({
            let (then_run, _, then_do) = run.after(app, event);
            toggle_brings(then_do, next) ==> then_run.awaits(next)
        }),
{
}

} // verus!
