//! The privileged helper's side of a request: from what is asked to the answer.

use crate::commands::{judge_wg_quick, output_result, wg_quick_outcome};
use crate::commands::{CommandOutput, OutputModel};
use crate::listing::{cannot_read, cannot_read_message, entry_failed, entry_failed_message};
use crate::listing::{pick_files, picked, DirectoryReport, Looker, ReportModel};
use crate::paths::{path_bytes, ConfigPath};
use crate::protocol::{HelperRequest, HelperResponse, RequestModel, ResponseModel};
use crate::text::{readable, trimmed};
use vstd::pervasive::unreached;
use vstd::prelude::*;

verus! {

/// A request that is being handled.
pub enum Handling {
    /// The directory at `next` is being read. `paths` were found before it.
    Listing { dirs: Vec<ConfigPath>, next: usize, paths: Vec<ConfigPath> },
    /// `wg-quick` runs.
    Running { action: String, path: ConfigPath },
    /// The answer is known.
    Answered,
}

/// What a `Handling` holds.
#[verifier::ext_equal]
pub enum HandlingModel {
    Listing { dirs: Seq<Seq<u8>>, next: int, paths: Seq<Seq<u8>> },
    Running { action: Seq<char>, path: Seq<u8> },
    Answered,
}

impl View for Handling {
    type V = HandlingModel;

    open spec fn view(&self) -> HandlingModel {
        match *self {
            Handling::Listing { dirs, next, paths } => HandlingModel::Listing {
                dirs: path_bytes(dirs@),
                next: next as int,
                paths: path_bytes(paths@),
            },
            Handling::Running { action, path } => HandlingModel::Running {
                action: action@,
                path: path@,
            },
            Handling::Answered => HandlingModel::Answered,
        }
    }
}

/// What came of an action.
pub enum HandlerEvent {
    /// The directory was looked at.
    Inspected(DirectoryReport),
    /// `wg-quick` was run, or why it did not start.
    Ran(Result<CommandOutput, String>),
}

/// What a `HandlerEvent` holds.
#[verifier::ext_equal]
pub enum HandlerEventModel {
    Inspected(ReportModel),
    Ran(Result<OutputModel, Seq<char>>),
}

impl View for HandlerEvent {
    type V = HandlerEventModel;

    open spec fn view(&self) -> HandlerEventModel {
        match *self {
            HandlerEvent::Inspected(report) => HandlerEventModel::Inspected(report@),
            HandlerEvent::Ran(r) => HandlerEventModel::Ran(output_result(r)),
        }
    }
}

/// What is to be done next.
pub enum HandlerAction {
    /// Read this directory.
    Inspect(ConfigPath),
    /// Run `wg-quick` with this action on this file.
    RunWgQuick { action: String, path: ConfigPath },
    /// Answer with this.
    Respond(HelperResponse),
}

/// What a `HandlerAction` holds.
#[verifier::ext_equal]
pub enum HandlerActionModel {
    Inspect(Seq<u8>),
    RunWgQuick { action: Seq<char>, path: Seq<u8> },
    Respond(ResponseModel),
}

impl View for HandlerAction {
    type V = HandlerActionModel;

    open spec fn view(&self) -> HandlerActionModel {
        match *self {
            HandlerAction::Inspect(dir) => HandlerActionModel::Inspect(dir@),
            HandlerAction::RunWgQuick { action, path } => HandlerActionModel::RunWgQuick {
                action: action@,
                path: path@,
            },
            HandlerAction::Respond(response) => HandlerActionModel::Respond(response@),
        }
    }
}

/// The end of a request.
pub open spec fn responds(response: ResponseModel) -> (HandlingModel, HandlerActionModel) {
    (HandlingModel::Answered, HandlerActionModel::Respond(response))
}

/// Goes on with the directory at `next`, or answers where there is none.
pub open spec fn looks_at(dirs: Seq<Seq<u8>>, next: int, paths: Seq<Seq<u8>>) -> (
    HandlingModel,
    HandlerActionModel,
) {
    if next < dirs.len() {
        (HandlingModel::Listing { dirs, next, paths }, HandlerActionModel::Inspect(dirs[next]))
    } else {
        responds(ResponseModel::Configs { paths })
    }
}

/// How a request begins.
pub open spec fn handling_start(request: RequestModel) -> (HandlingModel, HandlerActionModel) {
    match request {
        RequestModel::Ping => responds(ResponseModel::Pong),
        RequestModel::ListConfigs { dirs } => looks_at(dirs, 0, Seq::empty()),
        RequestModel::WgQuick { action, path } => (
            HandlingModel::Running { action, path },
            HandlerActionModel::RunWgQuick { action, path },
        ),
        RequestModel::Quit => responds(ResponseModel::Done),
    }
}

/// Whether a request in this state waits for an event of this kind.
pub open spec fn handling_awaits(state: HandlingModel, event: HandlerEventModel) -> bool {
    match event {
        HandlerEventModel::Inspected(_) => state is Listing && 0 <= state->next
            < state->dirs.len(),
        HandlerEventModel::Ran(_) => state is Running,
    }
}

/// The files that the helper reports of one directory, or why it gives up.
pub open spec fn helper_listing_of(dir: Seq<u8>, report: ReportModel) -> Result<
    Seq<Seq<u8>>,
    Seq<char>,
> {
    match report {
        ReportModel::Missing => Ok(Seq::empty()),
        ReportModel::Unreadable { denied, reason } => Err(cannot_read(dir, reason)),
        ReportModel::Entries { entries, failure } => match failure {
            Some(e) => Err(entry_failed(e)),
            None => Ok(picked(Looker::Helper, entries)),
        },
    }
}

/// The answer to a request to run `wg-quick`.
pub open spec fn wg_quick_response(
    action: Seq<char>,
    path: Seq<u8>,
    ran: Result<OutputModel, Seq<char>>,
) -> ResponseModel {
    match wg_quick_outcome(action, readable(path), ran) {
        Ok(_) => ResponseModel::Done,
        Err(message) => ResponseModel::Error { message },
    }
}

/// The state and the action after an event.
pub open spec fn handling_next(state: HandlingModel, event: HandlerEventModel) -> (
    HandlingModel,
    HandlerActionModel,
) {
    match (state, event) {
        (
            HandlingModel::Listing { dirs, next, paths },
            HandlerEventModel::Inspected(report),
        ) => match helper_listing_of(dirs[next], report) {
            Ok(found) => looks_at(dirs, next + 1, paths + found),
            Err(message) => responds(ResponseModel::Error { message }),
        },
        (HandlingModel::Running { action, path }, HandlerEventModel::Ran(ran)) => responds(
            wg_quick_response(action, path, ran),
        ),
        _ => arbitrary(),
    }
}

/// Goes on with the directory at `next`, or answers where there is none.
fn look_at(dirs: Vec<ConfigPath>, next: usize, paths: Vec<ConfigPath>) -> (res: (
    Handling,
    HandlerAction,
))
    requires
        next <= dirs@.len(),
    ensures
        (res.0@, res.1@) == looks_at(path_bytes(dirs@), next as int, path_bytes(paths@)),
{
    if next < dirs.len() {
        let dir = dirs[next].clone();
        assert(path_bytes(dirs@)[next as int] == dirs@[next as int]@);
        (Handling::Listing { dirs, next, paths }, HandlerAction::Inspect(dir))
    } else {
        (Handling::Answered, HandlerAction::Respond(HelperResponse::Configs { paths }))
    }
}

/// Begins to handle a request.
pub fn handle_helper_request(request: HelperRequest) -> (res: (Handling, HandlerAction))
    ensures
        (res.0@, res.1@) == handling_start(request@),
{
    match request {
        HelperRequest::Ping => (
            Handling::Answered,
            HandlerAction::Respond(HelperResponse::Pong),
        ),
        HelperRequest::ListConfigs { dirs } => {
            let none: Vec<ConfigPath> = Vec::new();
            assert(path_bytes(none@) =~= Seq::<Seq<u8>>::empty());
            look_at(dirs, 0, none)
        },
        HelperRequest::WgQuick { action, path } => {
            let run = HandlerAction::RunWgQuick { action: action.clone(), path: path.clone() };
            (Handling::Running { action, path }, run)
        },
        HelperRequest::Quit => (
            Handling::Answered,
            HandlerAction::Respond(HelperResponse::Done),
        ),
    }
}

impl Handling {
    /// Goes on after an event.
    pub fn step(self, event: HandlerEvent) -> (res: (Handling, HandlerAction))
        requires
            handling_awaits(self@, event@),
        ensures
            (res.0@, res.1@) == handling_next(self@, event@),
    {
        match (self, event) {
            (Handling::Listing { dirs, next, paths }, HandlerEvent::Inspected(report)) => {
                let ghost before = path_bytes(paths@);
                assert(next < dirs.len());
                assert(path_bytes(dirs@)[next as int] == dirs@[next as int]@);
                match report {
                    DirectoryReport::Missing => {
                        assert(before + Seq::<Seq<u8>>::empty() =~= before);
                        look_at(dirs, next + 1, paths)
                    },
                    DirectoryReport::Unreadable { denied: _, reason } => {
                        let message = cannot_read_message(&dirs[next], &reason);
                        (
                            Handling::Answered,
                            HandlerAction::Respond(HelperResponse::Error { message }),
                        )
                    },
                    DirectoryReport::Entries { entries, failure } => match failure {
                        Some(e) => {
                            let message = entry_failed_message(&e);
                            (
                                Handling::Answered,
                                HandlerAction::Respond(HelperResponse::Error { message }),
                            )
                        },
                        None => {
                            let mut paths = paths;
                            let mut found = pick_files(Looker::Helper, entries);
                            let ghost more = path_bytes(found@);
                            paths.append(&mut found);
                            assert(path_bytes(paths@) =~= before + more);
                            look_at(dirs, next + 1, paths)
                        },
                    },
                }
            },
            (Handling::Running { action, path }, HandlerEvent::Ran(ran)) => {
                let subject = path.display();
                let response = match judge_wg_quick(&action, &subject, ran) {
                    Ok(_) => HelperResponse::Done,
                    Err(message) => HelperResponse::Error { message },
                };
                (Handling::Answered, HandlerAction::Respond(response))
            },
            _ => unreached(),
        }
    }
}

/// The answer that a request comes to on these events, if they suffice.
pub open spec fn handling_answer(
    state: HandlingModel,
    action: HandlerActionModel,
    events: Seq<HandlerEventModel>,
) -> Option<ResponseModel>
    decreases events.len(),
{
    match action {
        HandlerActionModel::Respond(response) => Some(response),
        _ => if events.len() == 0 || !handling_awaits(state, events[0]) {
            None
        } else {
            let (next, then_do) = handling_next(state, events[0]);
            handling_answer(next, then_do, events.drop_first())
        },
    }
}

/// The files that the helper reports of several directories: those of each in
/// turn, unless it gives up at one of them.
pub open spec fn helper_listing(dirs: Seq<Seq<u8>>, reports: Seq<ReportModel>) -> Result<
    Seq<Seq<u8>>,
    Seq<char>,
>
    decreases dirs.len(),
{
    if dirs.len() == 0 || reports.len() == 0 {
        Ok(Seq::empty())
    } else {
        match helper_listing(dirs.drop_last(), reports.drop_last()) {
            Ok(paths) => match helper_listing_of(dirs.last(), reports.last()) {
                Ok(found) => Ok(paths + found),
                Err(message) => Err(message),
            },
            Err(message) => Err(message),
        }
    }
}

/// The answer that carries a listing.
pub open spec fn listing_response(listing: Result<Seq<Seq<u8>>, Seq<char>>) -> ResponseModel {
    match listing {
        Ok(paths) => ResponseModel::Configs { paths },
        Err(message) => ResponseModel::Error { message },
    }
}

/// The events that bring these reports.
pub open spec fn inspections(reports: Seq<ReportModel>) -> Seq<HandlerEventModel> {
    reports.map_values(|r: ReportModel| HandlerEventModel::Inspected(r))
}

/// Once the helper gives up, later directories change nothing.
proof fn lemma_listing_stays_failed(dirs: Seq<Seq<u8>>, reports: Seq<ReportModel>, k: int)
    requires
        dirs.len() == reports.len(),
        0 <= k <= dirs.len(),
        helper_listing(dirs.take(k), reports.take(k)) is Err,
    ensures
        helper_listing(dirs, reports) == helper_listing(dirs.take(k), reports.take(k)),
    decreases dirs.len(),
{
    if k == dirs.len() {
        assert(dirs.take(k) =~= dirs);
        assert(reports.take(k) =~= reports);
    } else {
        let d = dirs.drop_last();
        let r = reports.drop_last();
        assert(d.take(k) =~= dirs.take(k));
        assert(r.take(k) =~= reports.take(k));
        lemma_listing_stays_failed(d, r, k);
    }
}

/// Listing from the directory at `k` on.
proof fn lemma_listing_from(
    dirs: Seq<Seq<u8>>,
    reports: Seq<ReportModel>,
    k: int,
    paths: Seq<Seq<u8>>,
)
    requires
        dirs.len() == reports.len(),
        0 <= k <= dirs.len(),
        helper_listing(dirs.take(k), reports.take(k)) == Ok::<Seq<Seq<u8>>, Seq<char>>(paths),
    ensures
        ({
            let (state, action) = looks_at(dirs, k, paths);
            handling_answer(state, action, inspections(reports.skip(k))) == Some(
                listing_response(helper_listing(dirs, reports)),
            )
        }),
    decreases dirs.len() - k,
{
    let (state, action) = looks_at(dirs, k, paths);
    let events = inspections(reports.skip(k));
    reveal_with_fuel(handling_answer, 2);
    if k == dirs.len() {
        assert(dirs.take(k) =~= dirs);
        assert(reports.take(k) =~= reports);
    } else {
        assert(events[0] == HandlerEventModel::Inspected(reports[k]));
        assert(events.drop_first() =~= inspections(reports.skip(k + 1)));
        assert(dirs.take(k + 1).drop_last() =~= dirs.take(k));
        assert(reports.take(k + 1).drop_last() =~= reports.take(k));
        match helper_listing_of(dirs[k], reports[k]) {
            Ok(found) => {
                lemma_listing_from(dirs, reports, k + 1, paths + found);
            },
            Err(message) => {
                lemma_listing_stays_failed(dirs, reports, k + 1);
            },
        }
    }
}

/// Asked to list directories, the helper answers with the files that have the
/// extension `conf`, directory by directory, or with the first failure.
pub proof fn law_helper_lists_all(dirs: Seq<Seq<u8>>, reports: Seq<ReportModel>)
    requires
        dirs.len() == reports.len(),
    ensures
        ({
            let (state, action) = handling_start(RequestModel::ListConfigs { dirs });
            handling_answer(state, action, inspections(reports)) == Some(
                listing_response(helper_listing(dirs, reports)),
            )
        }),
{
    assert(reports.skip(0) =~= reports);
    lemma_listing_from(dirs, reports, 0, Seq::empty());
}

/// Listing the directories `a` and then `b` gives the files of `a` and then those
/// of `b`, or the first failure.
pub proof fn law_listings_add_up(
    a: Seq<Seq<u8>>,
    b: Seq<Seq<u8>>,
    of_a: Seq<ReportModel>,
    of_b: Seq<ReportModel>,
)
    requires
        a.len() == of_a.len(),
        b.len() == of_b.len(),
    ensures
        helper_listing(a + b, of_a + of_b) == match (
            helper_listing(a, of_a),
            helper_listing(b, of_b),
        ) {
            (Err(message), _) => Err::<Seq<Seq<u8>>, Seq<char>>(message),
            (_, Err(message)) => Err(message),
            (Ok(paths), Ok(more)) => Ok(paths + more),
        },
    decreases b.len(),
{
    if b.len() == 0 {
        assert(a + b =~= a);
        assert(of_a + of_b =~= of_a);
        if let Ok(paths) = helper_listing(a, of_a) {
            assert(paths + Seq::<Seq<u8>>::empty() =~= paths);
        }
    } else {
        law_listings_add_up(a, b.drop_last(), of_a, of_b.drop_last());
        assert((a + b).drop_last() =~= a + b.drop_last());
        assert((of_a + of_b).drop_last() =~= of_a + of_b.drop_last());
        if let (Ok(paths), Ok(more), Ok(found)) = (
            helper_listing(a, of_a),
            helper_listing(b.drop_last(), of_b.drop_last()),
            helper_listing_of(b.last(), of_b.last()),
        ) {
            assert(paths + more + found =~= paths + (more + found));
        }
    }
}

/// Asked to run `wg-quick`, the helper answers with how it went.
pub proof fn law_helper_runs_wg_quick(
    action: Seq<char>,
    path: Seq<u8>,
    ran: Result<OutputModel, Seq<char>>,
)
    ensures
        ({
            let (state, first) = handling_start(RequestModel::WgQuick { action, path });
            handling_answer(state, first, seq![HandlerEventModel::Ran(ran)]) == Some(
                wg_quick_response(action, path, ran),
            )
        }),
{
    reveal_with_fuel(handling_answer, 2);
}

/// The actions of handling a request on these events, in order.
pub open spec fn handling_actions(
    state: HandlingModel,
    action: HandlerActionModel,
    events: Seq<HandlerEventModel>,
) -> Seq<HandlerActionModel>
    decreases events.len(),
{
    seq![action] + if action is Respond || events.len() == 0 || !handling_awaits(
        state,
        events[0],
    ) {
        Seq::empty()
    } else {
        let (next, then_do) = handling_next(state, events[0]);
        handling_actions(next, then_do, events.drop_first())
    }
}

/// The directories that are read from the one at `next` on.
proof fn lemma_reads_in_order(
    dirs: Seq<Seq<u8>>,
    next: int,
    paths: Seq<Seq<u8>>,
    events: Seq<HandlerEventModel>,
    i: int,
)
    requires
        0 <= next <= dirs.len(),
        ({
            let (state, action) = looks_at(dirs, next, paths);
            0 <= i < handling_actions(state, action, events).len()
        }),
    ensures
        ({
            let (state, action) = looks_at(dirs, next, paths);
            let step = handling_actions(state, action, events)[i];
            &&& step !is RunWgQuick
            &&& step matches HandlerActionModel::Inspect(dir) ==> next + i < dirs.len() && dir
                == dirs[next + i]
        }),
    decreases events.len(),
{
    let (state, action) = looks_at(dirs, next, paths);
    reveal_with_fuel(handling_actions, 2);
    if i > 0 {
        let (then_state, then_do) = handling_next(state, events[0]);
        let rest = handling_actions(then_state, then_do, events.drop_first());
        assert(handling_actions(state, action, events)[i] == rest[i - 1]);
        if let HandlerEventModel::Inspected(report) = events[0] {
            if let Ok(found) = helper_listing_of(dirs[next], report) {
                lemma_reads_in_order(dirs, next + 1, paths + found, events.drop_first(), i - 1);
            }
        }
    }
}

/// Whatever happens on the way, the helper does nothing but what it was asked: it
/// runs `wg-quick` with the action and on the file of the request, and reads the
/// directories of the request in their order. It does the one only where it was
/// asked to run `wg-quick`, and the other only where it was asked to list.
pub proof fn law_helper_does_what_it_was_asked(
    request: RequestModel,
    events: Seq<HandlerEventModel>,
    i: int,
)
    requires
        ({
            let (state, action) = handling_start(request);
            0 <= i < handling_actions(state, action, events).len()
        }),
    ensures
        ({
            let (state, action) = handling_start(request);
            let step = handling_actions(state, action, events)[i];
            &&& step matches HandlerActionModel::RunWgQuick { action: a, path: p } ==> i == 0
                && request == (RequestModel::WgQuick { action: a, path: p })
            &&& step matches HandlerActionModel::Inspect(dir) ==> (request matches
                RequestModel::ListConfigs { dirs } && i < dirs.len() && dir == dirs[i])
        }),
{
    let (state, action) = handling_start(request);
    reveal_with_fuel(handling_actions, 3);
    if let RequestModel::ListConfigs { dirs } = request {
        lemma_reads_in_order(dirs, 0, Seq::empty(), events, i);
    }
}

/// What is asked for is done: `wg-quick` is run as asked, and a request that takes
/// no work is answered at once.
pub proof fn law_helper_begins_at_once(action: Seq<char>, path: Seq<u8>)
    ensures
        handling_start(RequestModel::WgQuick { action, path }).1 == (
        HandlerActionModel::RunWgQuick { action, path }),
        handling_start(RequestModel::Ping).1 == HandlerActionModel::Respond(ResponseModel::Pong),
        handling_start(RequestModel::Quit).1 == HandlerActionModel::Respond(ResponseModel::Done),
{
}

/// Asked to list directories, the helper reads each of them, in order, and then
/// answers with the files, unless it gives up at one of them.
pub proof fn law_helper_reads_every_directory(dirs: Seq<Seq<u8>>, reports: Seq<ReportModel>)
    requires
        dirs.len() == reports.len(),
    ensures
        helper_listing(dirs, reports) matches Ok(paths) ==> {
            let (state, action) = handling_start(RequestModel::ListConfigs { dirs });
            handling_actions(state, action, inspections(reports)) == dirs.map_values(
                |dir: Seq<u8>| HandlerActionModel::Inspect(dir),
            ).push(HandlerActionModel::Respond(ResponseModel::Configs { paths }))
        },
{
    if let Ok(paths) = helper_listing(dirs, reports) {
        assert(reports.skip(0) =~= reports);
        assert(dirs.skip(0) =~= dirs);
        assert(helper_listing(dirs.take(0), reports.take(0)) == Ok::<Seq<Seq<u8>>, Seq<char>>(
            Seq::empty(),
        ));
        lemma_reads_from(dirs, reports, 0, Seq::empty());
    }
}

/// The actions of a listing that does not fail, from the directory at `k` on.
proof fn lemma_reads_from(
    dirs: Seq<Seq<u8>>,
    reports: Seq<ReportModel>,
    k: int,
    paths: Seq<Seq<u8>>,
)
    requires
        dirs.len() == reports.len(),
        0 <= k <= dirs.len(),
        helper_listing(dirs.take(k), reports.take(k)) == Ok::<Seq<Seq<u8>>, Seq<char>>(paths),
        helper_listing(dirs, reports) is Ok,
    ensures
        ({
            let (state, action) = looks_at(dirs, k, paths);
            handling_actions(state, action, inspections(reports.skip(k))) == dirs.skip(
                k,
            ).map_values(|dir: Seq<u8>| HandlerActionModel::Inspect(dir)).push(
                HandlerActionModel::Respond(
                    ResponseModel::Configs { paths: helper_listing(dirs, reports)->Ok_0 },
                ),
            )
        }),
    decreases dirs.len() - k,
{
    let (state, action) = looks_at(dirs, k, paths);
    let events = inspections(reports.skip(k));
    let all = |d: Seq<Seq<u8>>| d.map_values(|dir: Seq<u8>| HandlerActionModel::Inspect(dir));
    reveal_with_fuel(handling_actions, 2);
    if k == dirs.len() {
        assert(dirs.take(k) =~= dirs);
        assert(reports.take(k) =~= reports);
        assert(all(dirs.skip(k)) =~= Seq::<HandlerActionModel>::empty());
    } else {
        assert(events[0] == HandlerEventModel::Inspected(reports[k]));
        assert(events.drop_first() =~= inspections(reports.skip(k + 1)));
        assert(dirs.take(k + 1).drop_last() =~= dirs.take(k));
        assert(reports.take(k + 1).drop_last() =~= reports.take(k));
        match helper_listing_of(dirs[k], reports[k]) {
            Ok(found) => {
                lemma_reads_from(dirs, reports, k + 1, paths + found);
                assert(all(dirs.skip(k)) =~= seq![action] + all(dirs.skip(k + 1)));
            },
            Err(message) => {
                lemma_listing_stays_failed(dirs, reports, k + 1);
            },
        }
    }
}

/// Of one directory the helper reports the files with the extension `conf`, and
/// none where the directory is missing. It gives up where the directory or an entry
/// of it cannot be read, and says why. With `law_listings_add_up` this is what it
/// reports of any directories.
pub proof fn law_listing_of_one_directory(dir: Seq<u8>, report: ReportModel)
    ensures
        helper_listing(seq![dir], seq![report]) == match report {
            ReportModel::Missing => Ok::<Seq<Seq<u8>>, Seq<char>>(Seq::empty()),
            ReportModel::Unreadable { reason, .. } => Err(
                "Cannot read "@ + readable(dir) + ": "@ + reason,
            ),
            ReportModel::Entries { failure: Some(e), .. } => Err(
                "Failed reading directory entry: "@ + e,
            ),
            ReportModel::Entries { entries, failure: None } => Ok(picked(Looker::Helper, entries)),
        },
        helper_listing(Seq::empty(), Seq::empty()) == Ok::<Seq<Seq<u8>>, Seq<char>>(Seq::empty()),
{
    reveal_with_fuel(helper_listing, 2);
    let none = Seq::<Seq<u8>>::empty();
    assert(seq![dir].drop_last() =~= none);
    if let ReportModel::Entries { entries, failure } = report {
        assert(none + picked(Looker::Helper, entries) =~= picked(Looker::Helper, entries));
    }
    assert(none + none =~= none);
}

/// Asked to list directories, the helper answers with the files, or with why it
/// gave up.
pub proof fn law_answer_to_a_listing(dirs: Seq<Seq<u8>>, reports: Seq<ReportModel>)
    requires
        dirs.len() == reports.len(),
    ensures
        ({
            let (state, action) = handling_start(RequestModel::ListConfigs { dirs });
            handling_answer(state, action, inspections(reports)) == Some(
                match helper_listing(dirs, reports) {
                    Ok(paths) => ResponseModel::Configs { paths },
                    Err(message) => ResponseModel::Error { message },
                },
            )
        }),
{
    law_helper_lists_all(dirs, reports);
}

/// Asked to run `wg-quick`, the helper answers that it is done iff the command
/// succeeded, and otherwise with why it did not start, what it complained about, or
/// what it failed for.
pub proof fn law_answer_to_wg_quick(
    action: Seq<char>,
    path: Seq<u8>,
    ran: Result<OutputModel, Seq<char>>,
)
    ensures
        ({
            let (state, first) = handling_start(RequestModel::WgQuick { action, path });
            handling_answer(state, first, seq![HandlerEventModel::Ran(ran)]) == Some(
                match ran {
                    Err(e) => ResponseModel::Error { message: "Failed to start wg-quick: "@ + e },
                    Ok(output) => if output.success {
                        ResponseModel::Done
                    } else {
                        let complaint = trimmed(readable(output.stderr));
                        ResponseModel::Error {
                            message: if complaint.len() > 0 {
                                "wg-quick "@ + action + " failed: "@ + complaint
                            } else {
                                "wg-quick "@ + action + " failed for "@ + readable(path)
                            },
                        }
                    },
                },
            )
        }),
{
    law_helper_runs_wg_quick(action, path, ran);
}

/// What `handle_helper_request` returns first: a request for `wg-quick` runs it with
/// the action and on the file of the request, a listing reads the first directory of
/// the request, and the others are answered at once.
pub proof fn law_first_action_returned(request: HelperRequest, res: (Handling, HandlerAction))
    requires
        call_ensures(handle_helper_request, (request,), res),
    ensures
        match request {
            HelperRequest::WgQuick { action, path } => res.1 matches HandlerAction::RunWgQuick {
                action: a,
                path: p,
            } && a@ == action@ && p@ == path@,
            HelperRequest::ListConfigs { dirs } => if dirs@.len() > 0 {
                res.1 matches HandlerAction::Inspect(dir) && dir@ == dirs@[0]@
            } else {
                res.1 matches HandlerAction::Respond(HelperResponse::Configs { paths })
                    && paths@.len() == 0
            },
            HelperRequest::Ping => res.1 matches HandlerAction::Respond(HelperResponse::Pong),
            HelperRequest::Quit => res.1 matches HandlerAction::Respond(HelperResponse::Done),
        },
{
    if let HelperRequest::ListConfigs { dirs } = request {
        assert(path_bytes(dirs@).len() == dirs@.len());
        if dirs@.len() == 0 {
            if let HandlerAction::Respond(HelperResponse::Configs { paths }) = res.1 {
                assert(path_bytes(paths@).len() == paths@.len());
            }
        }
    }
}

/// What `step` returns: after `wg-quick` the answer, and after a directory the next
/// of the list or the answer.
pub proof fn law_next_action_returned(
    state: Handling,
    event: HandlerEvent,
    res: (Handling, HandlerAction),
)
    requires
        handling_awaits(state@, event@),
        call_ensures(Handling::step, (state, event), res),
    ensures
        res.1 !is RunWgQuick,
        res.1 matches HandlerAction::Inspect(dir) ==> (state matches Handling::Listing {
            dirs,
            next,
            ..
        } && next + 1 < dirs@.len() && dir@ == dirs@[next + 1]@),
        event matches HandlerEvent::Ran(ran) ==> (res.1 matches HandlerAction::Respond(answer) && (
        answer is Done <==> (ran matches Ok(output) && output.success)) && (answer is Done || answer
            is Error)),
{
    if let Handling::Listing { dirs, next, paths } = state {
        assert(path_bytes(dirs@).len() == dirs@.len());
    }
}

/// Whether an answer is of a kind that the request calls for.
pub open spec fn fits(request: RequestModel, response: ResponseModel) -> bool {
    match request {
        RequestModel::Ping => response is Pong,
        RequestModel::ListConfigs { .. } => response is Configs || response is Error,
        RequestModel::WgQuick { .. } => response is Done || response is Error,
        RequestModel::Quit => response is Done,
    }
}

/// Answers from a state in the middle of a request.
proof fn lemma_answers_fit(
    request: RequestModel,
    state: HandlingModel,
    action: HandlerActionModel,
    events: Seq<HandlerEventModel>,
)
    requires
        action matches HandlerActionModel::Respond(r) ==> fits(request, r),
        action !is Respond ==> match state {
            HandlingModel::Listing { .. } => request is ListConfigs,
            HandlingModel::Running { .. } => request is WgQuick,
            HandlingModel::Answered => false,
        },
    ensures
        handling_answer(state, action, events) matches Some(r) ==> fits(request, r),
    decreases events.len(),
{
    if action !is Respond && events.len() > 0 && handling_awaits(state, events[0]) {
        let (next, then_do) = handling_next(state, events[0]);
        lemma_answers_fit(request, next, then_do, events.drop_first());
    }
}

/// Whatever happens while a request is handled, the answer is of the kind that
/// it calls for.
pub proof fn law_answers_fit(request: RequestModel, events: Seq<HandlerEventModel>)
    ensures
        ({
            let (state, action) = handling_start(request);
            handling_answer(state, action, events) matches Some(r) ==> fits(request, r)
        }),
{
    let (state, action) = handling_start(request);
    lemma_answers_fit(request, state, action, events);
}

/// Whether an event is what comes of an action.
pub open spec fn handling_brings(action: HandlerActionModel, event: HandlerEventModel) -> bool {
    match action {
        HandlerActionModel::Inspect(_) => event is Inspected,
        HandlerActionModel::RunWgQuick { .. } => event is Ran,
        HandlerActionModel::Respond(_) => false,
    }
}

/// The handling of a request waits for what its last action brings, from its
/// start to its end.
pub proof fn law_handling_awaits_its_action(
    request: RequestModel,
    state: HandlingModel,
    event: HandlerEventModel,
    next: HandlerEventModel,
)
    requires
        handling_awaits(state, event),
    ensures
        handling_brings(handling_start(request).1, next) ==> handling_awaits(
            handling_start(request).0,
            next,
        ),
        handling_brings(handling_next(state, event).1, next) ==> handling_awaits(
            handling_next(state, event).0,
            next,
        ),
{
}

} // verus!
