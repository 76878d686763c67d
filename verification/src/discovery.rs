//! Looking for tunnels in the candidate directories, with the helper's aid where
//! a directory may not be read.

use crate::environment::{guidance, permission_guidance_message};
use crate::exchange::answer_of;
use crate::handler::{helper_listing, listing_response};
use crate::listing::{cannot_read, cannot_read_message, entry_failed, entry_failed_message};
use crate::listing::{law_lookers_agree, law_picked_files, pick_files, picked};
use crate::listing::{DirectoryReport, EntryModel, Looker, ReportModel};
use crate::paths::{file_name, path_bytes, ConfigPath};
use crate::protocol::{reply_result, unit_result};
use crate::protocol::{HelperRequest, HelperResponse, RequestModel, ResponseModel};
use crate::text::readable;
use crate::tunnels::{conf_suffix, insert_tunnels_from_paths, is_tunnel_file, tunnel_name};
use crate::tunnels::{law_offers_add_up, law_only_offered_names, with_paths, TunnelTable};
use vstd::prelude::*;
use vstd::utf8::*;

verus! {

/// What a discovery waits for.
#[derive(Debug, Clone, Copy, PartialEq, Eq, Structural)]
pub enum DiscoveryPhase {
    /// The next directory is read.
    Inspecting,
    /// The next directory may not be read: a helper is made sure of.
    Elevating,
    /// The helper is asked for the files in the next directory.
    Asking,
    Finished,
}

/// A discovery under way.
pub struct Discovery {
    pub phase: DiscoveryPhase,
    /// The directories to look in.
    pub dirs: Vec<ConfigPath>,
    /// The first that has not been looked in.
    pub next: usize,
    /// What was found.
    pub found: TunnelTable,
    /// A directory was passed over for want of permission.
    pub blocked: bool,
    /// A privilege dialog can be shown.
    pub can_elevate: bool,
}

/// What a `Discovery` holds.
#[verifier::ext_equal]
pub struct DiscoveryModel {
    pub phase: DiscoveryPhase,
    pub dirs: Seq<Seq<u8>>,
    pub next: int,
    pub found: Map<Seq<char>, Seq<u8>>,
    pub blocked: bool,
    pub can_elevate: bool,
}

impl View for Discovery {
    type V = DiscoveryModel;

    open spec fn view(&self) -> DiscoveryModel {
        DiscoveryModel {
            phase: self.phase,
            dirs: path_bytes(self.dirs@),
            next: self.next as int,
            found: self.found@,
            blocked: self.blocked,
            can_elevate: self.can_elevate,
        }
    }
}

/// What came of an action.
pub enum DiscoveryEvent {
    /// The directory was looked at.
    Inspected(DirectoryReport),
    /// A helper was made sure of, or why there is none.
    Ensured(Result<(), String>),
    /// The helper answered, or could not be asked.
    Answered(Result<HelperResponse, String>),
}

/// What a `DiscoveryEvent` holds.
pub enum DiscoveryEventModel {
    Inspected(ReportModel),
    Ensured(Result<(), Seq<char>>),
    Answered(Result<ResponseModel, Seq<char>>),
}

impl View for DiscoveryEvent {
    type V = DiscoveryEventModel;

    open spec fn view(&self) -> DiscoveryEventModel {
        match *self {
            DiscoveryEvent::Inspected(report) => DiscoveryEventModel::Inspected(report@),
            DiscoveryEvent::Ensured(r) => DiscoveryEventModel::Ensured(unit_result(r)),
            DiscoveryEvent::Answered(r) => DiscoveryEventModel::Answered(reply_result(r)),
        }
    }
}

/// What is to be done next.
pub enum DiscoveryAction {
    /// Read this directory.
    Inspect(ConfigPath),
    /// Make sure that a helper answers.
    EnsureHelper,
    /// Ask the helper.
    Ask(HelperRequest),
    /// The discovery is over. Where it succeeded, the tunnels are in `found`.
    Finish(Result<(), String>),
}

/// What a `DiscoveryAction` holds.
#[verifier::ext_equal]
pub enum DiscoveryActionModel {
    Inspect(Seq<u8>),
    EnsureHelper,
    Ask(RequestModel),
    Finish(Result<(), Seq<char>>),
}

impl View for DiscoveryAction {
    type V = DiscoveryActionModel;

    open spec fn view(&self) -> DiscoveryActionModel {
        match *self {
            DiscoveryAction::Inspect(dir) => DiscoveryActionModel::Inspect(dir@),
            DiscoveryAction::EnsureHelper => DiscoveryActionModel::EnsureHelper,
            DiscoveryAction::Ask(request) => DiscoveryActionModel::Ask(request@),
            DiscoveryAction::Finish(r) => DiscoveryActionModel::Finish(unit_result(r)),
        }
    }
}

impl DiscoveryModel {
    /// The discovery is over.
    pub open spec fn over(self, outcome: Result<(), Seq<char>>) -> (
        DiscoveryModel,
        DiscoveryActionModel,
    ) {
        (
            DiscoveryModel { phase: DiscoveryPhase::Finished, ..self },
            DiscoveryActionModel::Finish(outcome),
        )
    }

    /// The directory at `next` is to be read. Where there is none the discovery
    /// is over: it failed iff nothing was found and a directory was passed over.
    pub open spec fn looks(self) -> (DiscoveryModel, DiscoveryActionModel) {
        if self.next < self.dirs.len() {
            (
                DiscoveryModel { phase: DiscoveryPhase::Inspecting, ..self },
                DiscoveryActionModel::Inspect(self.dirs[self.next]),
            )
        } else if self.found == Map::<Seq<char>, Seq<u8>>::empty() && self.blocked {
            self.over(Err(guidance()))
        } else {
            self.over(Ok(()))
        }
    }

    /// These files were found, and the directory is done with.
    pub open spec fn finds(self, paths: Seq<Seq<u8>>) -> (DiscoveryModel, DiscoveryActionModel) {
        DiscoveryModel {
            next: self.next + 1,
            found: with_paths(self.found, paths),
            ..self
        }.looks()
    }

    /// Whether it waits for an event of this kind.
    pub open spec fn awaits(self, event: DiscoveryEventModel) -> bool {
        &&& 0 <= self.next < self.dirs.len()
        &&& match event {
            DiscoveryEventModel::Inspected(_) => self.phase == DiscoveryPhase::Inspecting,
            DiscoveryEventModel::Ensured(_) => self.phase == DiscoveryPhase::Elevating,
            DiscoveryEventModel::Answered(_) => self.phase == DiscoveryPhase::Asking,
        }
    }

    /// The state and the action after a directory was looked at.
    pub open spec fn after_report(self, report: ReportModel) -> (
        DiscoveryModel,
        DiscoveryActionModel,
    ) {
        match report {
            ReportModel::Missing => self.finds(Seq::empty()),
            ReportModel::Unreadable { denied, reason } => if !denied {
                self.over(Err(cannot_read(self.dirs[self.next], reason)))
            } else if self.can_elevate {
                (
                    DiscoveryModel { phase: DiscoveryPhase::Elevating, ..self },
                    DiscoveryActionModel::EnsureHelper,
                )
            } else {
                DiscoveryModel { blocked: true, ..self }.finds(Seq::empty())
            },
            ReportModel::Entries { entries, failure } => match failure {
                Some(e) => DiscoveryModel {
                    found: with_paths(self.found, picked(Looker::FrontEnd, entries)),
                    ..self
                }.over(Err(entry_failed(e))),
                None => self.finds(picked(Looker::FrontEnd, entries)),
            },
        }
    }

    /// The state and the action after an event.
    pub open spec fn after(self, event: DiscoveryEventModel) -> (
        DiscoveryModel,
        DiscoveryActionModel,
    ) {
        match event {
            DiscoveryEventModel::Inspected(report) => self.after_report(report),
            DiscoveryEventModel::Ensured(Ok(_)) => (
                DiscoveryModel { phase: DiscoveryPhase::Asking, ..self },
                DiscoveryActionModel::Ask(
                    RequestModel::ListConfigs { dirs: seq![self.dirs[self.next]] },
                ),
            ),
            DiscoveryEventModel::Ensured(Err(e)) => self.over(Err(e)),
            DiscoveryEventModel::Answered(Ok(ResponseModel::Configs { paths })) => self.finds(
                paths,
            ),
            DiscoveryEventModel::Answered(Ok(_)) => self.over(
                Err("Unexpected helper response"@),
            ),
            DiscoveryEventModel::Answered(Err(e)) => self.over(Err(e)),
        }
    }
}

/// How a discovery begins.
pub open spec fn discovery_start(dirs: Seq<Seq<u8>>, can_elevate: bool) -> (
    DiscoveryModel,
    DiscoveryActionModel,
) {
    DiscoveryModel {
        phase: DiscoveryPhase::Inspecting,
        dirs,
        next: 0,
        found: Map::empty(),
        blocked: false,
        can_elevate,
    }.looks()
}

/// Begins to look for tunnels in `dirs`. `can_elevate` tells whether a privilege
/// dialog can be shown.
pub fn discover_tunnels(dirs: Vec<ConfigPath>, can_elevate: bool) -> (res: (
    Discovery,
    DiscoveryAction,
))
    ensures
        res.0.wf(),
        (res.0@, res.1@) == discovery_start(path_bytes(dirs@), can_elevate),
{
    let mut run = Discovery {
        phase: DiscoveryPhase::Inspecting,
        dirs,
        next: 0,
        found: TunnelTable::new(),
        blocked: false,
        can_elevate,
    };
    let action = run.look();
    (run, action)
}

impl Discovery {
    /// The table is in order, and `next` does not leave the list.
    pub open spec fn wf(&self) -> bool {
        self.found.wf() && self.next <= self.dirs@.len()
    }

    /// Ends the discovery.
    fn finish(&mut self, outcome: Result<(), String>) -> (res: DiscoveryAction)
        requires
            old(self).wf(),
        ensures
            final(self).wf(),
            (final(self)@, res@) == old(self)@.over(unit_result(outcome)),
    {
        self.phase = DiscoveryPhase::Finished;
        DiscoveryAction::Finish(outcome)
    }

    /// Goes on with the directory at `next`, or ends the discovery.
    fn look(&mut self) -> (res: DiscoveryAction)
        requires
            old(self).wf(),
        ensures
            final(self).wf(),
            (final(self)@, res@) == old(self)@.looks(),
    {
        if self.next < self.dirs.len() {
            self.phase = DiscoveryPhase::Inspecting;
            assert(self@.dirs[self.next as int] == self.dirs@[self.next as int]@);
            DiscoveryAction::Inspect(self.dirs[self.next].clone())
        } else if self.found.is_empty() && self.blocked {
            self.finish(Err(permission_guidance_message()))
        } else {
            self.finish(Ok(()))
        }
    }

    /// Takes the files that were found, and goes on with the next directory.
    fn find(&mut self, paths: &Vec<ConfigPath>) -> (res: DiscoveryAction)
        requires
            old(self).wf(),
            old(self).next < old(self).dirs@.len(),
        ensures
            final(self).wf(),
            (final(self)@, res@) == old(self)@.finds(path_bytes(paths@)),
    {
        insert_tunnels_from_paths(&mut self.found, paths);
        assert(self.next < self.dirs.len());
        self.next = self.next + 1;
        self.look()
    }

    /// Passes over a directory in which nothing was found.
    fn pass_over(&mut self) -> (res: DiscoveryAction)
        requires
            old(self).wf(),
            old(self).next < old(self).dirs@.len(),
        ensures
            final(self).wf(),
            (final(self)@, res@) == old(self)@.finds(Seq::empty()),
    {
        let none: Vec<ConfigPath> = Vec::new();
        assert(path_bytes(none@) =~= Seq::<Seq<u8>>::empty());
        self.find(&none)
    }

    /// Goes on after an event.
    pub fn step(&mut self, event: DiscoveryEvent) -> (res: DiscoveryAction)
        requires
            old(self).wf(),
            old(self)@.awaits(event@),
        ensures
            final(self).wf(),
            (final(self)@, res@) == old(self)@.after(event@),
    {
        assert(self@.dirs[self.next as int] == self.dirs@[self.next as int]@);
        match event {
            DiscoveryEvent::Inspected(DirectoryReport::Missing) => self.pass_over(),
            DiscoveryEvent::Inspected(DirectoryReport::Unreadable { denied, reason }) => {
                if !denied {
                    let message = cannot_read_message(&self.dirs[self.next], &reason);
                    self.finish(Err(message))
                } else if self.can_elevate {
                    self.phase = DiscoveryPhase::Elevating;
                    DiscoveryAction::EnsureHelper
                } else {
                    self.blocked = true;
                    self.pass_over()
                }
            },
            DiscoveryEvent::Inspected(DirectoryReport::Entries { entries, failure }) => {
                let paths = pick_files(Looker::FrontEnd, entries);
                match failure {
                    Some(e) => {
                        insert_tunnels_from_paths(&mut self.found, &paths);
                        self.finish(Err(entry_failed_message(&e)))
                    },
                    None => self.find(&paths),
                }
            },
            DiscoveryEvent::Ensured(Ok(_)) => {
                self.phase = DiscoveryPhase::Asking;
                let mut dirs: Vec<ConfigPath> = Vec::new();
                dirs.push(self.dirs[self.next].clone());
                assert(path_bytes(dirs@) =~= seq![self@.dirs[self.next as int]]);
                DiscoveryAction::Ask(HelperRequest::ListConfigs { dirs })
            },
            DiscoveryEvent::Ensured(Err(e)) => self.finish(Err(e)),
            DiscoveryEvent::Answered(Ok(HelperResponse::Configs { paths })) => self.find(&paths),
            DiscoveryEvent::Answered(Ok(_)) => {
                self.finish(Err("Unexpected helper response".to_owned()))
            },
            DiscoveryEvent::Answered(Err(e)) => self.finish(Err(e)),
        }
    }
}

/// What a discovery ends with on these events, if they suffice: the tunnels by
/// name, or why there are none.
pub open spec fn discovery_run(
    state: DiscoveryModel,
    action: DiscoveryActionModel,
    events: Seq<DiscoveryEventModel>,
) -> Option<Result<Map<Seq<char>, Seq<u8>>, Seq<char>>>
    decreases events.len(),
{
    match action {
        DiscoveryActionModel::Finish(Ok(_)) => Some(Ok(state.found)),
        DiscoveryActionModel::Finish(Err(e)) => Some(Err(e)),
        _ => if events.len() == 0 || !state.awaits(events[0]) {
            None
        } else {
            let (next, then_do) = state.after(events[0]);
            discovery_run(next, then_do, events.drop_first())
        },
    }
}

/// All that can come of one directory: what was seen in it, whether a helper was
/// made sure of, and what the helper answered. The last two only matter where
/// the directory may not be read and a privilege dialog can be shown.
pub struct Visit {
    pub report: ReportModel,
    pub ensured: Result<(), Seq<char>>,
    pub answered: Result<ResponseModel, Seq<char>>,
}

/// Whether the helper is needed for a directory.
pub open spec fn needs_helper(report: ReportModel) -> bool {
    report matches ReportModel::Unreadable { denied, .. } && denied
}

/// The events that a visit brings.
pub open spec fn visit_events(visit: Visit, can_elevate: bool) -> Seq<DiscoveryEventModel> {
    let looked = DiscoveryEventModel::Inspected(visit.report);
    if !needs_helper(visit.report) || !can_elevate {
        seq![looked]
    } else if visit.ensured is Err {
        seq![looked, DiscoveryEventModel::Ensured(visit.ensured)]
    } else {
        seq![
            looked,
            DiscoveryEventModel::Ensured(visit.ensured),
            DiscoveryEventModel::Answered(visit.answered),
        ]
    }
}

/// The events that the visits bring, one visit after the other.
pub open spec fn all_events(visits: Seq<Visit>, can_elevate: bool) -> Seq<DiscoveryEventModel>
    decreases visits.len(),
{
    if visits.len() == 0 {
        Seq::empty()
    } else {
        visit_events(visits[0], can_elevate) + all_events(visits.drop_first(), can_elevate)
    }
}

/// What one directory gives: the files in it and whether it was passed over for
/// want of permission, or the failure that ends the discovery.
pub open spec fn finding(dir: Seq<u8>, visit: Visit, can_elevate: bool) -> Result<
    (Seq<Seq<u8>>, bool),
    Seq<char>,
> {
    match visit.report {
        ReportModel::Missing => Ok((Seq::empty(), false)),
        ReportModel::Entries { entries, failure } => match failure {
            Some(e) => Err(entry_failed(e)),
            None => Ok((picked(Looker::FrontEnd, entries), false)),
        },
        ReportModel::Unreadable { denied, reason } => if !denied {
            Err(cannot_read(dir, reason))
        } else if !can_elevate {
            Ok((Seq::empty(), true))
        } else {
            match (visit.ensured, visit.answered) {
                (Err(e), _) => Err(e),
                (_, Err(e)) => Err(e),
                (_, Ok(ResponseModel::Configs { paths })) => Ok((paths, false)),
                (_, Ok(_)) => Err("Unexpected helper response"@),
            }
        },
    }
}

/// What the directories give together: all files in order and whether any was
/// passed over, or the first failure.
pub open spec fn findings(dirs: Seq<Seq<u8>>, visits: Seq<Visit>, can_elevate: bool) -> Result<
    (Seq<Seq<u8>>, bool),
    Seq<char>,
>
    decreases dirs.len(),
{
    if dirs.len() == 0 || visits.len() == 0 {
        Ok((Seq::empty(), false))
    } else {
        match findings(dirs.drop_last(), visits.drop_last(), can_elevate) {
            Ok((paths, blocked)) => match finding(dirs.last(), visits.last(), can_elevate) {
                Ok((more, passed_over)) => Ok((paths + more, blocked || passed_over)),
                Err(e) => Err(e),
            },
            Err(e) => Err(e),
        }
    }
}

/// What the user gets to see of the findings: the first file under each name,
/// or the guidance where there is no tunnel and a directory was passed over.
pub open spec fn discovered(all: Result<(Seq<Seq<u8>>, bool), Seq<char>>) -> Result<
    Map<Seq<char>, Seq<u8>>,
    Seq<char>,
> {
    match all {
        Ok((paths, blocked)) => {
            let found = with_paths(Map::empty(), paths);
            if found == Map::<Seq<char>, Seq<u8>>::empty() && blocked {
                Err(guidance())
            } else {
                Ok(found)
            }
        },
        Err(e) => Err(e),
    }
}

/// Once the discovery has failed, later directories change nothing.
proof fn lemma_findings_stay_failed(
    dirs: Seq<Seq<u8>>,
    visits: Seq<Visit>,
    can_elevate: bool,
    k: int,
)
    requires
        dirs.len() == visits.len(),
        0 <= k <= dirs.len(),
        findings(dirs.take(k), visits.take(k), can_elevate) is Err,
    ensures
        findings(dirs, visits, can_elevate) == findings(dirs.take(k), visits.take(k), can_elevate),
    decreases dirs.len(),
{
    if k == dirs.len() {
        assert(dirs.take(k) =~= dirs);
        assert(visits.take(k) =~= visits);
    } else {
        let d = dirs.drop_last();
        let v = visits.drop_last();
        assert(d.take(k) =~= dirs.take(k));
        assert(v.take(k) =~= visits.take(k));
        lemma_findings_stay_failed(d, v, can_elevate, k);
    }
}

/// The state in which the directory at `k` is about to be read.
pub open spec fn about_to_look(
    dirs: Seq<Seq<u8>>,
    k: int,
    paths: Seq<Seq<u8>>,
    blocked: bool,
    can_elevate: bool,
) -> DiscoveryModel {
    DiscoveryModel {
        phase: DiscoveryPhase::Inspecting,
        dirs,
        next: k,
        found: with_paths(Map::empty(), paths),
        blocked,
        can_elevate,
    }
}

/// One visit, and what the run goes on with.
proof fn lemma_one_visit(
    dirs: Seq<Seq<u8>>,
    visit: Visit,
    k: int,
    paths: Seq<Seq<u8>>,
    blocked: bool,
    can_elevate: bool,
    rest: Seq<DiscoveryEventModel>,
)
    requires
        0 <= k < dirs.len(),
    ensures
        ({
            let here = about_to_look(dirs, k, paths, blocked, can_elevate);
            let run = discovery_run(
                here,
                DiscoveryActionModel::Inspect(dirs[k]),
                visit_events(visit, can_elevate) + rest,
            );
            match finding(dirs[k], visit, can_elevate) {
                Ok((more, passed_over)) => {
                    let (next, then_do) = about_to_look(
                        dirs,
                        k + 1,
                        paths + more,
                        blocked || passed_over,
                        can_elevate,
                    ).looks();
                    run == discovery_run(next, then_do, rest)
                },
                Err(e) => run == Some(Err::<Map<Seq<char>, Seq<u8>>, Seq<char>>(e)),
            }
        }),
{
    reveal_with_fuel(discovery_run, 4);
    let here = about_to_look(dirs, k, paths, blocked, can_elevate);
    let events = visit_events(visit, can_elevate) + rest;
    let e1 = DiscoveryEventModel::Inspected(visit.report);
    let e2 = DiscoveryEventModel::Ensured(visit.ensured);
    let e3 = DiscoveryEventModel::Answered(visit.answered);
    assert(events[0] == e1);
    if let Ok((more, passed_over)) = finding(dirs[k], visit, can_elevate) {
        law_offers_add_up(Map::empty(), paths, more);
        let there = about_to_look(dirs, k + 1, paths + more, blocked || passed_over, can_elevate);
        assert(DiscoveryModel {
            next: here.next + 1,
            found: with_paths(here.found, more),
            blocked: blocked || passed_over,
            ..here
        } == there);
    }
    if needs_helper(visit.report) && can_elevate {
        if visit.ensured is Err {
            assert(events.drop_first() =~= seq![e2] + rest);
            assert((seq![e2] + rest)[0] == e2);
        } else {
            assert(events.drop_first() =~= seq![e2, e3] + rest);
            assert((seq![e2, e3] + rest)[0] == e2);
            assert((seq![e2, e3] + rest).drop_first() =~= seq![e3] + rest);
            assert((seq![e3] + rest)[0] == e3);
            assert((seq![e3] + rest).drop_first() =~= rest);
        }
    } else {
        assert(events.drop_first() =~= rest);
    }
}

/// The run from the directory at `k` on.
proof fn lemma_discovery_from(
    dirs: Seq<Seq<u8>>,
    visits: Seq<Visit>,
    can_elevate: bool,
    k: int,
    paths: Seq<Seq<u8>>,
    blocked: bool,
)
    requires
        dirs.len() == visits.len(),
        0 <= k <= dirs.len(),
        findings(dirs.take(k), visits.take(k), can_elevate) == Ok::<
            (Seq<Seq<u8>>, bool),
            Seq<char>,
        >((paths, blocked)),
    ensures
        ({
            let (state, action) = about_to_look(dirs, k, paths, blocked, can_elevate).looks();
            discovery_run(state, action, all_events(visits.skip(k), can_elevate)) == Some(
                discovered(findings(dirs, visits, can_elevate)),
            )
        }),
    decreases dirs.len() - k,
{
    if k == dirs.len() {
        assert(dirs.take(k) =~= dirs);
        assert(visits.take(k) =~= visits);
    } else {
        let rest = all_events(visits.skip(k + 1), can_elevate);
        assert(visits.skip(k).drop_first() =~= visits.skip(k + 1));
        assert(visits.skip(k)[0] == visits[k]);
        assert(dirs.take(k + 1).drop_last() =~= dirs.take(k));
        assert(visits.take(k + 1).drop_last() =~= visits.take(k));
        assert(dirs.take(k + 1).last() == dirs[k]);
        assert(visits.take(k + 1).last() == visits[k]);
        lemma_one_visit(dirs, visits[k], k, paths, blocked, can_elevate, rest);
        match finding(dirs[k], visits[k], can_elevate) {
            Ok((more, passed_over)) => {
                lemma_discovery_from(
                    dirs,
                    visits,
                    can_elevate,
                    k + 1,
                    paths + more,
                    blocked || passed_over,
                );
            },
            Err(e) => {
                lemma_findings_stay_failed(dirs, visits, can_elevate, k + 1);
            },
        }
    }
}

/// A discovery gives what the directories hold together: the first file under
/// each name, in the order of the directories. It fails with the first failure,
/// or with the guidance where it found nothing and had to pass over a directory.
pub proof fn law_discovery_outcome(dirs: Seq<Seq<u8>>, visits: Seq<Visit>, can_elevate: bool)
    requires
        dirs.len() == visits.len(),
    ensures
        ({
            let (state, action) = discovery_start(dirs, can_elevate);
            discovery_run(state, action, all_events(visits, can_elevate)) == Some(
                discovered(findings(dirs, visits, can_elevate)),
            )
        }),
{
    assert(visits.skip(0) =~= visits);
    assert(with_paths(Map::empty(), Seq::<Seq<u8>>::empty()) == Map::<Seq<char>, Seq<u8>>::empty());
    lemma_discovery_from(dirs, visits, can_elevate, 0, Seq::empty(), false);
}

/// The user is asked for elevated access only where a directory may not be read
/// and a privilege dialog can be shown.
pub proof fn law_elevation_only_when_denied(state: DiscoveryModel, event: DiscoveryEventModel)
    ensures
        state.after(event).1 is EnsureHelper <==> state.can_elevate && (event matches
            DiscoveryEventModel::Inspected(report) && needs_helper(report)),
{
}

/// The actions of a discovery on these events, in order.
pub open spec fn discovery_actions(
    state: DiscoveryModel,
    action: DiscoveryActionModel,
    events: Seq<DiscoveryEventModel>,
) -> Seq<DiscoveryActionModel>
    decreases events.len(),
{
    seq![action] + if action is Finish || events.len() == 0 || !state.awaits(events[0]) {
        Seq::empty()
    } else {
        let (next, then_do) = state.after(events[0]);
        discovery_actions(next, then_do, events.drop_first())
    }
}

/// Whether a report ends the discovery for another reason than permission.
pub open spec fn breaks_off(report: ReportModel) -> bool {
    match report {
        ReportModel::Missing => false,
        ReportModel::Unreadable { denied, .. } => !denied,
        ReportModel::Entries { failure, .. } => failure is Some,
    }
}

/// Some directory may not be read, and none before it breaks the discovery off.
pub open spec fn denial_reached(visits: Seq<Visit>) -> bool {
    exists|i: int|
        0 <= i < visits.len() && needs_helper((#[trigger] visits[i]).report) && forall|j: int|
            0 <= j < i ==> !breaks_off((#[trigger] visits[j]).report)
}

/// `denial_reached`, by the first directory.
proof fn lemma_denial_reached(visits: Seq<Visit>)
    requires
        visits.len() > 0,
    ensures
        denial_reached(visits) <==> needs_helper(visits[0].report) || !breaks_off(visits[0].report)
            && denial_reached(visits.drop_first()),
{
    let rest = visits.drop_first();
    if denial_reached(visits) && !needs_helper(visits[0].report) {
        let i = choose|i: int|
            0 <= i < visits.len() && needs_helper((#[trigger] visits[i]).report) && forall|j: int|
                0 <= j < i ==> !breaks_off((#[trigger] visits[j]).report);
        assert(!breaks_off(visits[0].report));
        assert(rest[i - 1] == visits[i]);
        assert forall|j: int| 0 <= j < i - 1 implies !breaks_off((#[trigger] rest[j]).report) by {
            assert(rest[j] == visits[j + 1]);
        }
    }
    if needs_helper(visits[0].report) {
        assert(denial_reached(visits));
    } else if !breaks_off(visits[0].report) && denial_reached(rest) {
        let i = choose|i: int|
            0 <= i < rest.len() && needs_helper((#[trigger] rest[i]).report) && forall|j: int|
                0 <= j < i ==> !breaks_off((#[trigger] rest[j]).report);
        assert(visits[i + 1] == rest[i]);
        assert forall|j: int| 0 <= j < i + 1 implies !breaks_off((#[trigger] visits[j]).report) by {
            if j > 0 {
                assert(rest[j - 1] == visits[j]);
            }
        }
    }
}

/// What a sequence holds is its first item, or is held behind it.
pub proof fn lemma_first_or_behind<A>(first: A, behind: Seq<A>, x: A)
    ensures
        (seq![first] + behind).contains(x) <==> first == x || behind.contains(x),
{
    let all = seq![first] + behind;
    assert(all[0] == first);
    if behind.contains(x) {
        let i = choose|i: int| 0 <= i < behind.len() && behind[i] == x;
        assert(all[i + 1] == x);
    }
    if all.contains(x) {
        let i = choose|i: int| 0 <= i < all.len() && all[i] == x;
        if i > 0 {
            assert(behind[i - 1] == x);
        }
    }
}

/// Whether the user is asked for elevated access from here on.
proof fn lemma_asks_from(state: DiscoveryModel, visits: Seq<Visit>)
    requires
        0 <= state.next,
        state.next + visits.len() == state.dirs.len(),
    ensures
        ({
            let (here, action) = state.looks();
            discovery_actions(here, action, all_events(visits, state.can_elevate)).contains(
                DiscoveryActionModel::EnsureHelper,
            ) <==> state.can_elevate && denial_reached(visits)
        }),
    decreases visits.len(),
{
    let ask = DiscoveryActionModel::EnsureHelper;
    let (here, action) = state.looks();
    let none = Seq::<DiscoveryActionModel>::empty();
    let events = all_events(visits, state.can_elevate);
    if visits.len() == 0 {
        lemma_first_or_behind(action, none, ask);
    } else {
        let rest = all_events(visits.drop_first(), state.can_elevate);
        let report = visits[0].report;
        let (next, then_do) = here.after(events[0]);
        let behind = discovery_actions(next, then_do, events.drop_first());
        assert(events[0] == DiscoveryEventModel::Inspected(report));
        assert(discovery_actions(here, action, events) == seq![action] + behind);
        lemma_first_or_behind(action, behind, ask);
        lemma_denial_reached(visits);
        if state.can_elevate && needs_helper(report) {
            assert(behind[0] == ask);
        } else if breaks_off(report) {
            assert(then_do is Finish);
            lemma_first_or_behind(then_do, none, ask);
        } else {
            let there = DiscoveryModel {
                next: here.next + 1,
                found: match report {
                    ReportModel::Entries { entries, .. } => with_paths(
                        here.found,
                        picked(Looker::FrontEnd, entries),
                    ),
                    _ => with_paths(here.found, Seq::empty()),
                },
                blocked: here.blocked || needs_helper(report),
                ..here
            };
            assert(there.looks() == (next, then_do));
            assert(events.drop_first() =~= rest);
            lemma_asks_from(there, visits.drop_first());
        }
    }
}

/// A discovery asks the user for elevated access iff a privilege dialog can be
/// shown and it comes to a directory that may not be read.
pub proof fn law_discovery_asks_for_access(
    dirs: Seq<Seq<u8>>,
    visits: Seq<Visit>,
    can_elevate: bool,
)
    requires
        dirs.len() == visits.len(),
    ensures
        ({
            let (state, action) = discovery_start(dirs, can_elevate);
            discovery_actions(state, action, all_events(visits, can_elevate)).contains(
                DiscoveryActionModel::EnsureHelper,
            ) <==> can_elevate && denial_reached(visits)
        }),
{
    lemma_asks_from(
        about_to_look(dirs, 0, Seq::empty(), false, can_elevate),
        visits,
    );
    assert(with_paths(Map::empty(), Seq::<Seq<u8>>::empty()) == Map::<Seq<char>, Seq<u8>>::empty());
}

/// The helper is asked only after it was made sure that one answers, and only
/// for the directory that may not be read.
pub proof fn law_helper_asked_only_when_there(state: DiscoveryModel, event: DiscoveryEventModel)
    ensures
        state.after(event).1 matches DiscoveryActionModel::Ask(request) ==> {
            &&& event matches DiscoveryEventModel::Ensured(r)
            &&& r is Ok
            &&& request == RequestModel::ListConfigs { dirs: seq![state.dirs[state.next]] }
        },
{
}

/// Where every directory is missing or can be read, the discovery succeeds
/// without a helper, and with the first tunnel file under each name.
pub proof fn law_readable_dirs_need_no_helper(
    dirs: Seq<Seq<u8>>,
    visits: Seq<Visit>,
    can_elevate: bool,
)
    requires
        dirs.len() == visits.len(),
        forall|i: int|
            0 <= i < visits.len() ==> match (#[trigger] visits[i]).report {
                ReportModel::Missing => true,
                ReportModel::Unreadable { .. } => false,
                ReportModel::Entries { failure, .. } => failure is None,
            },
    ensures
        discovered(findings(dirs, visits, can_elevate)) == Ok::<
            Map<Seq<char>, Seq<u8>>,
            Seq<char>,
        >(with_paths(Map::empty(), files_seen(visits))),
{
    lemma_readable_findings(dirs, visits, can_elevate);
}

/// The tunnel files that were seen, directory by directory.
pub open spec fn files_seen(visits: Seq<Visit>) -> Seq<Seq<u8>>
    decreases visits.len(),
{
    if visits.len() == 0 {
        Seq::empty()
    } else {
        files_seen(visits.drop_last()) + match visits.last().report {
            ReportModel::Entries { entries, .. } => picked(Looker::FrontEnd, entries),
            _ => Seq::empty(),
        }
    }
}

/// The findings where every directory is missing or can be read.
proof fn lemma_readable_findings(dirs: Seq<Seq<u8>>, visits: Seq<Visit>, can_elevate: bool)
    requires
        dirs.len() == visits.len(),
        forall|i: int|
            0 <= i < visits.len() ==> match (#[trigger] visits[i]).report {
                ReportModel::Missing => true,
                ReportModel::Unreadable { .. } => false,
                ReportModel::Entries { failure, .. } => failure is None,
            },
    ensures
        findings(dirs, visits, can_elevate) == Ok::<(Seq<Seq<u8>>, bool), Seq<char>>(
            (files_seen(visits), false),
        ),
    decreases dirs.len(),
{
    if dirs.len() > 0 {
        let v = visits.drop_last();
        assert forall|i: int| 0 <= i < v.len() implies match (#[trigger] v[i]).report {
            ReportModel::Missing => true,
            ReportModel::Unreadable { .. } => false,
            ReportModel::Entries { failure, .. } => failure is None,
        } by {
            assert(v[i] == visits[i]);
        }
        lemma_readable_findings(dirs.drop_last(), v, can_elevate);
        assert(visits.last() == visits[visits.len() - 1]);
    }
}

/// Where a directory may not be read, the helper stands in for the front end: it
/// brings to light the tunnels that the front end would have found, as long as
/// every file name in the directory is UTF-8 and none is `.conf` alone.
pub proof fn law_helper_stands_in(
    dir: Seq<u8>,
    reason: Seq<char>,
    entries: Seq<EntryModel>,
    unasked: Visit,
    can_elevate: bool,
)
    requires
        forall|i: int|
            0 <= i < entries.len() ==> (file_name((#[trigger] entries[i]).path) matches Some(f)
                ==> valid_utf8(f) && f != conf_suffix()),
        unasked.report == (ReportModel::Entries { entries, failure: None }),
    ensures
        ({
            let listing = helper_listing(seq![dir], seq![unasked.report]);
            let asked = Visit {
                report: ReportModel::Unreadable { denied: true, reason },
                ensured: Ok(()),
                answered: answer_of(listing_response(listing)),
            };
            finding(dir, asked, true) == finding(dir, unasked, can_elevate)
        }),
{
    law_lookers_agree(entries);
    reveal_with_fuel(helper_listing, 2);
    let none = Seq::<Seq<u8>>::empty();
    let some = picked(Looker::Helper, entries);
    assert(seq![dir].drop_last() =~= none);
    assert(none + some =~= some);
}

/// The directories that the actions name to be read, in order.
pub open spec fn dirs_read(actions: Seq<DiscoveryActionModel>) -> Seq<Seq<u8>>
    decreases actions.len(),
{
    if actions.len() == 0 {
        Seq::empty()
    } else {
        (match actions[0] {
            DiscoveryActionModel::Inspect(dir) => seq![dir],
            _ => Seq::empty(),
        }) + dirs_read(actions.drop_first())
    }
}

/// The directories read after one more action in front.
proof fn lemma_dirs_read(first: DiscoveryActionModel, behind: Seq<DiscoveryActionModel>)
    ensures
        dirs_read(seq![first] + behind) == (match first {
            DiscoveryActionModel::Inspect(dir) => seq![dir],
            _ => Seq::empty(),
        }) + dirs_read(behind),
{
    assert((seq![first] + behind).drop_first() =~= behind);
}

/// The action of a discovery belongs to its phase and to the directory at `next`.
pub open spec fn in_step(state: DiscoveryModel, action: DiscoveryActionModel) -> bool {
    &&& 0 <= state.next <= state.dirs.len()
    &&& match action {
        DiscoveryActionModel::Inspect(dir) => state.phase == DiscoveryPhase::Inspecting
            && state.next < state.dirs.len() && dir == state.dirs[state.next],
        DiscoveryActionModel::EnsureHelper => state.phase == DiscoveryPhase::Elevating && state.next
            < state.dirs.len(),
        DiscoveryActionModel::Ask(request) => state.phase == DiscoveryPhase::Asking && state.next
            < state.dirs.len() && request == (RequestModel::ListConfigs {
            dirs: seq![state.dirs[state.next]],
        }),
        DiscoveryActionModel::Finish(_) => state.phase == DiscoveryPhase::Finished,
    }
}

/// From its start to its end, a discovery names the directory at which it is: the
/// one to be read, and the one that the helper is asked for.
pub proof fn law_discovery_stays_in_step(
    dirs: Seq<Seq<u8>>,
    can_elevate: bool,
    state: DiscoveryModel,
    event: DiscoveryEventModel,
)
    ensures
        ({
            let (first, action) = discovery_start(dirs, can_elevate);
            in_step(first, action) && first.dirs == dirs && first.next == 0
        }),
        state.awaits(event) ==> {
            let (next, action) = state.after(event);
            &&& in_step(next, action)
            &&& next.dirs == state.dirs
            &&& state.next <= next.next <= state.next + 1
            &&& action is Inspect ==> next.next == state.next + 1
            &&& action is EnsureHelper || action is Ask ==> next.next == state.next
        },
{
}

/// What is read from the middle of a discovery.
proof fn lemma_reads_in_order(
    state: DiscoveryModel,
    action: DiscoveryActionModel,
    events: Seq<DiscoveryEventModel>,
)
    requires
        in_step(state, action),
    ensures
        dirs_read(discovery_actions(state, action, events)).is_prefix_of(
            if action is Inspect || action is Finish {
                state.dirs.skip(state.next)
            } else {
                state.dirs.skip(state.next + 1)
            },
        ),
    decreases events.len(),
{
    let none = Seq::<DiscoveryActionModel>::empty();
    if action is Finish || events.len() == 0 || !state.awaits(events[0]) {
        lemma_dirs_read(action, none);
        assert(dirs_read(none) =~= Seq::<Seq<u8>>::empty());
    } else {
        let (next, then_do) = state.after(events[0]);
        let behind = discovery_actions(next, then_do, events.drop_first());
        lemma_dirs_read(action, behind);
        lemma_reads_in_order(next, then_do, events.drop_first());
        if then_do is Finish {
            reveal_with_fuel(discovery_actions, 2);
            lemma_dirs_read(then_do, none);
            assert(behind =~= seq![then_do] + none);
            assert(dirs_read(none) =~= Seq::<Seq<u8>>::empty());
            assert(dirs_read(behind) =~= Seq::<Seq<u8>>::empty());
        }
        let here = state.dirs.skip(state.next);
        assert(here =~= seq![state.dirs[state.next]] + state.dirs.skip(state.next + 1));
    }
}

/// Whatever happens, a discovery reads the directories in their order, without
/// leaving one out or reading one again, up to where it ends.
pub proof fn law_discovery_reads_in_order(
    dirs: Seq<Seq<u8>>,
    can_elevate: bool,
    events: Seq<DiscoveryEventModel>,
)
    ensures
        ({
            let (state, action) = discovery_start(dirs, can_elevate);
            dirs_read(discovery_actions(state, action, events)).is_prefix_of(dirs)
        }),
{
    let (state, action) = discovery_start(dirs, can_elevate);
    lemma_reads_in_order(state, action, events);
    assert(dirs.skip(0) =~= dirs);
}

/// Whether a visit lets the discovery go on: the directory is missing or was read
/// to its end, or may not be read and the helper brought what is in it, where one
/// can be asked.
pub open spec fn goes_well(visit: Visit, can_elevate: bool) -> bool {
    &&& !breaks_off(visit.report)
    &&& needs_helper(visit.report) && can_elevate ==> visit.ensured is Ok && (visit.answered matches
        Ok(ResponseModel::Configs { .. }))
}

/// What is read where every visit from here on goes well.
proof fn lemma_reads_the_rest(state: DiscoveryModel, visits: Seq<Visit>)
    requires
        0 <= state.next,
        state.next + visits.len() == state.dirs.len(),
        forall|i: int|
            0 <= i < visits.len() ==> goes_well(#[trigger] visits[i], state.can_elevate),
    ensures
        ({
            let (here, action) = state.looks();
            dirs_read(
                discovery_actions(here, action, all_events(visits, state.can_elevate)),
            ) == state.dirs.skip(state.next)
        }),
    decreases visits.len(),
{
    let (here, action) = state.looks();
    let none = Seq::<DiscoveryActionModel>::empty();
    let events = all_events(visits, state.can_elevate);
    if visits.len() == 0 {
        lemma_dirs_read(action, none);
        assert(dirs_read(none) =~= Seq::<Seq<u8>>::empty());
        assert(discovery_actions(here, action, events) =~= seq![action] + none);
        assert(state.dirs.skip(state.next) =~= Seq::<Seq<u8>>::empty());
    } else {
        let v = visits[0];
        let more = visits.drop_first();
        let rest = all_events(more, state.can_elevate);
        assert(goes_well(v, state.can_elevate));
        assert forall|i: int| 0 <= i < more.len() implies goes_well(
            #[trigger] more[i],
            state.can_elevate,
        ) by {
            assert(more[i] == visits[i + 1]);
        }
        let brought = match v.report {
            ReportModel::Missing => Seq::empty(),
            ReportModel::Entries { entries, .. } => picked(Looker::FrontEnd, entries),
            ReportModel::Unreadable { .. } => if state.can_elevate {
                v.answered->Ok_0->paths
            } else {
                Seq::empty()
            },
        };
        let there = DiscoveryModel {
            next: here.next + 1,
            found: with_paths(here.found, brought),
            blocked: here.blocked || (needs_helper(v.report) && !state.can_elevate),
            phase: if needs_helper(v.report) && state.can_elevate {
                DiscoveryPhase::Asking
            } else {
                here.phase
            },
            ..here
        };
        lemma_reads_the_rest(there, more);
        let (then_state, then_do) = there.looks();
        let behind = discovery_actions(then_state, then_do, rest);
        let e1 = DiscoveryEventModel::Inspected(v.report);
        let (s1, a1) = here.after(e1);
        assert(events[0] == e1);
        lemma_dirs_read(action, discovery_actions(s1, a1, events.drop_first()));
        if needs_helper(v.report) && state.can_elevate {
            let e2 = DiscoveryEventModel::Ensured(v.ensured);
            let e3 = DiscoveryEventModel::Answered(v.answered);
            let (s2, a2) = s1.after(e2);
            assert(events.drop_first() =~= seq![e2, e3] + rest);
            assert((seq![e2, e3] + rest)[0] == e2);
            assert((seq![e2, e3] + rest).drop_first() =~= seq![e3] + rest);
            assert((seq![e3] + rest)[0] == e3);
            assert((seq![e3] + rest).drop_first() =~= rest);
            assert(s2.after(e3) == (then_state, then_do));
            lemma_dirs_read(a1, discovery_actions(s2, a2, seq![e3] + rest));
            lemma_dirs_read(a2, behind);
        } else {
            assert(events.drop_first() =~= rest);
            assert((s1, a1) == (then_state, then_do));
        }
        assert(state.dirs.skip(state.next) =~= seq![state.dirs[state.next]] + state.dirs.skip(
            state.next + 1,
        ));
    }
}

/// A discovery in which every visit goes well reads exactly the candidate
/// directories, each once and in order.
pub proof fn law_discovery_reads_every_directory(
    dirs: Seq<Seq<u8>>,
    visits: Seq<Visit>,
    can_elevate: bool,
)
    requires
        dirs.len() == visits.len(),
        forall|i: int| 0 <= i < visits.len() ==> goes_well(#[trigger] visits[i], can_elevate),
    ensures
        ({
            let (state, action) = discovery_start(dirs, can_elevate);
            dirs_read(discovery_actions(state, action, all_events(visits, can_elevate))) == dirs
        }),
{
    let start = DiscoveryModel {
        phase: DiscoveryPhase::Inspecting,
        dirs,
        next: 0,
        found: Map::empty(),
        blocked: false,
        can_elevate,
    };
    lemma_reads_the_rest(start, visits);
    assert(dirs.skip(0) =~= dirs);
}

/// The helper is asked for a directory right after that directory could not be read
/// and a helper was made sure of, and for no other.
pub proof fn law_helper_asked_for_the_denied(
    dirs: Seq<Seq<u8>>,
    can_elevate: bool,
    events: Seq<DiscoveryEventModel>,
    i: int,
)
    requires
        ({
            let (state, action) = discovery_start(dirs, can_elevate);
            0 <= i < discovery_actions(state, action, events).len()
        }),
    ensures
        ({
            let (state, action) = discovery_start(dirs, can_elevate);
            let steps = discovery_actions(state, action, events);
            steps[i] matches DiscoveryActionModel::Ask(request) ==> {
                &&& i >= 2
                &&& steps[i - 1] is EnsureHelper
                &&& steps[i - 2] matches DiscoveryActionModel::Inspect(dir)
                &&& request == (RequestModel::ListConfigs { dirs: seq![dir] })
            }
        }),
{
    let (state, action) = discovery_start(dirs, can_elevate);
    lemma_asked_for(state, action, events, i);
}

/// What is asked for from the middle of a discovery.
proof fn lemma_asked_for(
    state: DiscoveryModel,
    action: DiscoveryActionModel,
    events: Seq<DiscoveryEventModel>,
    i: int,
)
    requires
        in_step(state, action),
        0 <= i < discovery_actions(state, action, events).len(),
    ensures
        ({
            let steps = discovery_actions(state, action, events);
            steps[i] matches DiscoveryActionModel::Ask(request) ==> {
                &&& i == 0 ==> request == (RequestModel::ListConfigs {
                    dirs: seq![state.dirs[state.next]],
                })
                &&& i == 1 ==> action is EnsureHelper && request == (RequestModel::ListConfigs {
                    dirs: seq![state.dirs[state.next]],
                })
                &&& i >= 2 ==> steps[i - 1] is EnsureHelper && (steps[i - 2] matches
                    DiscoveryActionModel::Inspect(dir) && request == (RequestModel::ListConfigs {
                    dirs: seq![dir],
                }))
            }
        }),
    decreases events.len(),
{
    let steps = discovery_actions(state, action, events);
    if i > 0 {
        let (next, then_do) = state.after(events[0]);
        let behind = discovery_actions(next, then_do, events.drop_first());
        assert(forall|k: int| 0 < k < steps.len() ==> steps[k] == behind[k - 1]);
        lemma_asked_for(next, then_do, events.drop_first(), i - 1);
        assert(behind[0] == then_do);
    }
}

/// Whether a visit brings a file to light: a tunnel file that was seen in the
/// directory, or one that the helper reported of it.
pub open spec fn brings_file(visit: Visit, can_elevate: bool, path: Seq<u8>) -> bool {
    match visit.report {
        ReportModel::Missing => false,
        ReportModel::Entries { entries, .. } => is_tunnel_file(path) && entries.contains(
            EntryModel { path, is_file: true },
        ),
        ReportModel::Unreadable { .. } => can_elevate && (visit.answered matches Ok(
            ResponseModel::Configs { paths },
        ) && paths.contains(path)),
    }
}

/// Some visit brings a file to light.
pub open spec fn brought(visits: Seq<Visit>, can_elevate: bool, path: Seq<u8>) -> bool {
    exists|i: int| 0 <= i < visits.len() && brings_file(#[trigger] visits[i], can_elevate, path)
}

/// Some directory may not be read.
pub open spec fn some_denied(visits: Seq<Visit>) -> bool {
    exists|i: int| 0 <= i < visits.len() && needs_helper((#[trigger] visits[i]).report)
}

/// The findings where every visit goes well.
proof fn lemma_findings_hold(
    dirs: Seq<Seq<u8>>,
    visits: Seq<Visit>,
    can_elevate: bool,
    path: Seq<u8>,
)
    requires
        dirs.len() == visits.len(),
        forall|i: int| 0 <= i < visits.len() ==> goes_well(#[trigger] visits[i], can_elevate),
    ensures
        findings(dirs, visits, can_elevate) matches Ok((paths, blocked)) && (paths.contains(path)
            <==> brought(visits, can_elevate, path)) && (blocked <==> !can_elevate && some_denied(
            visits,
        )),
    decreases dirs.len(),
{
    if dirs.len() > 0 {
        let v = visits.drop_last();
        let last = visits.last();
        assert(last == visits[visits.len() - 1]);
        assert forall|i: int| 0 <= i < v.len() implies goes_well(#[trigger] v[i], can_elevate) by {
            assert(v[i] == visits[i]);
        }
        lemma_findings_hold(dirs.drop_last(), v, can_elevate, path);
        let (paths, blocked) = findings(dirs.drop_last(), v, can_elevate)->Ok_0;
        let (more, passed_over) = finding(dirs.last(), last, can_elevate)->Ok_0;
        if let ReportModel::Entries { entries, .. } = last.report {
            law_picked_files(Looker::FrontEnd, entries, path);
        }
        assert(more.contains(path) <==> brings_file(last, can_elevate, path));
        assert((paths + more).contains(path) <==> paths.contains(path) || more.contains(path)) by {
            let all = paths + more;
            if paths.contains(path) {
                let i = choose|i: int| 0 <= i < paths.len() && paths[i] == path;
                assert(all[i] == path);
            }
            if more.contains(path) {
                let i = choose|i: int| 0 <= i < more.len() && more[i] == path;
                assert(all[paths.len() + i] == path);
            }
            if all.contains(path) {
                let i = choose|i: int| 0 <= i < all.len() && all[i] == path;
                if i < paths.len() {
                    assert(paths[i] == path);
                } else {
                    assert(more[i - paths.len()] == path);
                }
            }
        }
        if brought(v, can_elevate, path) {
            let i = choose|i: int|
                0 <= i < v.len() && brings_file(#[trigger] v[i], can_elevate, path);
            assert(brings_file(visits[i], can_elevate, path));
        }
        if brought(visits, can_elevate, path) {
            let i = choose|i: int|
                0 <= i < visits.len() && brings_file(#[trigger] visits[i], can_elevate, path);
            if i < v.len() {
                assert(brings_file(v[i], can_elevate, path));
            }
        }
        if some_denied(v) {
            let i = choose|i: int| 0 <= i < v.len() && needs_helper((#[trigger] v[i]).report);
            assert(needs_helper(visits[i].report));
        }
        if some_denied(visits) {
            let i = choose|i: int|
                0 <= i < visits.len() && needs_helper((#[trigger] visits[i]).report);
            if i < v.len() {
                assert(needs_helper(v[i].report));
            }
        }
    }
}

/// A discovery in which every visit goes well finds what is there: a tunnel for
/// every name under which a visit brought a file, with such a file, and no other. It
/// fails only with the guidance, where there is no tunnel, a directory may not be
/// read and no dialog can be shown.
pub proof fn law_discovery_finds_what_is_there(
    dirs: Seq<Seq<u8>>,
    visits: Seq<Visit>,
    can_elevate: bool,
    path: Seq<u8>,
    name: Seq<char>,
)
    requires
        dirs.len() == visits.len(),
        forall|i: int| 0 <= i < visits.len() ==> goes_well(#[trigger] visits[i], can_elevate),
    ensures
        ({
            let (state, action) = discovery_start(dirs, can_elevate);
            discovery_run(state, action, all_events(visits, can_elevate)) matches Some(result)
                && match result {
                Ok(found) => {
                    &&& brought(visits, can_elevate, path) && tunnel_name(path) == Some(name)
                        ==> found.dom().contains(name)
                    &&& found.dom().contains(name) ==> brought(visits, can_elevate, found[name])
                        && tunnel_name(found[name]) == Some(name)
                    &&& !can_elevate && some_denied(visits) ==> found != Map::<
                        Seq<char>,
                        Seq<u8>,
                    >::empty()
                },
                Err(e) => {
                    &&& e == guidance()
                    &&& !can_elevate && some_denied(visits)
                    &&& brought(visits, can_elevate, path) ==> tunnel_name(path) is None
                },
            }
        }),
{
    law_discovery_outcome(dirs, visits, can_elevate);
    lemma_findings_hold(dirs, visits, can_elevate, path);
    let (paths, blocked) = findings(dirs, visits, can_elevate)->Ok_0;
    let found = with_paths(Map::empty(), paths);
    if brought(visits, can_elevate, path) {
        if let Some(n) = tunnel_name(path) {
            let i = choose|i: int| 0 <= i < paths.len() && paths[i] == path;
            assert(tunnel_name(paths[i]) == Some(n));
            law_only_offered_names(paths, n);
            assert(found.dom().contains(n));
        }
    }
    if found.dom().contains(name) {
        lemma_found_was_offered(paths, name);
        lemma_findings_hold(dirs, visits, can_elevate, found[name]);
    }
}

/// What is in a table was offered to it under its name.
proof fn lemma_found_was_offered(paths: Seq<Seq<u8>>, name: Seq<char>)
    requires
        with_paths(Map::empty(), paths).dom().contains(name),
    ensures
        paths.contains(with_paths(Map::empty(), paths)[name]),
        tunnel_name(with_paths(Map::empty(), paths)[name]) == Some(name),
    decreases paths.len(),
{
    if paths.len() > 0 {
        let head = paths.drop_last();
        let before = with_paths(Map::empty(), head);
        if before.dom().contains(name) {
            lemma_found_was_offered(head, name);
            let i = choose|i: int| 0 <= i < head.len() && head[i] == before[name];
            assert(paths[i] == before[name]);
        } else {
            assert(paths[paths.len() - 1] == paths.last());
        }
    }
}

/// A discovery ends at the first visit that does not go well, and says why.
pub proof fn law_discovery_says_why_it_failed(
    dirs: Seq<Seq<u8>>,
    visits: Seq<Visit>,
    can_elevate: bool,
    i: int,
)
    requires
        dirs.len() == visits.len(),
        0 <= i < visits.len(),
        forall|j: int| 0 <= j < i ==> goes_well(#[trigger] visits[j], can_elevate),
        !goes_well(visits[i], can_elevate),
    ensures
        ({
            let (state, action) = discovery_start(dirs, can_elevate);
            discovery_run(state, action, all_events(visits, can_elevate)) == Some(
                Err::<Map<Seq<char>, Seq<u8>>, Seq<char>>(
                    match (visits[i].report, visits[i].ensured, visits[i].answered) {
                        (ReportModel::Entries { failure, .. }, _, _) =>
                        "Failed reading directory entry: "@ + failure.unwrap(),
                        (ReportModel::Unreadable { denied: false, reason }, _, _) => "Cannot read "@
                            + readable(dirs[i]) + ": "@ + reason,
                        (_, Err(e), _) => e,
                        (_, _, Err(e)) => e,
                        _ => "Unexpected helper response"@,
                    },
                ),
            )
        }),
{
    law_discovery_outcome(dirs, visits, can_elevate);
    let d = dirs.take(i);
    let v = visits.take(i);
    assert forall|j: int| 0 <= j < v.len() implies goes_well(#[trigger] v[j], can_elevate) by {
        assert(v[j] == visits[j]);
    }
    lemma_findings_hold(d, v, can_elevate, Seq::empty());
    assert(dirs.take(i + 1).drop_last() =~= d);
    assert(visits.take(i + 1).drop_last() =~= v);
    assert(dirs.take(i + 1).last() == dirs[i]);
    assert(visits.take(i + 1).last() == visits[i]);
    assert(findings(dirs.take(i + 1), visits.take(i + 1), can_elevate) is Err);
    lemma_findings_stay_failed(dirs, visits, can_elevate, i + 1);
}

/// What `step` returns to be read is the directory at `next`, which is the one behind
/// the last, and what the helper is asked for is the directory that could not be
/// read. The list of directories stays.
pub proof fn law_step_names_its_directory(
    run: &mut Discovery,
    event: DiscoveryEvent,
    res: DiscoveryAction,
)
    requires
        old(run)@.awaits(event@),
        call_ensures(Discovery::step, (run, event), res),
    ensures
        path_bytes(final(run).dirs@) == path_bytes(old(run).dirs@),
        final(run).can_elevate == old(run).can_elevate,
        res matches DiscoveryAction::Inspect(dir) ==> final(run).next == old(run).next + 1
            && final(run).next < final(run).dirs@.len() && dir@
            == final(run).dirs@[final(run).next as int]@,
        res matches DiscoveryAction::Ask(request) ==> (request matches HelperRequest::ListConfigs {
            dirs,
        } && dirs@.len() == 1 && dirs@[0]@ == old(run).dirs@[old(run).next as int]@),
        res is EnsureHelper <==> old(run).can_elevate && (event matches DiscoveryEvent::Inspected(
            DirectoryReport::Unreadable { denied, .. },
        ) && denied),
{
    let before = path_bytes(old(run).dirs@);
    let after = path_bytes(final(run).dirs@);
    assert(before.len() == old(run).dirs@.len() && after.len() == final(run).dirs@.len());
    if let DiscoveryAction::Ask(HelperRequest::ListConfigs { dirs }) = res {
        assert(path_bytes(dirs@).len() == dirs@.len());
        assert(path_bytes(dirs@)[0] == dirs@[0]@);
    }
}

/// What `discover_tunnels` returns to be read is the first directory.
pub proof fn law_first_directory_returned(
    dirs: Vec<ConfigPath>,
    can_elevate: bool,
    res: (Discovery, DiscoveryAction),
)
    requires
        call_ensures(discover_tunnels, (dirs, can_elevate), res),
    ensures
        path_bytes(res.0.dirs@) == path_bytes(dirs@),
        res.0.next == 0,
        res.0.can_elevate == can_elevate,
        res.0.found@ == Map::<Seq<char>, Seq<u8>>::empty(),
        dirs@.len() > 0 ==> (res.1 matches DiscoveryAction::Inspect(dir) && dir@ == dirs@[0]@),
        dirs@.len() == 0 ==> (res.1 matches DiscoveryAction::Finish(r) && r is Ok),
{
    assert(path_bytes(dirs@).len() == dirs@.len());
}

/// Whether an event is what comes of an action.
pub open spec fn discovery_brings(
    action: DiscoveryActionModel,
    event: DiscoveryEventModel,
) -> bool {
    match action {
        DiscoveryActionModel::Inspect(_) => event is Inspected,
        DiscoveryActionModel::EnsureHelper => event is Ensured,
        DiscoveryActionModel::Ask(_) => event is Answered,
        DiscoveryActionModel::Finish(_) => false,
    }
}

/// A discovery waits for what its last action brings, from its start to its end.
pub proof fn law_discovery_awaits_its_action(
    dirs: Seq<Seq<u8>>,
    can_elevate: bool,
    state: DiscoveryModel,
    event: DiscoveryEventModel,
    next: DiscoveryEventModel,
)
    requires
        state.awaits(event),
    ensures
        ({
            let (first, action) = discovery_start(dirs, can_elevate);
            discovery_brings(action, next) ==> first.awaits(next)
        }),
        ({
            let (then_state, action) = state.after(event);
            discovery_brings(action, next) ==> then_state.awaits(next)
        }),
{
}

} // verus!
