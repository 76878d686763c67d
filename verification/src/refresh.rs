//! Looking for tunnels anew: a discovery, and then the interfaces that are up.

use crate::commands::{interfaces_up, law_interfaces, output_result};
use crate::commands::{CommandOutput, OutputModel};
use crate::discovery::{all_events, breaks_off, denial_reached, needs_helper, Visit};
use crate::discovery::{discovery_actions, discovery_run, discovery_start};
use crate::discovery::{law_discovery_asks_for_access, law_discovery_stays_in_step};
use crate::discovery::lemma_first_or_behind;
use crate::discovery::{Discovery, DiscoveryAction, DiscoveryActionModel};
use crate::discovery::{DiscoveryEvent, DiscoveryEventModel, DiscoveryModel};
use crate::environment::{first_spellings, law_first_candidate, law_graphical};
use crate::environment::{law_system_dir_is_tried, Environment};
use crate::front_end::{law_discovery_is_shown, law_front_end_holds_its_fields};
use crate::front_end::{named_dir, new_app, AppModel, WireSmartApp};
use crate::paths::{path_bytes, ConfigPath};
use crate::protocol::{HelperRequest, RequestModel};
use crate::text::{decimal, readable, words};
use crate::tunnels::{is_listing, TunnelModel};
use vstd::pervasive::unreached;
use vstd::prelude::*;

verus! {

/// A refresh under way.
pub enum Refresh {
    /// Tunnels are looked for.
    Discovering(Discovery),
    /// The interfaces that are up are read.
    ReadingStatus,
    Finished,
}

/// What a `Refresh` holds.
#[verifier::ext_equal]
pub enum RefreshModel {
    Discovering(DiscoveryModel),
    ReadingStatus,
    Finished,
}

impl View for Refresh {
    type V = RefreshModel;

    open spec fn view(&self) -> RefreshModel {
        match *self {
            Refresh::Discovering(discovery) => RefreshModel::Discovering(discovery@),
            Refresh::ReadingStatus => RefreshModel::ReadingStatus,
            Refresh::Finished => RefreshModel::Finished,
        }
    }
}

/// What came of an action.
pub enum RefreshEvent {
    /// What the discovery waited for.
    Discovered(DiscoveryEvent),
    /// `wg show interfaces` was run.
    StatusRead(Result<CommandOutput, String>),
}

/// What a `RefreshEvent` holds.
pub enum RefreshEventModel {
    Discovered(DiscoveryEventModel),
    StatusRead(Result<OutputModel, Seq<char>>),
}

impl View for RefreshEvent {
    type V = RefreshEventModel;

    open spec fn view(&self) -> RefreshEventModel {
        match *self {
            RefreshEvent::Discovered(event) => RefreshEventModel::Discovered(event@),
            RefreshEvent::StatusRead(r) => RefreshEventModel::StatusRead(output_result(r)),
        }
    }
}

/// What is to be done next.
pub enum RefreshAction {
    /// Read this directory.
    Inspect(ConfigPath),
    /// Make sure that a helper answers.
    EnsureHelper,
    /// Ask the helper.
    Ask(HelperRequest),
    /// Run `wg show interfaces`.
    ReadStatus,
    /// The refresh is over.
    Finish,
}

/// What a `RefreshAction` holds.
#[verifier::ext_equal]
pub enum RefreshActionModel {
    Inspect(Seq<u8>),
    EnsureHelper,
    Ask(RequestModel),
    ReadStatus,
    Finish,
}

impl View for RefreshAction {
    type V = RefreshActionModel;

    open spec fn view(&self) -> RefreshActionModel {
        match *self {
            RefreshAction::Inspect(dir) => RefreshActionModel::Inspect(dir@),
            RefreshAction::EnsureHelper => RefreshActionModel::EnsureHelper,
            RefreshAction::Ask(request) => RefreshActionModel::Ask(request@),
            RefreshAction::ReadStatus => RefreshActionModel::ReadStatus,
            RefreshAction::Finish => RefreshActionModel::Finish,
        }
    }
}

/// What a refresh makes of a discovery's action: where the discovery is over,
/// however it went, the front end takes its outcome and the interfaces are read.
pub open spec fn carried(
    app: AppModel,
    discovery: DiscoveryModel,
    action: DiscoveryActionModel,
) -> (RefreshModel, AppModel, RefreshActionModel) {
    match action {
        DiscoveryActionModel::Inspect(dir) => (
            RefreshModel::Discovering(discovery),
            app,
            RefreshActionModel::Inspect(dir),
        ),
        DiscoveryActionModel::EnsureHelper => (
            RefreshModel::Discovering(discovery),
            app,
            RefreshActionModel::EnsureHelper,
        ),
        DiscoveryActionModel::Ask(request) => (
            RefreshModel::Discovering(discovery),
            app,
            RefreshActionModel::Ask(request),
        ),
        DiscoveryActionModel::Finish(outcome) => (
            RefreshModel::ReadingStatus,
            app.with_discovery(discovery.found, outcome),
            RefreshActionModel::ReadStatus,
        ),
    }
}

/// How a refresh begins.
pub open spec fn refresh_start(app: AppModel, dirs: Seq<Seq<u8>>, can_elevate: bool) -> (
    RefreshModel,
    AppModel,
    RefreshActionModel,
) {
    let (discovery, action) = discovery_start(dirs, can_elevate);
    carried(app.cleared(), discovery, action)
}

impl RefreshModel {
    /// Whether the refresh waits for an event of this kind.
    pub open spec fn awaits(self, event: RefreshEventModel) -> bool {
        match event {
            RefreshEventModel::Discovered(e) => self matches RefreshModel::Discovering(d)
                && d.awaits(e),
            RefreshEventModel::StatusRead(_) => self is ReadingStatus,
        }
    }

    /// The refresh, the front end and the action after an event.
    pub open spec fn after(self, app: AppModel, event: RefreshEventModel) -> (
        RefreshModel,
        AppModel,
        RefreshActionModel,
    ) {
        match (self, event) {
            (RefreshModel::Discovering(discovery), RefreshEventModel::Discovered(e)) => {
                let (next, action) = discovery.after(e);
                carried(app, next, action)
            },
            (_, RefreshEventModel::StatusRead(ran)) => (
                RefreshModel::Finished,
                app.with_status(ran),
                RefreshActionModel::Finish,
            ),
            _ => arbitrary(),
        }
    }
}

impl Refresh {
    /// The discovery is in order.
    pub open spec fn wf(&self) -> bool {
        self matches Refresh::Discovering(discovery) ==> discovery.wf()
    }

    /// Goes on with a discovery, or takes its outcome.
    fn carry(app: &mut WireSmartApp, discovery: Discovery, action: DiscoveryAction) -> (res: (
        Refresh,
        RefreshAction,
    ))
        requires
            old(app).wf(),
            discovery.wf(),
        ensures
            final(app).wf(),
            res.0.wf(),
            (res.0@, final(app)@, res.1@) == carried(old(app)@, discovery@, action@),
    {
        match action {
            DiscoveryAction::Inspect(dir) => (
                Refresh::Discovering(discovery),
                RefreshAction::Inspect(dir),
            ),
            DiscoveryAction::EnsureHelper => (
                Refresh::Discovering(discovery),
                RefreshAction::EnsureHelper,
            ),
            DiscoveryAction::Ask(request) => (
                Refresh::Discovering(discovery),
                RefreshAction::Ask(request),
            ),
            DiscoveryAction::Finish(outcome) => {
                app.finish_discovery(discovery, outcome);
                (Refresh::ReadingStatus, RefreshAction::ReadStatus)
            },
        }
    }

    /// Goes on after an event.
    pub fn step(self, app: &mut WireSmartApp, event: RefreshEvent) -> (res: (
        Refresh,
        RefreshAction,
    ))
        requires
            old(app).wf(),
            self.wf(),
            self@.awaits(event@),
        ensures
            final(app).wf(),
            res.0.wf(),
            (res.0@, final(app)@, res.1@) == self@.after(old(app)@, event@),
    {
        match (self, event) {
            (Refresh::Discovering(discovery), RefreshEvent::Discovered(event)) => {
                let mut discovery = discovery;
                let action = discovery.step(event);
                Refresh::carry(app, discovery, action)
            },
            (Refresh::ReadingStatus, RefreshEvent::StatusRead(ran)) => {
                app.refresh_status(ran);
                (Refresh::Finished, RefreshAction::Finish)
            },
            _ => unreached(),
        }
    }
}

impl WireSmartApp {
    /// Begins to look for tunnels anew.
    pub fn refresh(&mut self, env: &Environment) -> (res: (Refresh, RefreshAction))
        requires
            old(self).wf(),
        ensures
            final(self).wf(),
            res.0.wf(),
            (res.0@, final(self)@, res.1@) == refresh_start(
                old(self)@,
                first_spellings(env.dirs_to_try(named_dir(old(self)@.custom_dir))),
                old(self)@.pkexec_available && env.graphical(),
            ),
    {
        self.error_message = None;
        let (discovery, action) = self.discover_tunnels_with_privilege(env);
        Refresh::carry(self, discovery, action)
    }

    /// Starts the front end, which begins with looking for tunnels.
    pub fn start(wg_quick_available: bool, pkexec_available: bool, env: &Environment) -> (res: (
        Self,
        Refresh,
        RefreshAction,
    ))
        ensures
            res.0.wf(),
            res.1.wf(),
            (res.1@, res.0@, res.2@) == refresh_start(
                new_app(wg_quick_available, pkexec_available),
                first_spellings(env.dirs_to_try(None)),
                pkexec_available && env.graphical(),
            ),
    {
        let mut app = WireSmartApp::new(wg_quick_available, pkexec_available);
        let (refresh, action) = app.refresh(env);
        (app, refresh, action)
    }
}

/// The front end at the end of a refresh on these events, if they suffice.
pub open spec fn refresh_run(
    refresh: RefreshModel,
    app: AppModel,
    action: RefreshActionModel,
    events: Seq<RefreshEventModel>,
) -> Option<AppModel>
    decreases events.len(),
{
    if action is Finish {
        Some(app)
    } else if events.len() == 0 || !refresh.awaits(events[0]) {
        None
    } else {
        let (next, then_app, then_do) = refresh.after(app, events[0]);
        refresh_run(next, then_app, then_do, events.drop_first())
    }
}

/// The events of a discovery as those of a refresh, and then the status.
pub open spec fn then_status(
    events: Seq<DiscoveryEventModel>,
    status: Result<OutputModel, Seq<char>>,
) -> Seq<RefreshEventModel> {
    events.map_values(|e: DiscoveryEventModel| RefreshEventModel::Discovered(e)).push(
        RefreshEventModel::StatusRead(status),
    )
}

/// The front end after a discovery with this result and the reading of the
/// interfaces.
pub open spec fn refreshed(
    app: AppModel,
    result: Result<Map<Seq<char>, Seq<u8>>, Seq<char>>,
    status: Result<OutputModel, Seq<char>>,
) -> AppModel {
    match result {
        Ok(found) => app.with_discovery(found, Ok(())),
        Err(e) => app.with_discovery(Map::empty(), Err(e)),
    }.with_status(status)
}

/// A refresh from the middle of its discovery.
proof fn lemma_refresh_from(
    app: AppModel,
    discovery: DiscoveryModel,
    action: DiscoveryActionModel,
    events: Seq<DiscoveryEventModel>,
    status: Result<OutputModel, Seq<char>>,
)
    requires
        discovery_run(discovery, action, events) is Some,
        events.len() > 0 ==> discovery_run(discovery, action, events.drop_last()) is None,
    ensures
        ({
            let (refresh, now, first) = carried(app, discovery, action);
            refresh_run(refresh, now, first, then_status(events, status)) == Some(
                refreshed(app, discovery_run(discovery, action, events).unwrap(), status),
            )
        }),
    decreases events.len(),
{
    let all = then_status(events, status);
    let (refresh, now, first) = carried(app, discovery, action);
    reveal_with_fuel(refresh_run, 2);
    if action is Finish {
        if events.len() > 0 {
            assert(discovery_run(discovery, action, events.drop_last()) is Some);
        }
        assert(all[0] == RefreshEventModel::StatusRead(status));
    } else {
        let (next, then_do) = discovery.after(events[0]);
        let rest = events.drop_first();
        assert(all[0] == RefreshEventModel::Discovered(events[0]));
        assert(all.drop_first() =~= then_status(rest, status));
        if rest.len() > 0 {
            assert(events.drop_last().drop_first() =~= rest.drop_last());
            assert(events.drop_last()[0] == events[0]);
        }
        lemma_refresh_from(app, next, then_do, rest, status);
    }
}

/// A refresh whose discovery comes to a result on `events`, and to none before,
/// goes on to read the interfaces. It ends with the discovery's result and with
/// the interfaces that were read, whether the discovery succeeded or failed.
pub proof fn law_refresh_run(
    app: AppModel,
    dirs: Seq<Seq<u8>>,
    can_elevate: bool,
    events: Seq<DiscoveryEventModel>,
    status: Result<OutputModel, Seq<char>>,
)
    requires
        ({
            let (discovery, action) = discovery_start(dirs, can_elevate);
            &&& discovery_run(discovery, action, events) is Some
            &&& events.len() > 0 ==> discovery_run(discovery, action, events.drop_last()) is None
        }),
    ensures
        ({
            let (discovery, action) = discovery_start(dirs, can_elevate);
            let (refresh, now, first) = refresh_start(app, dirs, can_elevate);
            refresh_run(refresh, now, first, then_status(events, status)) == Some(
                refreshed(
                    app.cleared(),
                    discovery_run(discovery, action, events).unwrap(),
                    status,
                ),
            )
        }),
{
    let (discovery, action) = discovery_start(dirs, can_elevate);
    lemma_refresh_from(app.cleared(), discovery, action, events, status);
}

/// Some event is that these interfaces were read, and they are the ones that
/// the front end shows.
pub open spec fn shows_status(events: Seq<RefreshEventModel>, app: AppModel) -> bool {
    exists|i: int|
        0 <= i < events.len() && (#[trigger] events[i] matches RefreshEventModel::StatusRead(ran)
            && app.active == interfaces_up(ran))
}

/// Nothing but the tunnels, the interfaces that are up and the two messages
/// differs.
pub open spec fn keeps_the_rest(before: AppModel, after: AppModel) -> bool {
    after == (AppModel {
        tunnels: after.tunnels,
        active: after.active,
        info: after.info,
        error: after.error,
        ..before
    })
}

/// The end of a refresh from its middle.
proof fn lemma_refresh_reads_status(
    refresh: RefreshModel,
    app: AppModel,
    action: RefreshActionModel,
    events: Seq<RefreshEventModel>,
)
    requires
        action !is Finish,
    ensures
        refresh_run(refresh, app, action, events) matches Some(now) ==> shows_status(events, now)
            && keeps_the_rest(app, now),
    decreases events.len(),
{
    reveal_with_fuel(refresh_run, 2);
    if events.len() > 0 && refresh.awaits(events[0]) {
        let (next, then_app, then_do) = refresh.after(app, events[0]);
        let rest = events.drop_first();
        if then_do is Finish {
            assert(events[0] is StatusRead);
        } else {
            lemma_refresh_reads_status(next, then_app, then_do, rest);
            if let Some(now) = refresh_run(next, then_app, then_do, rest) {
                let i = choose|i: int|
                    0 <= i < rest.len() && (#[trigger] rest[i] matches
                        RefreshEventModel::StatusRead(ran) && now.active == interfaces_up(ran));
                assert(events[i + 1] == rest[i]);
            }
        }
    }
}

/// No refresh is over before the interfaces were read: whatever happens on the
/// way, the front end ends up showing the ones that were. What the user typed and
/// all else that is not a result of the refresh stays.
pub proof fn law_refresh_reads_status(
    app: AppModel,
    dirs: Seq<Seq<u8>>,
    can_elevate: bool,
    events: Seq<RefreshEventModel>,
)
    ensures
        ({
            let (refresh, now, first) = refresh_start(app, dirs, can_elevate);
            refresh_run(refresh, now, first, events) matches Some(end) ==> shows_status(
                events,
                end,
            ) && keeps_the_rest(app, end)
        }),
{
    let (refresh, now, first) = refresh_start(app, dirs, can_elevate);
    lemma_refresh_reads_status(refresh, now, first, events);
}

/// Whether a helper is running has no part in a refresh: it may change while the
/// refresh is under way, and changes nothing else.
pub proof fn law_refresh_leaves_the_helper(
    refresh: RefreshModel,
    app: AppModel,
    event: RefreshEventModel,
    running: bool,
)
    requires
        refresh.awaits(event),
    ensures
        ({
            let (next, now, action) = refresh.after(app, event);
            refresh.after(AppModel { helper_running: running, ..app }, event) == (
                next,
                AppModel { helper_running: running, ..now },
                action,
            )
        }),
{
}

/// The actions of a refresh on these events, in order.
pub open spec fn refresh_actions(
    refresh: RefreshModel,
    app: AppModel,
    action: RefreshActionModel,
    events: Seq<RefreshEventModel>,
) -> Seq<RefreshActionModel>
    decreases events.len(),
{
    seq![action] + if action is Finish || events.len() == 0 || !refresh.awaits(events[0]) {
        Seq::empty()
    } else {
        let (next, then_app, then_do) = refresh.after(app, events[0]);
        refresh_actions(next, then_app, then_do, events.drop_first())
    }
}

/// A refresh asks for elevated access where its discovery does.
proof fn lemma_refresh_asks(
    app: AppModel,
    discovery: DiscoveryModel,
    action: DiscoveryActionModel,
    events: Seq<DiscoveryEventModel>,
    status: Result<OutputModel, Seq<char>>,
)
    ensures
        ({
            let (refresh, now, first) = carried(app, discovery, action);
            refresh_actions(refresh, now, first, then_status(events, status)).contains(
                RefreshActionModel::EnsureHelper,
            ) <==> discovery_actions(discovery, action, events).contains(
                DiscoveryActionModel::EnsureHelper,
            )
        }),
    decreases events.len(),
{
    let all = then_status(events, status);
    let (refresh, now, first) = carried(app, discovery, action);
    let ask = RefreshActionModel::EnsureHelper;
    let none = Seq::<RefreshActionModel>::empty();
    lemma_first_or_behind(
        action,
        Seq::<DiscoveryActionModel>::empty(),
        DiscoveryActionModel::EnsureHelper,
    );
    lemma_first_or_behind(first, none, ask);
    if action is Finish {
        let (next, then_app, then_do) = refresh.after(now, all[0]);
        if refresh.awaits(all[0]) {
            lemma_first_or_behind(
                first,
                refresh_actions(next, then_app, then_do, all.drop_first()),
                ask,
            );
            lemma_first_or_behind(then_do, none, ask);
        }
    } else if events.len() == 0 {
        assert(all[0] is StatusRead);
    } else {
        assert(all[0] == RefreshEventModel::Discovered(events[0]));
        if discovery.awaits(events[0]) {
            let (next, then_do) = discovery.after(events[0]);
            let rest = events.drop_first();
            assert(all.drop_first() =~= then_status(rest, status));
            lemma_refresh_asks(app, next, then_do, rest, status);
            let (r, a, d) = carried(app, next, then_do);
            lemma_first_or_behind(first, refresh_actions(r, a, d, all.drop_first()), ask);
            lemma_first_or_behind(
                action,
                discovery_actions(next, then_do, rest),
                DiscoveryActionModel::EnsureHelper,
            );
        }
    }
}

/// A refresh asks the user for elevated access iff a privilege dialog can be
/// shown and it comes to a directory that may not be read.
pub proof fn law_refresh_asks_for_access(
    app: AppModel,
    dirs: Seq<Seq<u8>>,
    can_elevate: bool,
    visits: Seq<Visit>,
    status: Result<OutputModel, Seq<char>>,
)
    requires
        dirs.len() == visits.len(),
    ensures
        ({
            let (refresh, now, first) = refresh_start(app, dirs, can_elevate);
            refresh_actions(
                refresh,
                now,
                first,
                then_status(all_events(visits, can_elevate), status),
            ).contains(RefreshActionModel::EnsureHelper) <==> can_elevate && denial_reached(visits)
        }),
{
    let (discovery, action) = discovery_start(dirs, can_elevate);
    law_discovery_asks_for_access(dirs, visits, can_elevate);
    lemma_refresh_asks(app.cleared(), discovery, action, all_events(visits, can_elevate), status);
}

/// At its start, where a privilege dialog can be shown and no directory fails for
/// another reason than permission, the front end asks the user for elevated
/// access iff some candidate directory may not be read.
pub proof fn law_start_asks_for_access(
    wg_quick_available: bool,
    env: Environment,
    visits: Seq<Visit>,
    status: Result<OutputModel, Seq<char>>,
)
    requires
        env.graphical(),
        visits.len() == first_spellings(env.dirs_to_try(None)).len(),
        forall|i: int| 0 <= i < visits.len() ==> !breaks_off((#[trigger] visits[i]).report),
    ensures
        ({
            let (refresh, now, first) = refresh_start(
                new_app(wg_quick_available, true),
                first_spellings(env.dirs_to_try(None)),
                env.graphical(),
            );
            refresh_actions(
                refresh,
                now,
                first,
                then_status(all_events(visits, env.graphical()), status),
            ).contains(RefreshActionModel::EnsureHelper) <==> exists|i: int|
                0 <= i < visits.len() && needs_helper((#[trigger] visits[i]).report)
        }),
{
    law_refresh_asks_for_access(
        new_app(wg_quick_available, true),
        first_spellings(env.dirs_to_try(None)),
        true,
        visits,
        status,
    );
    if exists|i: int| 0 <= i < visits.len() && needs_helper((#[trigger] visits[i]).report) {
        let i = choose|i: int| 0 <= i < visits.len() && needs_helper((#[trigger] visits[i]).report);
        assert(denial_reached(visits));
    }
}

/// What a refresh does for its discovery. Where the discovery is over, the
/// interfaces are read.
pub open spec fn done_for(action: DiscoveryActionModel) -> RefreshActionModel {
    match action {
        DiscoveryActionModel::Inspect(dir) => RefreshActionModel::Inspect(dir),
        DiscoveryActionModel::EnsureHelper => RefreshActionModel::EnsureHelper,
        DiscoveryActionModel::Ask(request) => RefreshActionModel::Ask(request),
        DiscoveryActionModel::Finish(_) => RefreshActionModel::ReadStatus,
    }
}

/// The actions of a refresh from the middle of its discovery.
proof fn lemma_steps_from(
    app: AppModel,
    discovery: DiscoveryModel,
    action: DiscoveryActionModel,
    events: Seq<DiscoveryEventModel>,
    status: Result<OutputModel, Seq<char>>,
)
    requires
        discovery_run(discovery, action, events) is Some,
        events.len() > 0 ==> discovery_run(discovery, action, events.drop_last()) is None,
    ensures
        ({
            let (refresh, now, first) = carried(app, discovery, action);
            refresh_actions(refresh, now, first, then_status(events, status)) == discovery_actions(
                discovery,
                action,
                events,
            ).map_values(|a: DiscoveryActionModel| done_for(a)).push(RefreshActionModel::Finish)
        }),
    decreases events.len(),
{
    let all = then_status(events, status);
    let (refresh, now, first) = carried(app, discovery, action);
    let done = |a: DiscoveryActionModel| done_for(a);
    reveal_with_fuel(refresh_actions, 3);
    if action is Finish {
        if events.len() > 0 {
            assert(discovery_run(discovery, action, events.drop_last()) is Some);
        }
        assert(all[0] == RefreshEventModel::StatusRead(status));
        assert(discovery_actions(discovery, action, events) =~= seq![action]);
        assert(seq![action].map_values(done).push(RefreshActionModel::Finish) =~= seq![
            RefreshActionModel::ReadStatus,
            RefreshActionModel::Finish,
        ]);
    } else {
        let (next, then_do) = discovery.after(events[0]);
        let rest = events.drop_first();
        assert(all[0] == RefreshEventModel::Discovered(events[0]));
        assert(all.drop_first() =~= then_status(rest, status));
        if rest.len() > 0 {
            assert(events.drop_last().drop_first() =~= rest.drop_last());
            assert(events.drop_last()[0] == events[0]);
        }
        lemma_steps_from(app, next, then_do, rest, status);
        let behind = discovery_actions(next, then_do, rest);
        assert((seq![action] + behind).map_values(done) =~= seq![done(action)] + behind.map_values(
            done,
        ));
    }
}

/// A refresh does what its discovery asks for, step by step, and then reads the
/// interfaces and ends.
pub proof fn law_steps_of_a_refresh(
    app: AppModel,
    dirs: Seq<Seq<u8>>,
    can_elevate: bool,
    events: Seq<DiscoveryEventModel>,
    status: Result<OutputModel, Seq<char>>,
)
    requires
        ({
            let (discovery, action) = discovery_start(dirs, can_elevate);
            &&& discovery_run(discovery, action, events) is Some
            &&& events.len() > 0 ==> discovery_run(discovery, action, events.drop_last()) is None
        }),
    ensures
        ({
            let (discovery, action) = discovery_start(dirs, can_elevate);
            let (refresh, now, first) = refresh_start(app, dirs, can_elevate);
            refresh_actions(refresh, now, first, then_status(events, status)) == discovery_actions(
                discovery,
                action,
                events,
            ).map_values(|a: DiscoveryActionModel| done_for(a)).push(RefreshActionModel::Finish)
        }),
{
    let (discovery, action) = discovery_start(dirs, can_elevate);
    lemma_steps_from(app.cleared(), discovery, action, events, status);
}

/// What the user gets to see after a refresh: the tunnels that were found and how
/// many there are, or why there are none, and the interfaces that are up then.
/// Nothing else changes.
pub proof fn law_refresh_shows_what_was_found(
    app: AppModel,
    dirs: Seq<Seq<u8>>,
    can_elevate: bool,
    events: Seq<DiscoveryEventModel>,
    status: Result<OutputModel, Seq<char>>,
    listing: Seq<TunnelModel>,
)
    requires
        ({
            let (discovery, action) = discovery_start(dirs, can_elevate);
            &&& discovery_run(discovery, action, events) matches Some(result) && (result matches
                Ok(found) ==> is_listing(listing, found))
            &&& events.len() > 0 ==> discovery_run(discovery, action, events.drop_last()) is None
        }),
    ensures
        ({
            let (discovery, action) = discovery_start(dirs, can_elevate);
            let (refresh, now, first) = refresh_start(app, dirs, can_elevate);
            refresh_run(refresh, now, first, then_status(events, status)) matches Some(end) && {
                &&& match discovery_run(discovery, action, events).unwrap() {
                    Ok(found) => end == (AppModel {
                        tunnels: listing,
                        info: "Found "@ + decimal(found.dom().len()) + " tunnel(s)"@,
                        error: None,
                        active: end.active,
                        ..app
                    }),
                    Err(e) => end == (AppModel {
                        tunnels: Seq::empty(),
                        error: Some(e),
                        active: end.active,
                        ..app
                    }),
                }
                &&& forall|name: Seq<char>| #[trigger]
                    end.active.contains(name) <==> (status matches Ok(output) && output.success
                        && words(readable(output.stdout)).contains(name))
            }
        }),
{
    let (discovery, action) = discovery_start(dirs, can_elevate);
    law_refresh_run(app, dirs, can_elevate, events, status);
    if let Ok(found) = discovery_run(discovery, action, events).unwrap() {
        law_discovery_is_shown(app.cleared(), found, listing, Seq::empty());
    }
    assert forall|name: Seq<char>| #[trigger]
        interfaces_up(status).contains(name) <==> (status matches Ok(output) && output.success
            && words(readable(output.stdout)).contains(name)) by {
        law_interfaces(status, name);
    }
}

/// Whether an event is what comes of an action.
pub open spec fn refresh_brings(action: RefreshActionModel, event: RefreshEventModel) -> bool {
    match (action, event) {
        (RefreshActionModel::Inspect(_), RefreshEventModel::Discovered(e)) => e is Inspected,
        (RefreshActionModel::EnsureHelper, RefreshEventModel::Discovered(e)) => e is Ensured,
        (RefreshActionModel::Ask(_), RefreshEventModel::Discovered(e)) => e is Answered,
        (RefreshActionModel::ReadStatus, RefreshEventModel::StatusRead(_)) => true,
        _ => false,
    }
}

/// A refresh waits for what its last action brings, from its start to its end.
pub proof fn law_refresh_awaits_its_action(
    app: AppModel,
    dirs: Seq<Seq<u8>>,
    can_elevate: bool,
    refresh: RefreshModel,
    event: RefreshEventModel,
    next: RefreshEventModel,
)
    requires
        refresh.awaits(event),
    ensures
        ({
            let (first, _, action) = refresh_start(app, dirs, can_elevate);
            refresh_brings(action, next) ==> first.awaits(next)
        }),
        ({
            let (then_refresh, _, action) = refresh.after(app, event);
            refresh_brings(action, next) ==> then_refresh.awaits(next)
        }),
{
}

/// What `start` returns: a front end that looks in its first candidate directory.
/// Nothing is shown yet but that.
pub proof fn law_start_returned(
    wg_quick_available: bool,
    pkexec_available: bool,
    env: Environment,
    res: (WireSmartApp, Refresh, RefreshAction),
)
    requires
        call_ensures(WireSmartApp::start, (wg_quick_available, pkexec_available, &env), res),
    ensures
        res.0.wg_quick_available == wg_quick_available,
        res.0.pkexec_available == pkexec_available,
        res.0.info_message@ == "Discovering WireGuard tunnels..."@,
        res.0.error_message is None,
        res.0.tunnels@.len() == 0,
        !res.0.helper_running,
        res.2 matches RefreshAction::Inspect(dir) && dir@ == env.dirs_to_try(None)[0],
        res.1 matches Refresh::Discovering(discovery) && path_bytes(discovery.dirs@)
            == first_spellings(env.dirs_to_try(None)) && (discovery.can_elevate <==> pkexec_available
            && (env.wayland_display || env.wayland_socket || env.display)),
{
    let dirs = env.dirs_to_try(None);
    law_system_dir_is_tried(env, None);
    assert(dirs.len() > 0);
    law_first_candidate(dirs);
    law_front_end_holds_its_fields(res.0, Seq::empty(), 0);
    law_graphical(env);
}

/// What a refresh's `step` returns: what the discovery asks for next, the reading of
/// the interfaces once it is over, and the end once they are read.
pub proof fn law_refresh_step_returned(
    refresh: Refresh,
    app: &mut WireSmartApp,
    event: RefreshEvent,
    res: (Refresh, RefreshAction),
)
    requires
        refresh@.awaits(event@),
        call_ensures(Refresh::step, (refresh, app, event), res),
    ensures
        event is StatusRead <==> res.1 is Finish,
        res.1 is Finish ==> res.0 is Finished,
        res.1 is ReadStatus ==> res.0 is ReadingStatus,
        res.1 matches RefreshAction::Inspect(dir) ==> (res.0 matches Refresh::Discovering(
            discovery,
        ) && discovery.next < discovery.dirs@.len() && dir@
            == discovery.dirs@[discovery.next as int]@),
        final(app).custom_config_dir@ == old(app).custom_config_dir@,
{
    assert(final(app)@.custom_dir == old(app)@.custom_dir);
    if let Refresh::Discovering(discovery) = res.0 {
        assert(path_bytes(discovery.dirs@).len() == discovery.dirs@.len());
    }
    if let (RefreshModel::Discovering(d), RefreshEventModel::Discovered(e)) = (refresh@, event@) {
        law_discovery_stays_in_step(d.dirs, d.can_elevate, d, e);
    }
}

} // verus!
