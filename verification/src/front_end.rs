//! The front end's state, and what the user's actions do to it.

use crate::commands::{active_interfaces, interfaces_up, law_interfaces, output_result};
use crate::commands::{CommandOutput, OutputModel};
use crate::discovery::{discover_tunnels, discovery_start, Discovery, DiscoveryAction};
use crate::environment::{candidate_config_dirs, first_spellings, has_graphical_session};
use crate::environment::{law_first_candidate, law_graphical, law_system_dir_is_tried};
use crate::environment::{path_in, Environment};
use crate::helper::{check_start, ensure_helper_available, CheckAction, HelperCheck};
use crate::paths::{path_bytes, ConfigPath};
use crate::protocol::unit_result;
use crate::text::{blank, is_white_space, law_trimmed_keeps_the_text, readable, words};
use crate::text::{decimal, decimal_text, law_trimmed, texts, trim, trimmed};
use crate::tunnels::{is_listing, law_listing_is_unique, sorted_by_name, tunnel_models};
use crate::tunnels::{law_listing_counts_names, Tunnel, TunnelModel};
use vstd::prelude::*;
use vstd::utf8::*;

verus! {

/// The front end.
pub struct WireSmartApp {
    /// The tunnels that were found, ascending by name.
    pub tunnels: Vec<Tunnel>,
    /// The interfaces that are up, each once.
    pub active_interfaces: Vec<String>,
    /// The status line.
    pub info_message: String,
    /// What went wrong last.
    pub error_message: Option<String>,
    /// The directory that the user typed.
    pub custom_config_dir: String,
    /// `wg-quick` can be run.
    pub wg_quick_available: bool,
    /// `pkexec` can be run.
    pub pkexec_available: bool,
    /// A helper was started and is kept.
    pub helper_running: bool,
    /// The text styles were scaled.
    pub style_scaled: bool,
    /// The logo was loaded.
    pub logo_loaded: bool,
}

/// What a `WireSmartApp` holds.
#[verifier::ext_equal]
pub struct AppModel {
    pub tunnels: Seq<TunnelModel>,
    pub active: Set<Seq<char>>,
    pub info: Seq<char>,
    pub error: Option<Seq<char>>,
    pub custom_dir: Seq<char>,
    pub wg_quick_available: bool,
    pub pkexec_available: bool,
    pub helper_running: bool,
    pub style_scaled: bool,
    pub logo_loaded: bool,
}

/// The text in an option.
pub open spec fn text_in(t: Option<String>) -> Option<Seq<char>> {
    match t {
        Some(t) => Some(t@),
        None => None,
    }
}

impl View for WireSmartApp {
    type V = AppModel;

    open spec fn view(&self) -> AppModel {
        AppModel {
            tunnels: tunnel_models(self.tunnels@),
            active: texts(self.active_interfaces@).to_set(),
            info: self.info_message@,
            error: text_in(self.error_message),
            custom_dir: self.custom_config_dir@,
            wg_quick_available: self.wg_quick_available,
            pkexec_available: self.pkexec_available,
            helper_running: self.helper_running,
            style_scaled: self.style_scaled,
            logo_loaded: self.logo_loaded,
        }
    }
}

/// The one listing of a table.
pub open spec fn listing_of(table: Map<Seq<char>, Seq<u8>>) -> Seq<TunnelModel> {
    choose|s: Seq<TunnelModel>| is_listing(s, table)
}

/// The directory that the user's text names, if it names one.
pub open spec fn named_dir(typed: Seq<char>) -> Option<Seq<u8>> {
    if trimmed(typed).len() == 0 {
        None
    } else {
        Some(encode_utf8(trimmed(typed)))
    }
}

impl AppModel {
    /// The state with an error to show.
    pub open spec fn failing(self, message: Seq<char>) -> AppModel {
        AppModel { error: Some(message), ..self }
    }

    /// The state with a new status line.
    pub open spec fn informing(self, message: Seq<char>) -> AppModel {
        AppModel { info: message, ..self }
    }

    /// The state without an error to show.
    pub open spec fn cleared(self) -> AppModel {
        AppModel { error: None, ..self }
    }

    /// The state after the interfaces were read.
    pub open spec fn with_status(self, ran: Result<OutputModel, Seq<char>>) -> AppModel {
        AppModel { active: interfaces_up(ran), ..self }
    }

    /// The state after a discovery.
    pub open spec fn with_discovery(
        self,
        found: Map<Seq<char>, Seq<u8>>,
        outcome: Result<(), Seq<char>>,
    ) -> AppModel {
        match outcome {
            Ok(_) => AppModel { tunnels: listing_of(found), ..self }.informing(
                found_text(listing_of(found).len()),
            ),
            Err(e) => AppModel { tunnels: Seq::empty(), ..self }.failing(e),
        }
    }
}

/// The front end before its first discovery.
pub open spec fn new_app(wg_quick_available: bool, pkexec_available: bool) -> AppModel {
    AppModel {
        tunnels: Seq::empty(),
        active: Set::empty(),
        info: "Discovering WireGuard tunnels..."@,
        error: None,
        custom_dir: Seq::empty(),
        wg_quick_available,
        pkexec_available,
        helper_running: false,
        style_scaled: false,
        logo_loaded: false,
    }
}

/// The status line after a discovery.
pub open spec fn found_text(count: nat) -> Seq<char> {
    "Found "@ + decimal(count) + " tunnel(s)"@
}

impl WireSmartApp {
    /// The tunnels ascend by name, and no interface is listed twice.
    pub open spec fn wf(&self) -> bool {
        &&& sorted_by_name(tunnel_models(self.tunnels@))
        &&& texts(self.active_interfaces@).no_duplicates()
    }

    /// The state before the first discovery.
    pub fn new(wg_quick_available: bool, pkexec_available: bool) -> (res: Self)
        ensures
            res.wf(),
            res@ == new_app(wg_quick_available, pkexec_available),
    {
        let res = WireSmartApp {
            tunnels: Vec::new(),
            active_interfaces: Vec::new(),
            info_message: "Discovering WireGuard tunnels...".to_owned(),
            error_message: None,
            custom_config_dir: String::new(),
            wg_quick_available,
            pkexec_available,
            helper_running: false,
            style_scaled: false,
            logo_loaded: false,
        };
        assert(res@.tunnels =~= Seq::<TunnelModel>::empty());
        assert(res@.active =~= Set::<Seq<char>>::empty());
        res
    }

    /// The directory that the user typed, without white space around it.
    pub fn custom_dir(&self) -> (res: Option<ConfigPath>)
        ensures
            path_in(res) == named_dir(self@.custom_dir),
    {
        let typed = trim(&self.custom_config_dir);
        if typed.is_empty() {
            None
        } else {
            Some(ConfigPath::from_text(typed))
        }
    }

    /// Begins to look for tunnels in the candidate directories.
    pub fn discover_tunnels_with_privilege(&self, env: &Environment) -> (res: (
        Discovery,
        DiscoveryAction,
    ))
        ensures
            res.0.wf(),
            (res.0@, res.1@) == discovery_start(
                first_spellings(env.dirs_to_try(named_dir(self@.custom_dir))),
                self@.pkexec_available && env.graphical(),
            ),
    {
        let dirs = candidate_config_dirs(self.custom_dir(), env);
        discover_tunnels(dirs, self.pkexec_available && has_graphical_session(env))
    }

    /// Takes the outcome of a discovery.
    pub fn finish_discovery(&mut self, discovery: Discovery, outcome: Result<(), String>)
        requires
            old(self).wf(),
            discovery.wf(),
        ensures
            final(self).wf(),
            final(self)@ == old(self)@.with_discovery(discovery@.found, unit_result(outcome)),
            outcome is Ok ==> is_listing(final(self)@.tunnels, discovery@.found),
    {
        match outcome {
            Ok(_) => {
                let ghost table = discovery.found@;
                self.tunnels = discovery.found.into_tunnels();
                proof {
                    law_listing_is_unique(self@.tunnels, listing_of(table), table);
                }
                let count = decimal_text(self.tunnels.len());
                self.info_message = "Found ".to_owned().concat(&count).concat(" tunnel(s)");
            },
            Err(e) => {
                self.tunnels = Vec::new();
                assert(self@.tunnels =~= Seq::<TunnelModel>::empty());
                self.error_message = Some(e);
            },
        }
    }

    /// Takes the output of `wg show interfaces`.
    pub fn refresh_status(&mut self, ran: Result<CommandOutput, String>)
        requires
            old(self).wf(),
        ensures
            final(self).wf(),
            final(self)@ == old(self)@.with_status(output_result(ran)),
    {
        self.active_interfaces = active_interfaces(ran);
    }

    /// Begins to make sure that a helper answers.
    pub fn ensure_helper_available(&self, env: &Environment) -> (res: (HelperCheck, CheckAction))
        ensures
            (res.0@, res.1@) == check_start(
                self@.pkexec_available && env.graphical(),
                self@.helper_running,
            ),
    {
        ensure_helper_available(
            self.pkexec_available && has_graphical_session(env),
            self.helper_running,
        )
    }

    /// Notes whether there is a helper to rely on.
    pub fn set_helper_running(&mut self, running: bool)
        requires
            old(self).wf(),
        ensures
            final(self).wf(),
            final(self)@ == (AppModel { helper_running: running, ..old(self)@ }),
    {
        self.helper_running = running;
    }
}

/// The text that the user typed counts without the white space around it.
pub proof fn law_custom_dir_is_trimmed(typed: Seq<char>)
    ensures
        named_dir(typed) == named_dir(trimmed(typed)),
{
    law_trimmed(typed);
}

/// A refresh ends with the tunnels that were found and their number in the
/// status line, or with the failure and no tunnels. Either way the interfaces
/// that are up are read anew.
pub proof fn law_refresh_outcome(
    app: AppModel,
    found: Map<Seq<char>, Seq<u8>>,
    outcome: Result<(), Seq<char>>,
    status: Result<OutputModel, Seq<char>>,
    listing: Seq<TunnelModel>,
)
    requires
        is_listing(listing, found),
    ensures
        ({
            let now = app.cleared().with_discovery(found, outcome).with_status(status);
            &&& now.active == interfaces_up(status)
            &&& match outcome {
                Ok(_) => {
                    &&& now.error is None
                    &&& now.tunnels == listing
                    &&& now.info == found_text(found.dom().len())
                },
                Err(e) => {
                    &&& now.error == Some(e)
                    &&& now.tunnels.len() == 0
                    &&& now.info == app.info
                },
            }
        }),
{
    law_listing_is_unique(listing, listing_of(found), found);
    law_listing_counts_names(listing, found);
}

/// What the front end is taken to hold is what its fields hold.
pub proof fn law_front_end_holds_its_fields(app: WireSmartApp, name: Seq<char>, i: int)
    ensures
        app@.active.contains(name) <==> exists|k: int|
            0 <= k < app.active_interfaces@.len() && (#[trigger] app.active_interfaces@[k])@ == name,
        app@.tunnels.len() == app.tunnels@.len(),
        0 <= i < app.tunnels@.len() ==> app@.tunnels[i].name == app.tunnels@[i].name@
            && app@.tunnels[i].path == app.tunnels@[i].path@,
        app@.info == app.info_message@,
        app@.error is Some <==> app.error_message is Some,
        app.error_message matches Some(e) ==> app@.error == Some(e@),
        app@.custom_dir == app.custom_config_dir@,
        app@.wg_quick_available == app.wg_quick_available,
        app@.pkexec_available == app.pkexec_available,
        app@.helper_running == app.helper_running,
        app@.style_scaled == app.style_scaled,
        app@.logo_loaded == app.logo_loaded,
{
    let up = texts(app.active_interfaces@);
    if app@.active.contains(name) {
        let k = choose|k: int| 0 <= k < up.len() && up[k] == name;
        assert(app.active_interfaces@[k]@ == name);
    }
    if exists|k: int|
        0 <= k < app.active_interfaces@.len() && (#[trigger] app.active_interfaces@[k])@ == name {
        let k = choose|k: int|
            0 <= k < app.active_interfaces@.len() && (#[trigger] app.active_interfaces@[k])@
                == name;
        assert(up[k] == name);
    }
}

/// The front end starts with nothing to show but that it looks for tunnels, and
/// with what it was told of the commands.
pub proof fn law_new_front_end(wg_quick_available: bool, pkexec_available: bool)
    ensures
        ({
            let app = new_app(wg_quick_available, pkexec_available);
            &&& app.tunnels.len() == 0 && app.active.is_empty() && app.custom_dir.len() == 0
            &&& app.info == "Discovering WireGuard tunnels..."@ && app.error is None
            &&& app.wg_quick_available == wg_quick_available
            &&& app.pkexec_available == pkexec_available
            &&& !app.helper_running && !app.style_scaled && !app.logo_loaded
        }),
{
}

/// The directory that the user names is the text without the white space around
/// it, whatever its length. Without such a text none is named.
pub proof fn law_named_dir(before: Seq<char>, text: Seq<char>, after: Seq<char>)
    requires
        blank(before),
        blank(after),
        text.len() > 0 ==> !is_white_space(text[0]) && !is_white_space(text.last()),
    ensures
        named_dir(before + text + after) == if text.len() > 0 {
            Some(encode_utf8(text))
        } else {
            None
        },
{
    law_trimmed_keeps_the_text(before, text, after);
}

/// A discovery that succeeded changes the list and the status line, which tells how
/// many tunnels there are. One that failed empties the list and shows why. Nothing
/// else changes.
pub proof fn law_discovery_is_shown(
    app: AppModel,
    found: Map<Seq<char>, Seq<u8>>,
    listing: Seq<TunnelModel>,
    message: Seq<char>,
)
    requires
        is_listing(listing, found),
    ensures
        app.with_discovery(found, Ok(())) == (AppModel {
            tunnels: listing,
            info: "Found "@ + decimal(found.dom().len()) + " tunnel(s)"@,
            ..app
        }),
        app.with_discovery(found, Err(message)) == (AppModel {
            tunnels: Seq::empty(),
            error: Some(message),
            ..app
        }),
{
    law_listing_is_unique(listing, listing_of(found), found);
    law_listing_counts_names(listing, found);
}

/// Reading the interfaces replaces those that are up by the ones that were read,
/// and changes nothing else.
pub proof fn law_status_is_shown(
    app: AppModel,
    ran: Result<OutputModel, Seq<char>>,
    name: Seq<char>,
)
    ensures
        ({
            let now = app.with_status(ran);
            &&& now.active.contains(name) <==> (ran matches Ok(output) && output.success && words(
                readable(output.stdout),
            ).contains(name))
            &&& now == (AppModel { active: now.active, ..app })
        }),
{
    law_interfaces(ran, name);
}

/// Messages change nothing but themselves.
pub proof fn law_messages_are_shown(app: AppModel, message: Seq<char>)
    ensures
        app.failing(message) == (AppModel { error: Some(message), ..app }),
        app.informing(message) == (AppModel { info: message, ..app }),
        app.cleared() == (AppModel { error: None, ..app }),
{
}

/// What `refresh_status` leaves: the interfaces that a successful command wrote, each
/// once, and none otherwise. The tunnels and the messages stay.
pub proof fn law_status_taken(
    app: &mut WireSmartApp,
    ran: Result<CommandOutput, String>,
    name: Seq<char>,
)
    requires
        call_ensures(WireSmartApp::refresh_status, (app, ran), ()),
    ensures
        (exists|k: int|
            0 <= k < final(app).active_interfaces@.len()
                && (#[trigger] final(app).active_interfaces@[k])@ == name) <==> (ran matches Ok(
            output,
        ) && output.success && words(readable(output.stdout@)).contains(name)),
        tunnel_models(final(app).tunnels@) == tunnel_models(old(app).tunnels@),
        final(app).info_message@ == old(app).info_message@,
        text_in(final(app).error_message) == text_in(old(app).error_message),
{
    law_front_end_holds_its_fields(*final(app), name, 0);
    law_status_is_shown(old(app)@, output_result(ran), name);
    assert(final(app)@.tunnels == old(app)@.tunnels);
    assert(final(app)@.info == old(app)@.info);
    assert(final(app)@.error == old(app)@.error);
}

/// What `custom_dir` returns: the text that was typed without the white space around
/// it, or nothing where there is no such text.
pub proof fn law_custom_dir_returned(
    app: WireSmartApp,
    res: Option<ConfigPath>,
    before: Seq<char>,
    text: Seq<char>,
    after: Seq<char>,
)
    requires
        call_ensures(WireSmartApp::custom_dir, (&app,), res),
        app.custom_config_dir@ == before + text + after,
        blank(before),
        blank(after),
        text.len() > 0 ==> !is_white_space(text[0]) && !is_white_space(text.last()),
    ensures
        match res {
            Some(dir) => text.len() > 0 && dir@ == encode_utf8(text),
            None => text.len() == 0,
        },
{
    law_named_dir(before, text, after);
}

/// What `discover_tunnels_with_privilege` returns: a discovery that starts with the
/// directory that the user chose, where one was, and that asks for elevated access
/// iff there are `pkexec` and a graphical session.
pub proof fn law_discovery_returned(
    app: WireSmartApp,
    env: Environment,
    res: (Discovery, DiscoveryAction),
    text: Seq<char>,
)
    requires
        call_ensures(WireSmartApp::discover_tunnels_with_privilege, (&app, &env), res),
        app.custom_config_dir@ == text,
        text.len() > 0 ==> !is_white_space(text[0]) && !is_white_space(text.last()),
    ensures
        res.0.can_elevate <==> app.pkexec_available && (env.wayland_display || env.wayland_socket
            || env.display),
        res.0.next == 0,
        path_bytes(res.0.dirs@) == first_spellings(
            env.dirs_to_try(
                if text.len() > 0 {
                    Some(encode_utf8(text))
                } else {
                    None
                },
            ),
        ),
        text.len() > 0 ==> (res.1 matches DiscoveryAction::Inspect(dir) && dir@ == encode_utf8(
            text,
        )),
        res.1 matches DiscoveryAction::Inspect(dir) && res.0.dirs@.len() > 0 && dir@
            == res.0.dirs@[0]@,
{
    let none = Seq::<char>::empty();
    let dirs = env.dirs_to_try(named_dir(text));
    law_named_dir(none, text, none);
    assert(none + text + none =~= text);
    law_system_dir_is_tried(env, named_dir(text));
    law_graphical(env);
    assert(dirs.len() > 0);
    law_first_candidate(dirs);
    assert(path_bytes(res.0.dirs@)[0] == res.0.dirs@[0]@);
}

/// What `finish_discovery` leaves: the tunnels that were found and their number, or
/// no tunnels and the failure.
pub proof fn law_discovery_taken(
    app: &mut WireSmartApp,
    discovery: Discovery,
    outcome: Result<(), String>,
)
    requires
        call_ensures(WireSmartApp::finish_discovery, (app, discovery, outcome), ()),
    ensures
        outcome is Ok ==> {
            &&& is_listing(tunnel_models(final(app).tunnels@), discovery.found@)
            &&& final(app).info_message@ == "Found "@ + decimal(discovery.found@.dom().len())
                + " tunnel(s)"@
            &&& text_in(final(app).error_message) == text_in(old(app).error_message)
        },
        outcome matches Err(e) ==> {
            &&& final(app).tunnels@.len() == 0
            &&& (final(app).error_message matches Some(m) && m@ == e@)
            &&& final(app).info_message@ == old(app).info_message@
        },
        final(app).custom_config_dir@ == old(app).custom_config_dir@,
        final(app)@.active == old(app)@.active,
{
    let before = old(app)@;
    let after = final(app)@;
    if outcome is Ok {
        law_discovery_is_shown(before, discovery@.found, after.tunnels, Seq::empty());
        assert(after.error == before.error);
    } else {
        assert(after.tunnels.len() == final(app).tunnels@.len());
    }
    assert(after.custom_dir == before.custom_dir);
}

} // verus!
