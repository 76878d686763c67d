//! What the window shows, and what a click in it means.

use crate::commands::{interfaces_up, is_root, OutputModel};
use crate::front_end::{law_front_end_holds_its_fields, AppModel, WireSmartApp};
use crate::protocol::{RequestModel, ResponseModel};
use crate::text::{contains_text, texts};
use crate::toggle::{law_steps_of_others, law_steps_of_root, toggle_actions};
use crate::toggle::{toggle_start, toggled, ToggleActionModel, ToggleEventModel};
use crate::tunnels::{Tunnel, TunnelModel};
use vstd::prelude::*;

verus! {

/// A colour by its red, green and blue parts.
pub type Rgb = (u8, u8, u8);

/// The colour of the dot beside a tunnel that is up, or down.
pub open spec fn status_color_of(active: bool) -> Rgb {
    if active {
        (0x27, 0xae, 0x60)
    } else {
        (0xf1, 0xc4, 0x0f)
    }
}

/// What `wg-quick` is told where the user clicks on a tunnel that is up, or
/// down.
pub open spec fn toggle_of(active: bool) -> Seq<char> {
    if active {
        "down"@
    } else {
        "up"@
    }
}

/// What a tunnel's button reads. The spaces leave room for the dot.
pub open spec fn label_of(name: Seq<char>) -> Seq<char> {
    "     "@ + name
}

/// One tunnel in the list.
pub struct TunnelRow {
    pub label: String,
    pub color: Rgb,
}

/// What a `TunnelRow` holds.
#[verifier::ext_equal]
pub struct RowModel {
    pub label: Seq<char>,
    pub color: Rgb,
}

impl View for TunnelRow {
    type V = RowModel;

    open spec fn view(&self) -> RowModel {
        RowModel { label: self.label@, color: self.color }
    }
}

/// What a vector of rows holds.
pub open spec fn row_models(v: Seq<TunnelRow>) -> Seq<RowModel> {
    v.map_values(|r: TunnelRow| r@)
}

impl AppModel {
    /// Whether a tunnel is up: there is an interface of its name.
    pub open spec fn is_up(self, tunnel: TunnelModel) -> bool {
        self.active.contains(tunnel.name)
    }

    /// The row of a tunnel.
    pub open spec fn row_of(self, tunnel: TunnelModel) -> RowModel {
        RowModel {
            label: label_of(tunnel.name),
            color: status_color_of(self.is_up(tunnel)),
        }
    }

    /// The rows of all tunnels, in order.
    pub open spec fn row_list(self) -> Seq<RowModel> {
        Seq::new(self.tunnels.len(), |i: int| self.row_of(self.tunnels[i]))
    }

    /// The warnings above the list.
    pub open spec fn warning_list(self) -> Seq<Seq<char>> {
        (if self.wg_quick_available {
            Seq::empty()
        } else {
            seq!["wg-quick not found in PATH."@]
        }) + (if self.pkexec_available {
            Seq::empty()
        } else {
            seq!["pkexec not found in PATH. Automatic privilege dialog is unavailable."@]
        })
    }
}

/// The last place below `k` that was clicked, or -1.
pub open spec fn last_click(clicked: Seq<bool>, k: int) -> int
    decreases k,
{
    if k <= 0 {
        -1
    } else if clicked[k - 1] {
        k - 1
    } else {
        last_click(clicked, k - 1)
    }
}

/// How many of the clicks have a tunnel.
pub open spec fn clickable(app: AppModel, clicked: Seq<bool>) -> int {
    if clicked.len() < app.tunnels.len() {
        clicked.len() as int
    } else {
        app.tunnels.len() as int
    }
}

/// What the clicks of one frame ask for: to toggle the last tunnel that was
/// clicked.
pub open spec fn toggle_wanted(app: AppModel, clicked: Seq<bool>) -> Option<
    (Seq<char>, TunnelModel),
> {
    let i = last_click(clicked, clickable(app, clicked));
    if i < 0 {
        None
    } else {
        Some((toggle_of(app.is_up(app.tunnels[i])), app.tunnels[i]))
    }
}

/// The colour of the dot.
pub fn status_color(active: bool) -> (res: Rgb)
    ensures
        res == status_color_of(active),
{
    if active {
        (0x27, 0xae, 0x60)
    } else {
        (0xf1, 0xc4, 0x0f)
    }
}

impl WireSmartApp {
    /// Whether a tunnel is up.
    pub fn is_active(&self, tunnel: &Tunnel) -> (res: bool)
        ensures
            res == self@.is_up(tunnel@),
    {
        contains_text(&self.active_interfaces, &tunnel.name)
    }

    /// The warnings above the list.
    pub fn warnings(&self) -> (res: Vec<String>)
        ensures
            texts(res@) == self@.warning_list(),
    {
        let mut res: Vec<String> = Vec::new();
        if !self.wg_quick_available {
            res.push("wg-quick not found in PATH.".to_owned());
        }
        if !self.pkexec_available {
            res.push(
                "pkexec not found in PATH. Automatic privilege dialog is unavailable.".to_owned(),
            );
        }
        assert(texts(res@) =~= self@.warning_list());
        res
    }

    /// The list of tunnels.
    pub fn rows(&self) -> (res: Vec<TunnelRow>)
        ensures
            row_models(res@) == self@.row_list(),
    {
        let mut res: Vec<TunnelRow> = Vec::new();
        let mut i: usize = 0;
        while i < self.tunnels.len()
            invariant
                i <= self.tunnels@.len(),
                row_models(res@) == self@.row_list().take(i as int),
            decreases self.tunnels@.len() - i,
        {
            let ghost before = row_models(res@);
            let tunnel = &self.tunnels[i];
            let row = TunnelRow {
                label: "     ".to_owned().concat(&tunnel.name),
                color: status_color(self.is_active(tunnel)),
            };
            assert(self@.tunnels[i as int] == tunnel@);
            assert(row@ == self@.row_list()[i as int]);
            res.push(row);
            assert(row_models(res@) =~= before.push(row@));
            assert(self@.row_list().take(i + 1) =~= before.push(row@));
            i = i + 1;
        }
        assert(self@.row_list().take(self.tunnels@.len() as int) =~= self@.row_list());
        res
    }

    /// What the clicks of one frame ask for, where `clicked` tells which rows
    /// were clicked.
    pub fn pending_toggle(&self, clicked: &Vec<bool>) -> (res: Option<(String, Tunnel)>)
        ensures
            match res {
                Some((action, tunnel)) => toggle_wanted(self@, clicked@) == Some(
                    (action@, tunnel@),
                ),
                None => toggle_wanted(self@, clicked@) is None,
            },
    {
        let mut k: usize = if clicked.len() < self.tunnels.len() {
            clicked.len()
        } else {
            self.tunnels.len()
        };
        let ghost all = clickable(self@, clicked@);
        while k > 0
            invariant
                k <= clicked@.len(),
                k <= self.tunnels@.len(),
                all == clickable(self@, clicked@),
                last_click(clicked@, all) == last_click(clicked@, k as int),
            decreases k,
        {
            if clicked[k - 1] {
                let tunnel = self.tunnels[k - 1].clone();
                assert(self@.tunnels[k - 1] == tunnel@);
                let action = if self.is_active(&tunnel) {
                    "down".to_owned()
                } else {
                    "up".to_owned()
                };
                return Some((action, tunnel));
            }
            k = k - 1;
        }
        None
    }

    /// Whether the text styles are still to be scaled. They are scaled once.
    pub fn take_style_scaling(&mut self) -> (res: bool)
        requires
            old(self).wf(),
        ensures
            final(self).wf(),
            res == !old(self)@.style_scaled,
            final(self)@ == (AppModel { style_scaled: true, ..old(self)@ }),
    {
        let first = !self.style_scaled;
        self.style_scaled = true;
        first
    }
}

/// A click asks for a listed tunnel to be brought down where it is up, and up
/// where it is down.
pub proof fn law_click_toggles(app: AppModel, clicked: Seq<bool>)
    ensures
        toggle_wanted(app, clicked) matches Some((action, tunnel)) ==> {
            &&& app.tunnels.contains(tunnel)
            &&& action == if app.active.contains(tunnel.name) {
                "down"@
            } else {
                "up"@
            }
        },
{
    lemma_last_click(clicked, clickable(app, clicked));
    let i = last_click(clicked, clickable(app, clicked));
    if i >= 0 {
        assert(app.tunnels[i] == toggle_wanted(app, clicked).unwrap().1);
    }
}

/// `last_click` is the place of a click, and no click follows it.
pub proof fn lemma_last_click(clicked: Seq<bool>, k: int)
    requires
        0 <= k <= clicked.len(),
    ensures
        -1 <= last_click(clicked, k) < k,
        last_click(clicked, k) >= 0 ==> clicked[last_click(clicked, k)],
        forall|i: int| last_click(clicked, k) < i < k ==> !clicked[i],
    decreases k,
{
    if k > 0 && !clicked[k - 1] {
        lemma_last_click(clicked, k - 1);
    }
}

/// A frame without clicks starts nothing, and one with a click on a listed
/// tunnel does.
pub proof fn law_clicks_are_heard(app: AppModel, clicked: Seq<bool>)
    ensures
        toggle_wanted(app, clicked) is Some <==> exists|i: int|
            0 <= i < clickable(app, clicked) && #[trigger] clicked[i],
{
    lemma_last_click(clicked, clickable(app, clicked));
    let i = last_click(clicked, clickable(app, clicked));
    if i >= 0 {
        assert(clicked[i]);
    }
}

/// Once a run has succeeded, the next click on the tunnel undoes it, as long as
/// the tunnel's interface is listed iff the tunnel was brought up.
pub proof fn law_next_click_undoes(
    app: AppModel,
    tunnel: TunnelModel,
    status: Result<OutputModel, Seq<char>>,
)
    requires
        interfaces_up(status).contains(tunnel.name) != app.is_up(tunnel),
    ensures
        ({
            let first = toggle_of(app.is_up(tunnel));
            let now = toggled(app, first, tunnel, Ok(()), status);
            &&& toggle_of(now.is_up(tunnel)) == toggle_of(!app.is_up(tunnel))
            &&& now.tunnels == app.tunnels
        }),
{
}

/// There is a row for each tunnel, in order, with the tunnel's name. It is green
/// iff an interface of that name is up, and yellow otherwise.
pub proof fn law_rows(app: AppModel, i: int)
    requires
        0 <= i < app.tunnels.len(),
    ensures
        app.row_list().len() == app.tunnels.len(),
        app.row_list()[i].label == "     "@ + app.tunnels[i].name,
        app.row_list()[i].color == (0x27u8, 0xaeu8, 0x60u8) <==> app.active.contains(
            app.tunnels[i].name,
        ),
        app.row_list()[i].color == (0xf1u8, 0xc4u8, 0x0fu8) <==> !app.active.contains(
            app.tunnels[i].name,
        ),
{
}

/// The rows depend on nothing but the tunnels and the interfaces that are up.
pub proof fn law_rows_depend_on_status_alone(a: AppModel, b: AppModel)
    requires
        a.tunnels == b.tunnels,
        forall|i: int|
            0 <= i < a.tunnels.len() ==> (a.active.contains((#[trigger] a.tunnels[i]).name)
                <==> b.active.contains(a.tunnels[i].name)),
    ensures
        a.row_list() == b.row_list(),
{
    assert(a.row_list() =~= b.row_list());
}

/// The last click on a listed tunnel counts: the tunnel is to be brought down where
/// it is up, and up where it is down. Without a click on a listed tunnel nothing is
/// to be done.
pub proof fn law_last_click_counts(app: AppModel, clicked: Seq<bool>, i: int)
    ensures
        0 <= i < clicked.len() && i < app.tunnels.len() && clicked[i] && (forall|j: int|
            i < j < clicked.len() && j < app.tunnels.len() ==> !(#[trigger] clicked[j]))
            ==> toggle_wanted(app, clicked) == Some(
            (
                if app.active.contains(app.tunnels[i].name) {
                    "down"@
                } else {
                    "up"@
                },
                app.tunnels[i],
            ),
        ),
        (forall|j: int|
            0 <= j < clicked.len() && j < app.tunnels.len() ==> !(#[trigger] clicked[j]))
            ==> toggle_wanted(app, clicked) is None,
{
    lemma_last_click(clicked, clickable(app, clicked));
    let k = last_click(clicked, clickable(app, clicked));
    if k >= 0 {
        assert(clicked[k]);
    }
}

/// A click on a green row asks for the tunnel to be brought down, one on a yellow
/// row for it to be brought up.
pub proof fn law_colour_tells_what_a_click_does(app: AppModel, clicked: Seq<bool>, i: int)
    requires
        0 <= i < clicked.len(),
        i < app.tunnels.len(),
        clicked[i],
        forall|j: int| i < j < clicked.len() && j < app.tunnels.len() ==> !(#[trigger] clicked[j]),
    ensures
        toggle_wanted(app, clicked) matches Some((action, tunnel)) && {
            &&& tunnel == app.tunnels[i]
            &&& action == "down"@ <==> app.row_list()[i].color == (0x27u8, 0xaeu8, 0x60u8)
            &&& action == "up"@ <==> app.row_list()[i].color == (0xf1u8, 0xc4u8, 0x0fu8)
        },
{
    reveal_strlit("down");
    reveal_strlit("up");
    assert("down"@.len() != "up"@.len());
    law_last_click_counts(app, clicked, i);
    law_rows(app, i);
}

/// A click leads to `wg-quick` on the file of the tunnel that was clicked: with
/// `down` where the tunnel is up and with `up` where it is down, by root at once and
/// for any other user by the helper.
pub proof fn law_click_runs_wg_quick(
    app: AppModel,
    clicked: Seq<bool>,
    i: int,
    user: Result<OutputModel, Seq<char>>,
    ran: Result<OutputModel, Seq<char>>,
    reply: Result<ResponseModel, Seq<char>>,
    status: Result<OutputModel, Seq<char>>,
)
    requires
        app.wg_quick_available,
        0 <= i < clicked.len(),
        i < app.tunnels.len(),
        clicked[i],
        forall|j: int| i < j < clicked.len() && j < app.tunnels.len() ==> !(#[trigger] clicked[j]),
    ensures
        toggle_wanted(app, clicked) matches Some((action, tunnel)) && {
            let (run, app1, first) = toggle_start(app, action, tunnel);
            let wanted = if app.active.contains(app.tunnels[i].name) {
                "down"@
            } else {
                "up"@
            };
            let path = app.tunnels[i].path;
            let checked = ToggleEventModel::UserChecked(user);
            if is_root(user) {
                toggle_actions(
                    run,
                    app1,
                    first,
                    seq![
                        checked,
                        ToggleEventModel::Ran(ran),
                        ToggleEventModel::StatusRead(status),
                    ],
                )[1] == (ToggleActionModel::RunWgQuick { action: wanted, path })
            } else {
                toggle_actions(
                    run,
                    app1,
                    first,
                    seq![
                        checked,
                        ToggleEventModel::Ensured(Ok(())),
                        ToggleEventModel::Answered(reply),
                        ToggleEventModel::StatusRead(status),
                    ],
                )[2] == ToggleActionModel::Ask(RequestModel::WgQuick { action: wanted, path })
            }
        },
{
    law_last_click_counts(app, clicked, i);
    let (action, tunnel) = toggle_wanted(app, clicked).unwrap();
    if is_root(user) {
        law_steps_of_root(app, action, tunnel, user, ran, status);
    } else {
        law_steps_of_others(app, action, tunnel, user, Ok(()), reply, status);
    }
}

/// The user is warned of each command that is missing, of `wg-quick` first, and of
/// nothing else.
pub proof fn law_warnings(app: AppModel)
    ensures
        ({
            let wg_quick = "wg-quick not found in PATH."@;
            let pkexec = "pkexec not found in PATH. Automatic privilege dialog is unavailable."@;
            &&& app.wg_quick_available && app.pkexec_available ==> app.warning_list().len() == 0
            &&& !app.wg_quick_available && app.pkexec_available ==> app.warning_list() == seq![
                wg_quick,
            ]
            &&& app.wg_quick_available && !app.pkexec_available ==> app.warning_list() == seq![
                pkexec,
            ]
            &&& !app.wg_quick_available && !app.pkexec_available ==> app.warning_list() == seq![
                wg_quick,
                pkexec,
            ]
        }),
{
}

/// What `rows` returns: a row for each tunnel with its name behind five spaces,
/// green iff one of the interfaces that are up has the name, and else yellow.
pub proof fn law_rows_returned(app: WireSmartApp, rows: Vec<TunnelRow>, i: int)
    requires
        call_ensures(WireSmartApp::rows, (&app,), rows),
        0 <= i < app.tunnels@.len(),
    ensures
        rows@.len() == app.tunnels@.len(),
        rows@[i].label@ == "     "@ + app.tunnels@[i].name@,
        rows@[i].color == if exists|k: int|
            0 <= k < app.active_interfaces@.len() && (#[trigger] app.active_interfaces@[k])@
                == app.tunnels@[i].name@ {
            (0x27u8, 0xaeu8, 0x60u8)
        } else {
            (0xf1u8, 0xc4u8, 0x0fu8)
        },
{
    law_rows(app@, i);
    law_front_end_holds_its_fields(app, app.tunnels@[i].name@, i);
    assert(row_models(rows@)[i] == rows@[i]@);
}

/// What `pending_toggle` returns: the tunnel of the last click on a listed one, to be
/// brought down iff one of the interfaces that are up has its name.
pub proof fn law_toggle_returned(
    app: WireSmartApp,
    clicked: Vec<bool>,
    res: Option<(String, Tunnel)>,
    i: int,
)
    requires
        call_ensures(WireSmartApp::pending_toggle, (&app, &clicked), res),
        0 <= i < clicked@.len(),
        i < app.tunnels@.len(),
        clicked@[i],
        forall|j: int|
            i < j < clicked@.len() && j < app.tunnels@.len() ==> !(#[trigger] clicked@[j]),
    ensures
        res matches Some((action, tunnel)) && tunnel.name@ == app.tunnels@[i].name@
            && tunnel.path@ == app.tunnels@[i].path@ && action@ == if exists|k: int|
            0 <= k < app.active_interfaces@.len() && (#[trigger] app.active_interfaces@[k])@
                == app.tunnels@[i].name@ {
            "down"@
        } else {
            "up"@
        },
{
    law_last_click_counts(app@, clicked@, i);
    law_front_end_holds_its_fields(app, app.tunnels@[i].name@, i);
}

/// What `warnings` returns: one for each command that is missing.
pub proof fn law_warnings_returned(app: WireSmartApp, res: Vec<String>)
    requires
        call_ensures(WireSmartApp::warnings, (&app,), res),
    ensures
        res@.len() == (if app.wg_quick_available {
            0int
        } else {
            1
        }) + (if app.pkexec_available {
            0int
        } else {
            1
        }),
        !app.wg_quick_available ==> res@[0]@ == "wg-quick not found in PATH."@,
        !app.pkexec_available ==> res@.last()@
            == "pkexec not found in PATH. Automatic privilege dialog is unavailable."@,
{
    law_warnings(app@);
    assert(texts(res@).len() == res@.len());
    assert(forall|k: int| 0 <= k < res@.len() ==> texts(res@)[k] == (#[trigger] res@[k])@);
}

/// What `take_style_scaling` returns is true once: the first time, and never again.
pub proof fn law_styles_are_scaled_once(app: &mut WireSmartApp, res: bool)
    requires
        call_ensures(WireSmartApp::take_style_scaling, (app,), res),
    ensures
        res <==> !old(app).style_scaled,
        final(app).style_scaled,
        final(app).info_message@ == old(app).info_message@,
        final(app).helper_running == old(app).helper_running,
        final(app).logo_loaded == old(app).logo_loaded,
{
    law_front_end_holds_its_fields(*old(app), Seq::empty(), 0);
    law_front_end_holds_its_fields(*final(app), Seq::empty(), 0);
}

} // verus!
