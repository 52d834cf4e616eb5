//! What the user's actions on the window do, apart from drawing: the detail
//! requests, the row menus, the command palette, the keyboard shortcuts,
//! the cluster tabs, the icon rail and the sidebar.
use vstd::prelude::*;

use crate::backend::{BackendCommand, PortForwardInfo};
use crate::detail::{DetailSearchState, DetailState, DetailTab};
use crate::ops::{edit_command, exec_command, kubectl_edit_command, kubectl_exec_command};
use crate::panels::{
    ClusterTabAction, FavoriteResource, IconRailAction, LogContentAction, RowContextAction,
    SettingsDialogAction, SidebarAction, ThemeMode,
};
use crate::log_tabs::{cleared_rel, container_choice_rel, tab_index, LogTabsView};
use crate::portforward::{kubectl_port_forward_command, port_forward_command};
use crate::resources::{all_kinds, first_kind_with, kind_api_kind, ResourceKind, ResourceRow};
use crate::text::{join_texts, owned, str_eq, texts};
use crate::window::{
    clone_opt, current_rows, desired_replicas, detail_cleared, logs_for_selection_applies,
    older_logs_applies, opens_new_tab, restart_applies,
    open_logs_applies, parse_desired_replicas, persist_settings_effect, row_at, selected_name_string,
    PaletteCommand, ScaleDialog, WindowEffect, WindowModel,
};
use crate::workspace::{
    close_cluster_tab, ensure_cluster_tab, fav_view, favs_view, kind_is_cluster_scoped,
    navigate_to_favorite, pin_context, pin_favorite, port_forward_ports_for_selection, remove_all,
    selection_ports, tabs_after_close, unpin_context, unpin_favorite,
};

verus! {

// ---------------------------------------------------------------------------
// Requests about the selected row
// ---------------------------------------------------------------------------

/// Asks for the selected row's YAML, when a row is selected.
pub open spec fn yaml_request(m: WindowModel) -> Seq<WindowEffect> {
    match selected_name_string(m) {
        Some(name) => seq![WindowEffect::Send(BackendCommand::FetchYaml { kind: m.selected_kind, name })],
        None => Seq::empty(),
    }
}

/// Asks for the selected row's events, when a row is selected.
pub open spec fn events_request(m: WindowModel) -> Seq<WindowEffect> {
    match selected_name_string(m) {
        Some(name) => seq![
            WindowEffect::Send(BackendCommand::FetchEvents { kind: m.selected_kind, name }),
        ],
        None => Seq::empty(),
    }
}

/// Starts forwarding the selected row of `kind`, with the ports of
/// [`selection_ports`].
pub open spec fn forward_request(m: WindowModel, kind: ResourceKind) -> Seq<WindowEffect> {
    match selected_name_string(m) {
        Some(name) => {
            let (local_port, remote_port) = selection_ports(m.selected_row, current_rows(m));
            seq![
                WindowEffect::Send(
                    BackendCommand::StartPortForward { kind, name, local_port, remote_port },
                ),
            ]
        },
        None => Seq::empty(),
    }
}

/// The window showing the detail tab `tab`, nothing else changed.
pub open spec fn with_tab(m: WindowModel, tab: DetailTab) -> WindowModel {
    WindowModel { detail: DetailState { tab, ..m.detail }, ..m }
}

/// `"Switching to <context>..."`.
pub open spec fn switching_message(context: Seq<char>) -> Seq<char> {
    "Switching to "@ + context + "..."@
}

fn one(e: WindowEffect) -> (r: Vec<WindowEffect>)
    ensures
        r@ == seq![e],
{
    let mut v: Vec<WindowEffect> = Vec::new();
    v.push(e);
    assert(v@ =~= seq![e]);
    v
}

fn switching_text(context: &str) -> (r: String)
    ensures
        r@ == switching_message(context@),
{
    let mut s = owned("Switching to ");
    s.append(context);
    s.append("...");
    s
}

impl WindowModel {
    /// Asks for the selected row's YAML.
    pub fn fetch_yaml_for_selection(&self) -> (fx: Vec<WindowEffect>)
        ensures
            fx@ == yaml_request(*self),
    {
        match self.selected_name() {
            Some(name) => one(WindowEffect::Send(BackendCommand::FetchYaml { kind: self.selected_kind, name })),
            None => Vec::new(),
        }
    }

    /// Asks for the selected row's events.
    pub fn fetch_events_for_selection(&self) -> (fx: Vec<WindowEffect>)
        ensures
            fx@ == events_request(*self),
    {
        match self.selected_name() {
            Some(name) => one(
                WindowEffect::Send(BackendCommand::FetchEvents { kind: self.selected_kind, name }),
            ),
            None => Vec::new(),
        }
    }

    /// Shows the YAML tab and asks for the selected row's YAML.
    pub fn describe_selection(&mut self) -> (fx: Vec<WindowEffect>)
        ensures
            *final(self) == with_tab(*old(self), DetailTab::Describe),
            fx@ == yaml_request(*old(self)),
    {
        let fx = self.fetch_yaml_for_selection();
        self.detail.tab = DetailTab::Describe;
        fx
    }

    /// Shows the events tab and asks for the selected row's events.
    pub fn show_events_for_selection(&mut self) -> (fx: Vec<WindowEffect>)
        ensures
            *final(self) == with_tab(*old(self), DetailTab::Events),
            fx@ == events_request(*old(self)),
    {
        let fx = self.fetch_events_for_selection();
        self.detail.tab = DetailTab::Events;
        fx
    }

    /// Shows the metrics tab and asks for the pods' metrics.
    pub fn fetch_metrics(&mut self) -> (fx: Vec<WindowEffect>)
        ensures
            *final(self) == with_tab(*old(self), DetailTab::Metrics),
            fx@ == seq![WindowEffect::Send(BackendCommand::FetchMetrics)],
    {
        self.detail.tab = DetailTab::Metrics;
        one(WindowEffect::Send(BackendCommand::FetchMetrics))
    }

    /// Closes the detail pane: no row selected, every detail text emptied,
    /// the search reset.
    pub fn close_detail_panel(&mut self)
        ensures
            *final(self) == (WindowModel {
                selected_row: None,
                detail: final(self).detail,
                detail_search: final(self).detail_search,
                ..*old(self)
            }),
            detail_cleared(old(self).detail, final(self).detail),
            final(self).detail_search.query@.len() == 0,
            final(self).detail_search.match_index == 0,
            !final(self).detail_search.focus_field,
    {
        self.selected_row = None;
        self.detail.clear();
        self.detail_search.reset();
    }

    /// Another row was selected: the container choice and list are dropped,
    /// the YAML tab shown and the new row's YAML asked for.
    pub fn on_table_selection_changed(&mut self) -> (fx: Vec<WindowEffect>)
        ensures
            *final(self) == (WindowModel {
                selected_container: None,
                containers: final(self).containers,
                ..with_tab(*old(self), DetailTab::Describe)
            }),
            final(self).containers@.len() == 0,
            fx@ == yaml_request(*old(self)),
    {
        self.selected_container = None;
        self.containers = Vec::new();
        let fx = self.fetch_yaml_for_selection();
        self.detail.tab = DetailTab::Describe;
        fx
    }

    /// Starts forwarding the selected row of `kind`.
    pub fn start_port_forward_for_selection(&self, kind: ResourceKind) -> (fx: Vec<WindowEffect>)
        ensures
            fx@ == forward_request(*self, kind),
    {
        match self.selected_name() {
            Some(name) => {
                let rows = self.current_rows();
                let (local_port, remote_port) = port_forward_ports_for_selection(self.selected_row, rows);
                one(WindowEffect::Send(BackendCommand::StartPortForward { kind, name, local_port, remote_port }))
            },
            None => Vec::new(),
        }
    }

    /// Reports how opening an external terminal went: the success message,
    /// or the error.
    pub fn terminal_launched(&mut self, outcome: Result<(), String>, success: String)
        ensures
            match outcome {
                Ok(()) => *final(self) == (WindowModel { status_message: success, ..*old(self) }),
                Err(e) => *final(self) == (WindowModel { error_message: Some(e), ..*old(self) }),
            },
    {
        match outcome {
            Ok(()) => self.status_message = success,
            Err(e) => self.error_message = Some(e),
        }
    }

    /// Follows up the settings dialog: once it saved and asks for a reload,
    /// the window says so and reconnects to read the kubeconfig again.
    pub fn settings_dialog_done(&mut self, action: &SettingsDialogAction) -> (fx: Vec<WindowEffect>)
        ensures
            action.reload_contexts ==> {
                &&& final(self).status_message@ == "Reloading contexts from kubeconfig..."@
                &&& *final(self) == (WindowModel { status_message: final(self).status_message, ..*old(self) })
                &&& fx@ == seq![WindowEffect::Send(BackendCommand::Reconnect)]
            },
            !action.reload_contexts ==> *final(self) == *old(self) && fx@.len() == 0,
    {
        if action.reload_contexts {
            self.status_message = owned("Reloading contexts from kubeconfig...");
            one(WindowEffect::Send(BackendCommand::Reconnect))
        } else {
            Vec::new()
        }
    }
}

// ---------------------------------------------------------------------------
// Cluster tabs, icon rail, sidebar
// ---------------------------------------------------------------------------

/// What a click on the cluster tab bar does.
pub open spec fn cluster_tab_applies(
    old: WindowModel,
    action: ClusterTabAction,
    new: WindowModel,
    fx: Seq<WindowEffect>,
) -> bool {
    match action {
        ClusterTabAction::NoAction => new == old && fx.len() == 0,
        ClusterTabAction::Select(c) => if c@ != old.active_context@ {
            &&& new == WindowModel { status_message: new.status_message, ..old }
            &&& new.status_message@ == switching_message(c@)
            &&& fx == seq![WindowEffect::Send(BackendCommand::SwitchContext(c))]
        } else {
            new == old && fx.len() == 0
        },
        ClusterTabAction::Close(c) => {
            &&& new == WindowModel { cluster_tabs: new.cluster_tabs, ..old }
            &&& texts(new.cluster_tabs@) == tabs_after_close(
                texts(old.cluster_tabs@),
                c@,
                old.active_context@,
            )
            &&& fx == seq![WindowEffect::PersistClusterTabs] + if c@ == old.active_context@ {
                seq![WindowEffect::Send(BackendCommand::SwitchContext(new.cluster_tabs@[0]))]
            } else {
                Seq::empty()
            }
        },
        ClusterTabAction::Add(c) => {
            let added = !texts(old.cluster_tabs@).contains(c@);
            &&& new == WindowModel { cluster_tabs: new.cluster_tabs, ..old }
            &&& texts(new.cluster_tabs@) == if added {
                texts(old.cluster_tabs@).push(c@)
            } else {
                texts(old.cluster_tabs@)
            }
            &&& fx == (if added {
                seq![WindowEffect::PersistClusterTabs]
            } else {
                Seq::empty()
            }) + seq![WindowEffect::Send(BackendCommand::SwitchContext(c))]
        },
    }
}

/// What the icon rail's action does, in order: show the overview, switch
/// context (closing the context menu), pin, unpin (never the last pinned
/// context), open the settings.
pub open spec fn icon_rail_applies(
    old: WindowModel,
    a: IconRailAction,
    new: WindowModel,
    fx: Seq<WindowEffect>,
) -> bool {
    let switching = a.switch_to matches Some(c) && c@ != old.active_context@;
    let pins0 = texts(old.pinned_contexts@);
    let pinning = a.pin matches Some(c) && !pins0.contains(c@);
    let pins1 = if pinning {
        pins0.push(a.pin->0@)
    } else {
        pins0
    };
    let unpinning = a.unpin is Some && pins1.len() > 1;
    let pins2 = if unpinning {
        remove_all(pins1, a.unpin->0@)
    } else {
        pins1
    };
    &&& new == WindowModel {
        show_overview: new.show_overview,
        context_menu_open: new.context_menu_open,
        status_message: new.status_message,
        pinned_contexts: new.pinned_contexts,
        ..old
    }
    &&& new.show_overview == (old.show_overview || a.show_overview)
    &&& new.context_menu_open == (old.context_menu_open && !switching)
    &&& if switching {
        new.status_message@ == switching_message(a.switch_to->0@)
    } else {
        new.status_message == old.status_message
    }
    &&& texts(new.pinned_contexts@) == pins2
    &&& fx == (if switching {
        seq![WindowEffect::Send(BackendCommand::SwitchContext(a.switch_to->0))]
    } else {
        Seq::empty()
    }) + ((if pinning {
        seq![WindowEffect::PersistPinnedContexts]
    } else {
        Seq::empty()
    }) + (if unpinning {
        seq![WindowEffect::PersistPinnedContexts]
    } else {
        Seq::empty()
    })) + (if a.open_settings {
        seq![WindowEffect::OpenSettingsDialog]
    } else {
        Seq::empty()
    })
}

/// The kind a favorite names, if any.
pub open spec fn favorite_kind(fav: FavoriteResource) -> Option<ResourceKind> {
    first_kind_with(all_kinds(), |k: ResourceKind| kind_api_kind(k), fav.kind@)
}

/// Opening a favorite: its kind shown (the overview left), the worker told
/// the kind, the favorite's namespace switched to when the kind is
/// namespaced and the namespace another real one, the list refreshed, and
/// the favorite's row selected once it arrives.  Nothing for an unknown kind.
pub open spec fn navigate_applies(
    old: WindowModel,
    fav: FavoriteResource,
    new: WindowModel,
    fx: Seq<WindowEffect>,
) -> bool {
    match favorite_kind(fav) {
        Some(kind) => {
            let switch_ns = !kind_is_cluster_scoped(kind) && fav.namespace@ != "-"@ && fav.namespace@
                != old.active_namespace@;
            &&& new == WindowModel {
                show_overview: false,
                selected_kind: kind,
                pending_favorite_select: new.pending_favorite_select,
                ..old
            }
            &&& new.pending_favorite_select matches Some(n) && n@ == fav.name@
            &&& fx.len() == if switch_ns {
                3int
            } else {
                2int
            }
            &&& fx[0] == WindowEffect::Send(BackendCommand::SetActiveKind(kind))
            &&& switch_ns ==> (fx[1] matches WindowEffect::Send(BackendCommand::SetNamespace(ns))
                && ns@ == fav.namespace@)
            &&& fx.last() == WindowEffect::Send(BackendCommand::RefreshList)
        },
        None => new == old && fx.len() == 0,
    }
}

/// Removing a favorite: every copy goes, the list is saved, the user told.
pub open spec fn unpin_favorite_applies(
    old: WindowModel,
    fav: FavoriteResource,
    new: WindowModel,
    fx: Seq<WindowEffect>,
) -> bool {
    &&& new == WindowModel { favorites: new.favorites, status_message: new.status_message, ..old }
    &&& favs_view(new.favorites@) == favs_view(old.favorites@).filter(
        |f: (Seq<char>, Seq<char>, Seq<char>)| f != fav_view(fav),
    )
    &&& new.status_message@ == "Removed from favorites."@
    &&& fx == seq![WindowEffect::PersistFavorites]
}

/// Adding a favorite: added and saved unless it is there already; the user
/// is told which.
pub open spec fn pin_favorite_applies(
    old: WindowModel,
    fav: FavoriteResource,
    new: WindowModel,
    fx: Seq<WindowEffect>,
) -> bool {
    pin_favorite_view_applies(old, fav_view(fav), new, fx)
}

/// [`pin_favorite_applies`] for the favorite `(kind, namespace, name)`.
pub open spec fn pin_favorite_view_applies(
    old: WindowModel,
    fav: (Seq<char>, Seq<char>, Seq<char>),
    new: WindowModel,
    fx: Seq<WindowEffect>,
) -> bool {
    let added = !favs_view(old.favorites@).contains(fav);
    &&& new == WindowModel { favorites: new.favorites, status_message: new.status_message, ..old }
    &&& favs_view(new.favorites@) == if added {
        favs_view(old.favorites@).push(fav)
    } else {
        favs_view(old.favorites@)
    }
    &&& new.status_message@ == if added {
        "Pinned to favorites."@
    } else {
        "Already in favorites."@
    }
    &&& fx == if added {
        seq![WindowEffect::PersistFavorites]
    } else {
        Seq::empty()
    }
}

/// The sidebar's action: open the chosen favorite, then remove the one
/// asked to be removed.
pub open spec fn sidebar_applies(
    old: WindowModel,
    a: SidebarAction,
    new: WindowModel,
    fx: Seq<WindowEffect>,
) -> bool {
    exists|mid: WindowModel, fx1: Seq<WindowEffect>, fx2: Seq<WindowEffect>|
        #![trigger sidebar_steps(old, a, mid, fx1, new, fx2)]
        sidebar_steps(old, a, mid, fx1, new, fx2) && fx == fx1 + fx2
}

pub open spec fn sidebar_steps(
    old: WindowModel,
    a: SidebarAction,
    mid: WindowModel,
    fx1: Seq<WindowEffect>,
    new: WindowModel,
    fx2: Seq<WindowEffect>,
) -> bool {
    &&& match a.selected_favorite {
        Some(f) => navigate_applies(old, f, mid, fx1),
        None => mid == old && fx1.len() == 0,
    }
    &&& match a.unpin_favorite {
        Some(f) => unpin_favorite_applies(mid, f, new, fx2),
        None => new == mid && fx2.len() == 0,
    }
}

impl WindowModel {
    /// Acts on a click on the cluster tab bar.
    pub fn apply_cluster_tab_action(&mut self, action: ClusterTabAction) -> (fx: Vec<WindowEffect>)
        ensures
            cluster_tab_applies(*old(self), action, *final(self), fx@),
    {
        match action {
            ClusterTabAction::NoAction => Vec::new(),
            ClusterTabAction::Select(c) => {
                if str_eq(c.as_str(), self.active_context.as_str()) {
                    return Vec::new();
                }
                self.status_message = switching_text(c.as_str());
                one(WindowEffect::Send(BackendCommand::SwitchContext(c)))
            },
            ClusterTabAction::Close(c) => {
                let next = close_cluster_tab(&mut self.cluster_tabs, c.as_str(), self.active_context.as_str());
                let mut fx = one(WindowEffect::PersistClusterTabs);
                match next {
                    Some(n) => {
                        fx.push(WindowEffect::Send(BackendCommand::SwitchContext(n)));
                        assert(fx@ =~= seq![WindowEffect::PersistClusterTabs] + seq![
                            WindowEffect::Send(BackendCommand::SwitchContext(self.cluster_tabs@[0])),
                        ]);
                    },
                    None => {
                        assert(fx@ =~= seq![WindowEffect::PersistClusterTabs] + Seq::<WindowEffect>::empty());
                    },
                }
                fx
            },
            ClusterTabAction::Add(c) => {
                let ghost before = texts(self.cluster_tabs@);
                let added = !crate::text::contains_text(self.cluster_tabs.as_slice(), c.as_str());
                ensure_cluster_tab(&mut self.cluster_tabs, c.as_str());
                let mut fx: Vec<WindowEffect> = Vec::new();
                if added {
                    fx.push(WindowEffect::PersistClusterTabs);
                }
                let ghost first = fx@;
                fx.push(WindowEffect::Send(BackendCommand::SwitchContext(c)));
                assert(fx@ =~= first + seq![WindowEffect::Send(BackendCommand::SwitchContext(c))]);
                assert(first =~= (if added {
                    seq![WindowEffect::PersistClusterTabs]
                } else {
                    Seq::empty()
                }));
                fx
            },
        }
    }

    fn rail_switch(&mut self, switch_to: Option<String>) -> (fx: Vec<WindowEffect>)
        ensures
            ({
                let switching = switch_to matches Some(c) && c@ != old(self).active_context@;
                &&& if switching {
                    &&& *final(self) == (WindowModel {
                        context_menu_open: false,
                        status_message: final(self).status_message,
                        ..*old(self)
                    })
                    &&& final(self).status_message@ == switching_message(switch_to->0@)
                    &&& fx@ == seq![WindowEffect::Send(BackendCommand::SwitchContext(switch_to->0))]
                } else {
                    *final(self) == *old(self) && fx@.len() == 0
                }
            }),
    {
        match switch_to {
            Some(c) => {
                if str_eq(c.as_str(), self.active_context.as_str()) {
                    return Vec::new();
                }
                self.context_menu_open = false;
                self.status_message = switching_text(c.as_str());
                one(WindowEffect::Send(BackendCommand::SwitchContext(c)))
            },
            None => Vec::new(),
        }
    }

    fn rail_pin(&mut self, pin: Option<String>, unpin: Option<String>) -> (fx: Vec<WindowEffect>)
        ensures
            ({
                let pins0 = texts(old(self).pinned_contexts@);
                let pinning = pin matches Some(c) && !pins0.contains(c@);
                let pins1 = if pinning {
                    pins0.push(pin->0@)
                } else {
                    pins0
                };
                let unpinning = unpin is Some && pins1.len() > 1;
                &&& *final(self) == (WindowModel { pinned_contexts: final(self).pinned_contexts, ..*old(self) })
                &&& texts(final(self).pinned_contexts@) == if unpinning {
                    remove_all(pins1, unpin->0@)
                } else {
                    pins1
                }
                &&& fx@ == (if pinning {
                    seq![WindowEffect::PersistPinnedContexts]
                } else {
                    Seq::empty()
                }) + (if unpinning {
                    seq![WindowEffect::PersistPinnedContexts]
                } else {
                    Seq::empty()
                })
            }),
    {
        let mut fx: Vec<WindowEffect> = Vec::new();
        let ghost pinning = pin is Some && !texts(self.pinned_contexts@).contains(pin->0@);
        match pin {
            Some(c) => {
                if !crate::text::contains_text(self.pinned_contexts.as_slice(), c.as_str()) {
                    pin_context(&mut self.pinned_contexts, c.as_str());
                    fx.push(WindowEffect::PersistPinnedContexts);
                }
            },
            None => {},
        }
        let ghost fx1 = fx@;
        let ghost unpinning = unpin is Some && texts(self.pinned_contexts@).len() > 1;
        match unpin {
            Some(c) => {
                if self.pinned_contexts.len() > 1 {
                    unpin_context(&mut self.pinned_contexts, c.as_str());
                    fx.push(WindowEffect::PersistPinnedContexts);
                }
            },
            None => {},
        }
        assert(fx1 =~= (if pinning {
            seq![WindowEffect::PersistPinnedContexts]
        } else {
            Seq::<WindowEffect>::empty()
        }));
        assert(fx@ =~= fx1 + (if unpinning {
            seq![WindowEffect::PersistPinnedContexts]
        } else {
            Seq::<WindowEffect>::empty()
        }));
        fx
    }

    /// Acts on the icon rail's action.
    pub fn apply_icon_rail_action(&mut self, action: IconRailAction) -> (fx: Vec<WindowEffect>)
        ensures
            icon_rail_applies(*old(self), action, *final(self), fx@),
    {
        let ghost a = action;
        if action.show_overview {
            self.show_overview = true;
        }
        let mut fx = self.rail_switch(action.switch_to);
        let ghost fx1 = fx@;
        let mut more = self.rail_pin(action.pin, action.unpin);
        let ghost fx2 = more@;
        fx.append(&mut more);
        if action.open_settings {
            fx.push(WindowEffect::OpenSettingsDialog);
        }
        assert(fx@ =~= fx1 + fx2 + (if a.open_settings {
            seq![WindowEffect::OpenSettingsDialog]
        } else {
            Seq::<WindowEffect>::empty()
        }));
        fx
    }

    /// Opens a favorite.
    pub fn navigate_to_favorite(&mut self, fav: &FavoriteResource) -> (fx: Vec<WindowEffect>)
        ensures
            navigate_applies(*old(self), *fav, *final(self), fx@),
    {
        let nav = match navigate_to_favorite(fav, self.active_namespace.as_str()) {
            Some(n) => n,
            None => return Vec::new(),
        };
        self.show_overview = false;
        self.selected_kind = nav.kind;
        let mut fx = one(WindowEffect::Send(BackendCommand::SetActiveKind(nav.kind)));
        match nav.switch_namespace {
            Some(ns) => fx.push(WindowEffect::Send(BackendCommand::SetNamespace(ns))),
            None => {},
        }
        self.pending_favorite_select = Some(nav.select);
        fx.push(WindowEffect::Send(BackendCommand::RefreshList));
        fx
    }

    /// Removes a favorite.
    pub fn unpin_favorite(&mut self, fav: &FavoriteResource) -> (fx: Vec<WindowEffect>)
        ensures
            unpin_favorite_applies(*old(self), *fav, *final(self), fx@),
    {
        unpin_favorite(&mut self.favorites, fav);
        self.status_message = owned("Removed from favorites.");
        one(WindowEffect::PersistFavorites)
    }

    /// Adds a favorite unless it is there already.
    pub fn pin_favorite(&mut self, fav: FavoriteResource) -> (fx: Vec<WindowEffect>)
        ensures
            pin_favorite_applies(*old(self), fav, *final(self), fx@),
    {
        let added = pin_favorite(&mut self.favorites, fav);
        if added {
            self.status_message = owned("Pinned to favorites.");
            one(WindowEffect::PersistFavorites)
        } else {
            self.status_message = owned("Already in favorites.");
            Vec::new()
        }
    }

    /// Acts on the sidebar's action.
    pub fn apply_sidebar_action(&mut self, action: SidebarAction) -> (fx: Vec<WindowEffect>)
        ensures
            sidebar_applies(*old(self), action, *final(self), fx@),
    {
        let ghost a = action;
        let mut fx: Vec<WindowEffect> = match &action.selected_favorite {
            Some(f) => self.navigate_to_favorite(f),
            None => Vec::new(),
        };
        let ghost mid = *self;
        let ghost fx1 = fx@;
        let mut more: Vec<WindowEffect> = match &action.unpin_favorite {
            Some(f) => self.unpin_favorite(f),
            None => Vec::new(),
        };
        let ghost fx2 = more@;
        fx.append(&mut more);
        assert(sidebar_steps(*old(self), a, mid, fx1, *self, fx2));
        assert(fx@ =~= fx1 + fx2);
        fx
    }
}

// ---------------------------------------------------------------------------
// Row menus
// ---------------------------------------------------------------------------

/// `fx` is the one request to open an external terminal into `pod_name`.
pub open spec fn launch_effect(
    fx: Seq<WindowEffect>,
    namespace: String,
    pod_name: String,
    container: Option<String>,
    attach: bool,
    success: Seq<char>,
) -> bool {
    &&& fx.len() == 1
    &&& fx[0] matches WindowEffect::LaunchTerminal { namespace: n, pod_name: p, container: c, attach: a, success: s }
        && n == namespace && p == pod_name && c == container && a == attach && s@ == success
}

/// `fx` is the one request to copy `text` to the clipboard.
pub open spec fn copy_effect(fx: Seq<WindowEffect>, text: Seq<char>) -> bool {
    &&& fx.len() == 1
    &&& fx[0] matches WindowEffect::CopyText(t) && t@ == text
}

/// The replica count the scale dialog starts from: the desired count of
/// the row's `ready/desired` column, else one.
pub open spec fn initial_replicas(row: ResourceRow) -> u32 {
    match desired_replicas(row.ready@) {
        Some(r) => r,
        None => 1,
    }
}

/// Whether the row menu's entry adds a log tab: it opens the logs of a
/// listed row that has none open.
pub open spec fn row_opens_new_tab(m: WindowModel, row_idx: usize, action: RowContextAction) -> bool {
    action is Logs && match row_at(m, row_idx) {
        Some(row) => opens_new_tab(m, row.name@),
        None => false,
    }
}

/// What an entry of a row's menu does.  The row is selected first; nothing
/// else happens when it is past the rows of the shown kind.
pub open spec fn row_context_applies(
    old: WindowModel,
    kind: ResourceKind,
    row_idx: usize,
    action: RowContextAction,
    new: WindowModel,
    fx: Seq<WindowEffect>,
) -> bool {
    let m = WindowModel { selected_row: Some(row_idx), ..old };
    match row_at(old, row_idx) {
        None => new == m && fx.len() == 0,
        Some(row) => {
            let name = row.name;
            match action {
                RowContextAction::Logs { container } => open_logs_applies(m, name, container, new, fx),
                RowContextAction::Shell { container } => new == m && launch_effect(
                    fx,
                    m.active_namespace,
                    name,
                    container,
                    false,
                    "Opened shell in external terminal."@,
                ),
                RowContextAction::Attach { container } => new == m && launch_effect(
                    fx,
                    m.active_namespace,
                    name,
                    container,
                    true,
                    "Attached to pod in external terminal."@,
                ),
                RowContextAction::Edit => {
                    &&& new == WindowModel { status_message: new.status_message, ..m }
                    &&& new.status_message@ == "Copied kubectl edit command."@
                    &&& copy_effect(fx, edit_command(m.active_namespace@, kind_api_kind(kind), name@))
                },
                RowContextAction::Delete => new == WindowModel {
                    delete_confirm: Some((kind, name, false)),
                    ..m
                } && fx.len() == 0,
                RowContextAction::ForceDelete => new == WindowModel {
                    delete_confirm: Some((kind, name, true)),
                    ..m
                } && fx.len() == 0,
                RowContextAction::Trigger => new == m && fx == seq![
                    WindowEffect::Send(BackendCommand::TriggerCronJob { name }),
                ],
                RowContextAction::Suspend => new == m && fx == seq![
                    WindowEffect::Send(BackendCommand::SetCronjobSuspended { name, suspend: true }),
                ],
                RowContextAction::Resume => new == m && fx == seq![
                    WindowEffect::Send(BackendCommand::SetCronjobSuspended { name, suspend: false }),
                ],
                RowContextAction::Restart => new == m && fx == seq![
                    WindowEffect::Send(
                        if kind == ResourceKind::StatefulSet {
                            BackendCommand::RestartStatefulSet { name }
                        } else {
                            BackendCommand::RestartDeployment { name }
                        },
                    ),
                ],
                RowContextAction::Scale => new == WindowModel {
                    scale_dialog: Some(ScaleDialog { kind, name, replicas: initial_replicas(row) }),
                    ..m
                } && fx.len() == 0,
                RowContextAction::PinFavorite => pin_favorite_view_applies(
                    m,
                    (kind_api_kind(kind), row.namespace@, row.name@),
                    new,
                    fx,
                ),
                RowContextAction::PortForward { remote_port } => new == m && fx == seq![
                    WindowEffect::Send(
                        BackendCommand::StartPortForward { kind, name, local_port: remote_port, remote_port },
                    ),
                ],
            }
        },
    }
}

fn launch(namespace: &String, pod_name: String, container: Option<String>, attach: bool, success: &str) -> (r:
    Vec<WindowEffect>)
    ensures
        launch_effect(r@, *namespace, pod_name, container, attach, success@),
{
    one(
        WindowEffect::LaunchTerminal {
            namespace: namespace.clone(),
            pod_name,
            container,
            attach,
            success: owned(success),
        },
    )
}

impl WindowModel {
    /// Acts on an entry of the menu of row `row_idx` of `kind`.
    pub fn handle_row_context(&mut self, kind: ResourceKind, row_idx: usize, action: RowContextAction) -> (fx:
        Vec<WindowEffect>)
        requires
            row_opens_new_tab(*old(self), row_idx, action) ==> old(self).log_tabs@.next_id < u64::MAX,
        ensures
            final(self).log_tabs@.wf(),
            row_context_applies(*old(self), kind, row_idx, action, *final(self), fx@),
    {
        proof {
            use_type_invariant(&self.log_tabs);
        }
        self.selected_row = Some(row_idx);
        let name = match self.selected_name() {
            Some(n) => n,
            None => return Vec::new(),
        };
        match action {
            RowContextAction::Logs { container } => self.open_pod_logs(name, container),
            RowContextAction::Shell { container } => launch(
                &self.active_namespace,
                name,
                container,
                false,
                "Opened shell in external terminal.",
            ),
            RowContextAction::Attach { container } => launch(
                &self.active_namespace,
                name,
                container,
                true,
                "Attached to pod in external terminal.",
            ),
            RowContextAction::Edit => {
                let cmd = kubectl_edit_command(self.active_namespace.as_str(), kind.api_kind(), name.as_str());
                self.status_message = owned("Copied kubectl edit command.");
                one(WindowEffect::CopyText(cmd))
            },
            RowContextAction::Delete => {
                self.delete_confirm = Some((kind, name, false));
                Vec::new()
            },
            RowContextAction::ForceDelete => {
                self.delete_confirm = Some((kind, name, true));
                Vec::new()
            },
            RowContextAction::Trigger => one(WindowEffect::Send(BackendCommand::TriggerCronJob { name })),
            RowContextAction::Suspend => one(
                WindowEffect::Send(BackendCommand::SetCronjobSuspended { name, suspend: true }),
            ),
            RowContextAction::Resume => one(
                WindowEffect::Send(BackendCommand::SetCronjobSuspended { name, suspend: false }),
            ),
            RowContextAction::Restart => {
                let cmd = match kind {
                    ResourceKind::StatefulSet => BackendCommand::RestartStatefulSet { name },
                    _ => BackendCommand::RestartDeployment { name },
                };
                one(WindowEffect::Send(cmd))
            },
            RowContextAction::Scale => {
                let replicas = {
                    let rows = self.current_rows();
                    match parse_desired_replicas(rows[row_idx].ready.as_str()) {
                        Some(r) => r,
                        None => 1,
                    }
                };
                self.scale_dialog = Some(ScaleDialog { kind, name, replicas });
                Vec::new()
            },
            RowContextAction::PinFavorite => {
                let fav = {
                    let rows = self.current_rows();
                    FavoriteResource {
                        kind: owned(kind.api_kind()),
                        namespace: rows[row_idx].namespace.clone(),
                        name: rows[row_idx].name.clone(),
                    }
                };
                self.pin_favorite(fav)
            },
            RowContextAction::PortForward { remote_port } => one(
                WindowEffect::Send(
                    BackendCommand::StartPortForward { kind, name, local_port: remote_port, remote_port },
                ),
            ),
        }
    }
}

// ---------------------------------------------------------------------------
// Command palette
// ---------------------------------------------------------------------------

/// The text of an optional string.
pub open spec fn opt_view(o: Option<String>) -> Option<Seq<char>> {
    match o {
        Some(s) => Some(s@),
        None => None,
    }
}

/// What a command of the palette does (before the palette closes).
pub open spec fn palette_command_applies(
    old: WindowModel,
    cmd: PaletteCommand,
    new: WindowModel,
    fx: Seq<WindowEffect>,
) -> bool {
    match cmd {
        PaletteCommand::Refresh => new == old && fx == seq![WindowEffect::Send(BackendCommand::RefreshWatch)],
        PaletteCommand::Describe => new == with_tab(old, DetailTab::Describe) && fx == yaml_request(old),
        PaletteCommand::Logs => logs_for_selection_applies(old, new, fx),
        PaletteCommand::Events => new == with_tab(old, DetailTab::Events) && fx == events_request(old),
        PaletteCommand::Metrics => new == with_tab(old, DetailTab::Metrics) && fx == seq![
            WindowEffect::Send(BackendCommand::FetchMetrics),
        ],
        PaletteCommand::Delete => fx.len() == 0 && match selected_name_string(old) {
            Some(n) => new == WindowModel { delete_confirm: Some((old.selected_kind, n, false)), ..old },
            None => new == old,
        },
        PaletteCommand::CopyExec => match selected_name_string(old) {
            Some(n) => {
                &&& new == WindowModel { status_message: new.status_message, ..old }
                &&& new.status_message@ == "Copied kubectl exec command."@
                &&& copy_effect(
                    fx,
                    exec_command(old.active_namespace@, n@, opt_view(old.selected_container)),
                )
            },
            None => new == old && fx.len() == 0,
        },
        PaletteCommand::OpenTerminal => match selected_name_string(old) {
            Some(n) => new == old && launch_effect(
                fx,
                old.active_namespace,
                n,
                old.selected_container,
                false,
                "Opened external terminal."@,
            ),
            None => new == old && fx.len() == 0,
        },
        PaletteCommand::OpenEmbeddedShell => new == old && fx.len() == 0,
        PaletteCommand::CopyPortForward => match selected_name_string(old) {
            Some(n) => {
                let (local_port, remote_port) = selection_ports(old.selected_row, current_rows(old));
                &&& new == WindowModel { status_message: new.status_message, ..old }
                &&& new.status_message@ == "Copied port-forward command."@
                &&& copy_effect(
                    fx,
                    port_forward_command(
                        old.active_namespace@,
                        old.selected_kind,
                        n@,
                        local_port,
                        remote_port,
                    ),
                )
            },
            None => new == old && fx.len() == 0,
        },
        PaletteCommand::StartPortForward => new == old && fx == forward_request(old, old.selected_kind),
        PaletteCommand::ToggleTheme => new == WindowModel { theme_mode: old.theme_mode.toggled(), ..old }
            && fx == seq![WindowEffect::PersistTheme],
        PaletteCommand::ApplyYaml => new == WindowModel { apply_yaml_open: true, ..old } && fx.len() == 0,
        PaletteCommand::ClusterSettings => new == old && fx == seq![WindowEffect::OpenSettingsDialog],
    }
}

/// The window with its palette closed and emptied as it was in `m`.
pub open spec fn palette_as_in(new: WindowModel, m: WindowModel) -> WindowModel {
    WindowModel { palette_open: m.palette_open, palette_query: m.palette_query, ..new }
}

impl WindowModel {
    fn opt_container(&self) -> (r: Option<&str>)
        ensures
            crate::text::opt_text(r) == opt_view(self.selected_container),
    {
        match &self.selected_container {
            Some(c) => Some(c.as_str()),
            None => None,
        }
    }

    fn run_command(&mut self, command: PaletteCommand) -> (fx: Vec<WindowEffect>)
        requires
            old(self).log_tabs@.next_id < u64::MAX,
        ensures
            final(self).log_tabs@.wf(),
            palette_command_applies(*old(self), command, *final(self), fx@),
            final(self).palette_open == old(self).palette_open,
            final(self).palette_query == old(self).palette_query,
    {
        proof {
            use_type_invariant(&self.log_tabs);
        }
        match command {
            PaletteCommand::Refresh => one(WindowEffect::Send(BackendCommand::RefreshWatch)),
            PaletteCommand::Describe => self.describe_selection(),
            PaletteCommand::Logs => self.start_logs_for_selection(),
            PaletteCommand::Events => self.show_events_for_selection(),
            PaletteCommand::Metrics => self.fetch_metrics(),
            PaletteCommand::Delete => {
                match self.selected_name() {
                    Some(n) => self.delete_confirm = Some((self.selected_kind, n, false)),
                    None => {},
                }
                Vec::new()
            },
            PaletteCommand::CopyExec => match self.selected_name() {
                Some(n) => {
                    let cmd = kubectl_exec_command(
                        self.active_namespace.as_str(),
                        n.as_str(),
                        self.opt_container(),
                    );
                    self.status_message = owned("Copied kubectl exec command.");
                    one(WindowEffect::CopyText(cmd))
                },
                None => Vec::new(),
            },
            PaletteCommand::OpenTerminal => match self.selected_name() {
                Some(n) => launch(
                    &self.active_namespace,
                    n,
                    clone_opt(&self.selected_container),
                    false,
                    "Opened external terminal.",
                ),
                None => Vec::new(),
            },
            PaletteCommand::OpenEmbeddedShell => Vec::new(),
            PaletteCommand::CopyPortForward => match self.selected_name() {
                Some(n) => {
                    let (local_port, remote_port) = port_forward_ports_for_selection(
                        self.selected_row,
                        self.current_rows(),
                    );
                    let cmd = kubectl_port_forward_command(
                        self.active_namespace.as_str(),
                        self.selected_kind,
                        n.as_str(),
                        local_port,
                        remote_port,
                    );
                    self.status_message = owned("Copied port-forward command.");
                    one(WindowEffect::CopyText(cmd))
                },
                None => Vec::new(),
            },
            PaletteCommand::StartPortForward => self.start_port_forward_for_selection(self.selected_kind),
            PaletteCommand::ToggleTheme => {
                self.theme_mode = self.theme_mode.toggle();
                one(WindowEffect::PersistTheme)
            },
            PaletteCommand::ApplyYaml => {
                self.apply_yaml_open = true;
                Vec::new()
            },
            PaletteCommand::ClusterSettings => one(WindowEffect::OpenSettingsDialog),
        }
    }

    /// Runs a command chosen in the palette, then closes and empties the
    /// palette.
    pub fn run_palette_command(&mut self, command: PaletteCommand) -> (fx: Vec<WindowEffect>)
        requires
            old(self).log_tabs@.next_id < u64::MAX,
        ensures
            final(self).log_tabs@.wf(),
            palette_command_applies(*old(self), command, palette_as_in(*final(self), *old(self)), fx@),
            !final(self).palette_open,
            final(self).palette_query@.len() == 0,
    {
        proof {
            use_type_invariant(&self.log_tabs);
        }
        let fx = self.run_command(command);
        let ghost mid = *self;
        self.palette_open = false;
        self.palette_query = String::new();
        assert(palette_as_in(*self, *old(self)) == mid);
        fx
    }
}

// ---------------------------------------------------------------------------
// Keyboard
// ---------------------------------------------------------------------------

/// The keys of one frame that the window reacts to.
#[derive(Debug, Default)]
pub struct KeyInput {
    /// Ctrl+K: open the command palette.
    pub palette: bool,
    /// Ctrl+F: search in the detail pane.
    pub search: bool,
    /// Escape: close the detail pane.
    pub escape: bool,
    /// A text field holds the keyboard.
    pub text_focused: bool,
    /// R: refresh the watches.
    pub refresh: bool,
    /// D: describe the selection.
    pub describe: bool,
    /// L: open the selection's logs.
    pub logs: bool,
    /// E: the selection's events.
    pub events: bool,
    /// `/`: focus the log filter.
    pub filter: bool,
}

/// The detail pane closed: no row selected, its texts emptied, the search
/// reset.
pub open spec fn detail_closed(old: WindowModel, new: WindowModel) -> bool {
    &&& new == WindowModel {
        selected_row: None,
        detail: new.detail,
        detail_search: new.detail_search,
        ..old
    }
    &&& detail_cleared(old.detail, new.detail)
    &&& new.detail_search.query@.len() == 0
    &&& new.detail_search.match_index == 0
    &&& !new.detail_search.focus_field
}

/// The window after Ctrl+K and Ctrl+F: the palette opened, the search
/// focused when a row is selected.
pub open spec fn after_palette_keys(old: WindowModel, k: KeyInput) -> WindowModel {
    WindowModel {
        palette_open: old.palette_open || k.palette,
        detail_search: if k.search && old.selected_row is Some {
            DetailSearchState { focus_field: true, ..old.detail_search }
        } else {
            old.detail_search
        },
        ..old
    }
}

/// The single-key shortcuts R, D, L, E and `/`, in that order, from `m`;
/// `m3` and `fx_l` are the window and effects after the L step.
pub open spec fn shortcut_steps(
    m: WindowModel,
    k: KeyInput,
    m3: WindowModel,
    fx_l: Seq<WindowEffect>,
    new: WindowModel,
    fx: Seq<WindowEffect>,
) -> bool {
    let fx_r = if k.refresh {
        seq![WindowEffect::Send(BackendCommand::RefreshWatch)]
    } else {
        Seq::empty()
    };
    let m2 = if k.describe {
        with_tab(m, DetailTab::Describe)
    } else {
        m
    };
    let fx_d = if k.describe {
        yaml_request(m)
    } else {
        Seq::empty()
    };
    let m4 = if k.events {
        with_tab(m3, DetailTab::Events)
    } else {
        m3
    };
    let fx_e = if k.events {
        events_request(m3)
    } else {
        Seq::empty()
    };
    &&& if k.logs {
        logs_for_selection_applies(m2, m3, fx_l)
    } else {
        m3 == m2 && fx_l.len() == 0
    }
    &&& new == WindowModel {
        focus_log_filter: m4.focus_log_filter || (k.filter && m4.log_tabs@.active is Some),
        ..m4
    }
    &&& fx == fx_r + fx_d + fx_l + fx_e
}

/// What the keys of a frame do.  With the palette open only Ctrl+K and
/// Ctrl+F count; Escape closes the detail pane of a selected row unless a
/// text field holds the keyboard; the single-key shortcuts count only when
/// no text field holds it.
pub open spec fn keyboard_applies(old: WindowModel, k: KeyInput, new: WindowModel, fx: Seq<WindowEffect>) -> bool {
    let m = after_palette_keys(old, k);
    if m.palette_open {
        new == m && fx.len() == 0
    } else if k.escape && m.selected_row is Some && !k.text_focused {
        detail_closed(m, new) && fx.len() == 0
    } else if k.text_focused {
        new == m && fx.len() == 0
    } else {
        exists|m3: WindowModel, fx_l: Seq<WindowEffect>|
            #![trigger shortcut_steps(m, k, m3, fx_l, new, fx)]
            shortcut_steps(m, k, m3, fx_l, new, fx)
    }
}

impl WindowModel {
    fn keys_refresh_describe(&mut self, k: &KeyInput) -> (fx: Vec<WindowEffect>)
        ensures
            *final(self) == if k.describe {
                with_tab(*old(self), DetailTab::Describe)
            } else {
                *old(self)
            },
            fx@ == (if k.refresh {
                seq![WindowEffect::Send(BackendCommand::RefreshWatch)]
            } else {
                Seq::empty()
            }) + (if k.describe {
                yaml_request(*old(self))
            } else {
                Seq::empty()
            }),
    {
        let mut fx: Vec<WindowEffect> = Vec::new();
        if k.refresh {
            fx.push(WindowEffect::Send(BackendCommand::RefreshWatch));
        }
        let ghost first = fx@;
        if k.describe {
            let mut d = self.describe_selection();
            fx.append(&mut d);
        }
        assert(fx@ =~= first + (if k.describe {
            yaml_request(*old(self))
        } else {
            Seq::<WindowEffect>::empty()
        }));
        fx
    }

    fn keys_logs(&mut self, k: &KeyInput) -> (fx: Vec<WindowEffect>)
        requires
            k.logs ==> old(self).log_tabs@.next_id < u64::MAX,
        ensures
            final(self).log_tabs@.wf(),
            if k.logs {
                logs_for_selection_applies(*old(self), *final(self), fx@)
            } else {
                *final(self) == *old(self) && fx@.len() == 0
            },
    {
        proof {
            use_type_invariant(&self.log_tabs);
        }
        if k.logs {
            self.start_logs_for_selection()
        } else {
            Vec::new()
        }
    }

    fn keys_events_filter(&mut self, k: &KeyInput) -> (fx: Vec<WindowEffect>)
        ensures
            ({
                let m4 = if k.events {
                    with_tab(*old(self), DetailTab::Events)
                } else {
                    *old(self)
                };
                *final(self) == (WindowModel {
                    focus_log_filter: m4.focus_log_filter || (k.filter && m4.log_tabs@.active is Some),
                    ..m4
                })
            }),
            fx@ == if k.events {
                events_request(*old(self))
            } else {
                Seq::empty()
            },
    {
        let fx = if k.events {
            self.show_events_for_selection()
        } else {
            Vec::new()
        };
        if k.filter && self.log_tabs.active_id().is_some() {
            self.focus_log_filter = true;
        }
        fx
    }

    #[verifier::spinoff_prover]
    #[verifier::rlimit(50)]
    fn shortcuts(&mut self, k: &KeyInput) -> (fx: Vec<WindowEffect>)
        requires
            k.logs ==> old(self).log_tabs@.next_id < u64::MAX,
        ensures
            final(self).log_tabs@.wf(),
            exists|m3: WindowModel, fx_l: Seq<WindowEffect>|
                #![trigger shortcut_steps(*old(self), *k, m3, fx_l, *final(self), fx@)]
                shortcut_steps(*old(self), *k, m3, fx_l, *final(self), fx@),
    {
        proof {
            use_type_invariant(&self.log_tabs);
        }
        let mut fx = self.keys_refresh_describe(k);
        let ghost fx_rd = fx@;
        let mut l = self.keys_logs(k);
        let ghost fx_l = l@;
        let ghost m3 = *self;
        fx.append(&mut l);
        let mut e = self.keys_events_filter(k);
        let ghost fx_e = e@;
        fx.append(&mut e);
        assert(fx@ =~= fx_rd + fx_l + fx_e);
        assert(shortcut_steps(*old(self), *k, m3, fx_l, *self, fx@));
        fx
    }

    /// Acts on the keys of a frame.
    pub fn handle_keyboard(&mut self, keys: KeyInput) -> (fx: Vec<WindowEffect>)
        requires
            keys.logs ==> old(self).log_tabs@.next_id < u64::MAX,
        ensures
            final(self).log_tabs@.wf(),
            keyboard_applies(*old(self), keys, *final(self), fx@),
    {
        proof {
            use_type_invariant(&self.log_tabs);
        }
        if keys.palette {
            self.palette_open = true;
        }
        if keys.search && self.selected_row.is_some() {
            self.detail_search.open();
        }
        assert(*self == after_palette_keys(*old(self), keys));
        if self.palette_open {
            return Vec::new();
        }
        if keys.escape && self.selected_row.is_some() && !keys.text_focused {
            self.close_detail_panel();
            return Vec::new();
        }
        if keys.text_focused {
            return Vec::new();
        }
        self.shortcuts(&keys)
    }
}

// ---------------------------------------------------------------------------
// Closing the window
// ---------------------------------------------------------------------------

/// The commands that stop the given port forwards, in order.
pub open spec fn stop_forwards(v: Seq<PortForwardInfo>) -> Seq<WindowEffect> {
    v.map_values(|p: PortForwardInfo| WindowEffect::Send(BackendCommand::StopPortForward { id: p.id }))
}

impl WindowModel {
    /// The window closes: the selection is saved, every port forward is
    /// stopped, the log streams are closed and the worker is shut down.
    pub fn on_exit(&mut self) -> (fx: Vec<WindowEffect>)
        ensures
            *final(self) == (WindowModel { port_forwards: final(self).port_forwards, ..*old(self) }),
            final(self).port_forwards@.len() == 0,
            fx@ == seq![persist_settings_effect(*old(self))] + stop_forwards(old(self).port_forwards@)
                + seq![
                WindowEffect::Send(BackendCommand::CloseAllLogs),
                WindowEffect::Send(BackendCommand::Shutdown),
            ],
    {
        let mut fx = one(
            WindowEffect::Send(
                BackendCommand::PersistSettings {
                    kind: self.selected_kind,
                    container: clone_opt(&self.selected_container),
                },
            ),
        );
        let ghost first = fx@;
        let mut i: usize = 0;
        while i < self.port_forwards.len()
            invariant
                i <= self.port_forwards@.len(),
                first == seq![persist_settings_effect(*old(self))],
                *self == *old(self),
                fx@ == first + stop_forwards(self.port_forwards@.take(i as int)),
            decreases self.port_forwards@.len() - i,
        {
            let id = self.port_forwards[i].id;
            fx.push(WindowEffect::Send(BackendCommand::StopPortForward { id }));
            assert(self.port_forwards@.take(i + 1) =~= self.port_forwards@.take(i as int).push(
                self.port_forwards@[i as int],
            ));
            assert(stop_forwards(self.port_forwards@.take(i + 1)) =~= stop_forwards(
                self.port_forwards@.take(i as int),
            ).push(WindowEffect::Send(BackendCommand::StopPortForward { id })));
            i = i + 1;
        }
        assert(self.port_forwards@.take(self.port_forwards@.len() as int) =~= self.port_forwards@);
        let ghost mid = fx@;
        self.port_forwards = Vec::new();
        fx.push(WindowEffect::Send(BackendCommand::CloseAllLogs));
        fx.push(WindowEffect::Send(BackendCommand::Shutdown));
        assert(fx@ =~= mid + seq![
            WindowEffect::Send(BackendCommand::CloseAllLogs),
            WindowEffect::Send(BackendCommand::Shutdown),
        ]);
        fx
    }
}

/// The command that scales the dialog's workload; only deployments and
/// stateful sets scale.
pub fn scale_command(dialog: &ScaleDialog) -> (r: Option<BackendCommand>)
    ensures
        r == match dialog.kind {
            ResourceKind::Deployment => Some(
                BackendCommand::ScaleDeployment { name: dialog.name, replicas: dialog.replicas as i32 },
            ),
            ResourceKind::StatefulSet => Some(
                BackendCommand::ScaleStatefulSet { name: dialog.name, replicas: dialog.replicas as i32 },
            ),
            _ => None,
        },
{
    match dialog.kind {
        ResourceKind::Deployment => Some(
            BackendCommand::ScaleDeployment { name: dialog.name.clone(), replicas: dialog.replicas as i32 },
        ),
        ResourceKind::StatefulSet => Some(
            BackendCommand::ScaleStatefulSet { name: dialog.name.clone(), replicas: dialog.replicas as i32 },
        ),
        _ => None,
    }
}

/// The command the Apply YAML window sends for its text: the text as typed,
/// and only when it holds more than whitespace.
pub fn apply_yaml_command(text: &str) -> (r: Option<BackendCommand>)
    ensures
        match r {
            Some(BackendCommand::ApplyYaml { yaml }) => yaml@ == text@ && crate::text::trim(text@).len() > 0,
            Some(_) => false,
            None => crate::text::trim(text@).len() == 0,
        },
{
    let chars = crate::text::chars_of(text);
    let trimmed = crate::text::trim_chars(chars.as_slice());
    if trimmed.len() == 0 {
        None
    } else {
        Some(BackendCommand::ApplyYaml { yaml: owned(text) })
    }
}

// ---------------------------------------------------------------------------
// Delete confirmation, sidebar changes, log panel actions
// ---------------------------------------------------------------------------

/// What the window does after the sidebar was used: showing the overview
/// (when connected) fetches a fresh dashboard; switching to another list (or
/// leaving the overview) drops the selection and detail, tells the worker the
/// kind, reloads the list and saves the settings.
pub open spec fn sidebar_changed_applies(
    old: WindowModel,
    prev_kind: ResourceKind,
    prev_overview: bool,
    new: WindowModel,
    fx: Seq<WindowEffect>,
) -> bool {
    if old.show_overview && old.connected && !prev_overview {
        &&& new == (WindowModel { dashboard: None, ..old })
        &&& fx == seq![WindowEffect::Send(BackendCommand::FetchDashboard)]
    } else if (old.selected_kind != prev_kind || old.show_overview != prev_overview)
        && !old.show_overview {
        &&& new == (WindowModel { selected_row: None, detail: new.detail, ..old })
        &&& detail_cleared(old.detail, new.detail)
        &&& fx == seq![
            WindowEffect::Send(BackendCommand::SetActiveKind(old.selected_kind)),
            WindowEffect::Send(BackendCommand::RefreshList),
            persist_settings_effect(old),
        ]
    } else {
        new == old && fx.len() == 0
    }
}

/// The text of the clipboard copy of a tab's log.
pub open spec fn copied_message(count: nat) -> Seq<char> {
    "Copied "@ + crate::text::decimal(count) + " log line(s) to clipboard."@
}

/// What the window does with what the log panel reported, the first of these
/// that applies: a container switch (for a tab of the active cluster: it
/// shows the new container's log from the start), a stream restart, a
/// request for older lines, a copy of the focused tab's lines, a status
/// message.
pub open spec fn log_content_applies(
    old: WindowModel,
    a: LogContentAction,
    timestamps: bool,
    new: WindowModel,
    fx: Seq<WindowEffect>,
) -> bool {
    match a.container {
        Some((id, c)) => match tab_index(old.log_tabs@.tabs, id) {
            Some(i) => if old.log_tabs@.tabs[i].context@ == old.active_context@ {
                &&& new == (WindowModel { log_tabs: new.log_tabs, ..old })
                &&& exists|mid: LogTabsView|
                    #[trigger] container_choice_rel(old.log_tabs@, id, c, mid) && cleared_rel(
                        mid,
                        id,
                        new.log_tabs@,
                    )
                &&& fx == seq![
                    WindowEffect::Send(
                        BackendCommand::StartLogs {
                            tab_id: id,
                            pod_name: old.log_tabs@.tabs[i].pod_name,
                            container: Some(c),
                        },
                    ),
                ]
            } else {
                new == old && fx.len() == 0
            },
            None => new == old && fx.len() == 0,
        },
        None => if a.restart_stream {
            restart_applies(old, true, new, fx)
        } else if a.load_older is Some {
            older_logs_applies(old, a.load_older->0, timestamps, new, fx)
        } else if a.export_logs {
            match old.log_tabs@.active {
                Some(t) => {
                    let tab = old.log_tabs@.tabs[tab_index(old.log_tabs@.tabs, t)->0];
                    &&& new == (WindowModel { status_message: new.status_message, ..old })
                    &&& new.status_message@ == copied_message(tab.lines@.len())
                    &&& fx.len() == 1
                    &&& fx[0] matches WindowEffect::CopyText(text) && text@ == crate::text::join_with(
                        texts(tab.lines@),
                        "\n"@,
                    )
                },
                None => new == old && fx.len() == 0,
            }
        } else {
            match a.status_message {
                Some(m) => new == (WindowModel { status_message: m, ..old }) && fx.len() == 0,
                None => new == old && fx.len() == 0,
            }
        },
    }
}

impl WindowModel {
    /// The delete dialog's confirm button: the pending deletion is sent and
    /// the dialog closes; with nothing pending nothing happens.
    pub fn confirm_delete(&mut self) -> (fx: Vec<WindowEffect>)
        ensures
            match old(self).delete_confirm {
                Some((kind, name, force)) => {
                    &&& *final(self) == (WindowModel { delete_confirm: None, ..*old(self) })
                    &&& fx@ == seq![
                        WindowEffect::Send(BackendCommand::DeleteResource { kind, name, force }),
                    ]
                },
                None => *final(self) == *old(self) && fx@.len() == 0,
            },
    {
        let pending = self.delete_confirm.take();
        match pending {
            Some((kind, name, force)) => one(
                WindowEffect::Send(BackendCommand::DeleteResource { kind, name, force }),
            ),
            None => Vec::new(),
        }
    }

    /// The delete dialog's cancel button, or its window closed: nothing is
    /// deleted.
    pub fn cancel_delete(&mut self)
        ensures
            *final(self) == (WindowModel { delete_confirm: None, ..*old(self) }),
    {
        self.delete_confirm = None;
    }

    /// The scale dialog's Scale button: the dialog's workload is scaled to
    /// its replica count (only deployments and stateful sets scale); the
    /// dialog stays open.
    pub fn confirm_scale(&self) -> (fx: Vec<WindowEffect>)
        ensures
            match self.scale_dialog {
                Some(d) => match d.kind {
                    ResourceKind::Deployment => fx@ == seq![
                        WindowEffect::Send(
                            BackendCommand::ScaleDeployment { name: d.name, replicas: d.replicas as i32 },
                        ),
                    ],
                    ResourceKind::StatefulSet => fx@ == seq![
                        WindowEffect::Send(
                            BackendCommand::ScaleStatefulSet { name: d.name, replicas: d.replicas as i32 },
                        ),
                    ],
                    _ => fx@.len() == 0,
                },
                None => fx@.len() == 0,
            },
    {
        match &self.scale_dialog {
            Some(d) => match scale_command(d) {
                Some(cmd) => one(WindowEffect::Send(cmd)),
                None => Vec::new(),
            },
            None => Vec::new(),
        }
    }

    /// The replica field of the scale dialog, held between 0 and 1000.
    pub fn set_scale_replicas(&mut self, replicas: u32)
        ensures
            match old(self).scale_dialog {
                Some(d) => *final(self) == (WindowModel {
                    scale_dialog: Some(
                        ScaleDialog { replicas: if replicas > 1000 { 1000 } else { replicas }, ..d },
                    ),
                    ..*old(self)
                }),
                None => *final(self) == *old(self),
            },
    {
        let pending = self.scale_dialog.take();
        match pending {
            Some(d) => {
                let r = if replicas > 1000 {
                    1000
                } else {
                    replicas
                };
                self.scale_dialog = Some(ScaleDialog { replicas: r, ..d });
            },
            None => {},
        }
    }

    /// The scale dialog's Cancel button, or its window closed.
    pub fn cancel_scale(&mut self)
        ensures
            *final(self) == (WindowModel { scale_dialog: None, ..*old(self) }),
    {
        self.scale_dialog = None;
    }

    /// Follows up a use of the sidebar, given the kind and overview flag
    /// before it.
    pub fn on_sidebar_changed(&mut self, prev_kind: ResourceKind, prev_overview: bool) -> (fx: Vec<
        WindowEffect,
    >)
        ensures
            sidebar_changed_applies(*old(self), prev_kind, prev_overview, *final(self), fx@),
    {
        if self.show_overview && self.connected && !prev_overview {
            self.dashboard = None;
            return one(WindowEffect::Send(BackendCommand::FetchDashboard));
        }
        if (self.selected_kind != prev_kind || self.show_overview != prev_overview)
            && !self.show_overview {
            let persist = self.persist_settings();
            self.selected_row = None;
            self.detail.clear();
            let mut fx: Vec<WindowEffect> = Vec::new();
            fx.push(WindowEffect::Send(BackendCommand::SetActiveKind(self.selected_kind)));
            fx.push(WindowEffect::Send(BackendCommand::RefreshList));
            fx.push(persist);
            assert(fx@ =~= seq![
                WindowEffect::Send(BackendCommand::SetActiveKind(old(self).selected_kind)),
                WindowEffect::Send(BackendCommand::RefreshList),
                persist_settings_effect(*old(self)),
            ]);
            return fx;
        }
        Vec::new()
    }

    /// Acts on what the log panel reported; `timestamps` is the panel's
    /// timestamp setting, used when older lines are asked for.
    pub fn apply_log_content_action(&mut self, a: LogContentAction, timestamps: bool) -> (fx: Vec<
        WindowEffect,
    >)
        ensures
            final(self).log_tabs@.wf(),
            log_content_applies(*old(self), a, timestamps, *final(self), fx@),
    {
        proof {
            use_type_invariant(&self.log_tabs);
        }
        match a.container {
            Some((id, c)) => {
                let pod = match self.log_tabs.tab(id) {
                    Some(t) => {
                        if !crate::text::str_eq(t.context.as_str(), self.active_context.as_str()) {
                            return Vec::new();
                        }
                        t.pod_name.clone()
                    },
                    None => {
                        return Vec::new();
                    },
                };
                let ghost c0 = c;
                let chosen = c.clone();
                self.log_tabs.choose_container(id, c);
                let ghost mid = self.log_tabs@;
                self.log_tabs.clear_lines(id);
                assert(container_choice_rel(old(self).log_tabs@, id, c0, mid));
                one(WindowEffect::Send(BackendCommand::StartLogs { tab_id: id, pod_name: pod, container: Some(chosen) }))
            },
            None => {
                if a.restart_stream {
                    self.restart_active_log_stream(true)
                } else if let Some(id) = a.load_older {
                    self.fetch_older_logs(id, timestamps)
                } else if a.export_logs {
                    let (text, count) = match self.log_tabs.active_tab() {
                        Some(t) => (join_texts(t.lines(), "\n"), t.line_count()),
                        None => {
                            return Vec::new();
                        },
                    };
                    let mut msg = owned("Copied ");
                    crate::text::push_decimal(&mut msg, count as u64);
                    msg.append(" log line(s) to clipboard.");
                    self.status_message = msg;
                    one(WindowEffect::CopyText(text))
                } else {
                    match a.status_message {
                        Some(m) => {
                            self.status_message = m;
                            Vec::new()
                        },
                        None => Vec::new(),
                    }
                }
            },
        }
    }
}

} // verus!
