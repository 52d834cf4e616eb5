//! What the window shows and how it answers the background worker's events:
//! the decisions of the window, apart from drawing.
use vstd::prelude::*;

use crate::backend::{BackendCommand, BackendEvent, PortForwardInfo};
use crate::containers::{default_container, default_container_exec, ContainerInfo};
use crate::dashboard::ClusterDashboard;
use crate::detail::{DetailSearchState, DetailState};
use crate::panels::{FavoriteResource, ThemeMode};
use crate::log_tabs::{
    cleared_rel, close_tab_rel, containers_rel, loading_rel, older_logs_rel, open_tab_rel,
    push_line_rel, set_active_rel, tab_index, LogTab, LogTabsState, LogTabsView,
};
use crate::resources::{kind_api_kind, CrdTarget, ResourceKind, ResourceRow};
use crate::store::ResourceSnapshot;
use crate::text::{contains_text, decimal, join_texts, join_with, owned, push_decimal, signed_decimal, texts};
use crate::workspace::{synced_pins, sync_pinned_contexts};

verus! {

/// The scale dialog: which workload, and the replica count being edited.
pub struct ScaleDialog {
    pub kind: ResourceKind,
    pub name: String,
    pub replicas: u32,
}

/// What the window asks of the outside after handling an event.
#[derive(Debug)]
pub enum WindowEffect {
    /// Send a command to the background worker.
    Send(BackendCommand),
    /// Save the pinned contexts to the settings.
    PersistPinnedContexts,
    /// Save the open cluster tabs to the settings.
    PersistClusterTabs,
    /// Save the favorites to the settings.
    PersistFavorites,
    /// Save the theme to the settings and restyle the window with it.
    PersistTheme,
    /// Put a text on the clipboard.
    CopyText(String),
    /// Open an external terminal running `kubectl exec` (or `kubectl attach`
    /// when `attach`) into a pod; report the outcome through
    /// [`WindowModel::terminal_launched`] with `success` as the message.
    LaunchTerminal {
        namespace: String,
        pod_name: String,
        container: Option<String>,
        attach: bool,
        success: String,
    },
    /// Open the cluster settings dialog on the saved settings.
    OpenSettingsDialog,
}

/// The window's state, apart from drawing.
pub struct WindowModel {
    pub connecting: bool,
    pub connected: bool,
    pub status_message: String,
    pub error_message: Option<String>,
    pub active_context: String,
    pub active_namespace: String,
    pub contexts: Vec<String>,
    pub namespaces: Vec<String>,
    pub crd_targets: Vec<CrdTarget>,
    pub pinned_contexts: Vec<String>,
    pub cluster_tabs: Vec<String>,
    /// Latest snapshot per kind (the first entry for a kind counts).
    pub snapshots: Vec<(ResourceKind, ResourceSnapshot)>,
    pub selected_kind: ResourceKind,
    pub row_count: usize,
    pub selected_row: Option<usize>,
    pub detail: DetailState,
    pub log_tabs: LogTabsState,
    pub menu_containers_pod: Option<String>,
    pub containers: Vec<ContainerInfo>,
    pub selected_container: Option<String>,
    pub dashboard: Option<ClusterDashboard>,
    pub port_forwards: Vec<PortForwardInfo>,
    pub apply_yaml_open: bool,
    pub scale_dialog: Option<ScaleDialog>,
    pub delete_confirm: Option<(ResourceKind, String, bool)>,
    pub theme_mode: ThemeMode,
    pub favorites: Vec<FavoriteResource>,
    /// Whether the overview replaces the resource table.
    pub show_overview: bool,
    /// Row to select once the list of a favorite's kind arrives.
    pub pending_favorite_select: Option<String>,
    pub palette_open: bool,
    pub palette_query: String,
    pub detail_search: DetailSearchState,
    /// Whether the context menu of the icon rail is open.
    pub context_menu_open: bool,
    /// Whether the log filter field should take the focus.
    pub focus_log_filter: bool,
}

// ---------------------------------------------------------------------------
// Views used by the contracts
// ---------------------------------------------------------------------------

/// The snapshot held for a kind.
pub open spec fn snapshot_for(snaps: Seq<(ResourceKind, ResourceSnapshot)>, kind: ResourceKind) -> Option<
    ResourceSnapshot,
>
    decreases snaps.len(),
{
    if snaps.len() == 0 {
        None
    } else if snaps[0].0 == kind {
        Some(snaps[0].1)
    } else {
        snapshot_for(snaps.drop_first(), kind)
    }
}

/// The rows of the selected kind.
pub open spec fn current_rows(m: WindowModel) -> Seq<ResourceRow> {
    match snapshot_for(m.snapshots@, m.selected_kind) {
        Some(s) => s.rows@,
        None => Seq::empty(),
    }
}

/// The name of the selected row, if the selection is within the rows.
pub open spec fn selected_name_of(m: WindowModel) -> Option<Seq<char>> {
    match m.selected_row {
        Some(i) => if i < current_rows(m).len() {
            Some(current_rows(m)[i as int].name@)
        } else {
            None
        },
        None => None,
    }
}

/// The row at index `i` of the selected kind's rows.
pub open spec fn row_at(m: WindowModel, i: usize) -> Option<ResourceRow> {
    if i < current_rows(m).len() {
        Some(current_rows(m)[i as int])
    } else {
        None
    }
}

/// The name of the selected row, as held in the row.
pub open spec fn selected_name_string(m: WindowModel) -> Option<String> {
    match m.selected_row {
        Some(i) => match row_at(m, i) {
            Some(row) => Some(row.name),
            None => None,
        },
        None => None,
    }
}

/// Every detail text emptied, the tab kept.
pub open spec fn detail_cleared(old: DetailState, new: DetailState) -> bool {
    &&& new.tab == old.tab
    &&& new.yaml@.len() == 0
    &&& new.events@.len() == 0
    &&& new.metrics@.len() == 0
    &&& new.resource_name@.len() == 0
}

/// Resuming the stream of a tab of the active cluster: start it when a
/// container is chosen, else ask for the pod's containers first.
pub open spec fn resume_effects(logs: LogTabsView, active_context: Seq<char>, id: u64) -> Seq<
    WindowEffect,
> {
    match tab_index(logs.tabs, id) {
        Some(i) => {
            let t = logs.tabs[i];
            if t.context@ == active_context {
                if t.container is Some {
                    seq![
                        WindowEffect::Send(
                            BackendCommand::StartLogs {
                                tab_id: id,
                                pod_name: t.pod_name,
                                container: t.container,
                            },
                        ),
                    ]
                } else {
                    seq![
                        WindowEffect::Send(
                            BackendCommand::FetchContainers { tab_id: Some(id), pod_name: t.pod_name },
                        ),
                    ]
                }
            } else {
                Seq::empty()
            }
        },
        None => Seq::empty(),
    }
}

/// The port forwards other than the one with this id, in order.
pub open spec fn without_forward(v: Seq<PortForwardInfo>, id: u64) -> Seq<PortForwardInfo>
    decreases v.len(),
{
    if v.len() == 0 {
        v
    } else {
        let r = without_forward(v.drop_last(), id);
        if v.last().id == id {
            r
        } else {
            r.push(v.last())
        }
    }
}

pub(crate) fn clone_opt(o: &Option<String>) -> (r: Option<String>)
    ensures
        r == *o,
{
    match o {
        Some(s) => Some(s.clone()),
        None => None,
    }
}

fn retain_forwards(v: &Vec<PortForwardInfo>, id: u64) -> (r: Vec<PortForwardInfo>)
    ensures
        r@ == without_forward(v@, id),
{
    let mut out: Vec<PortForwardInfo> = Vec::new();
    let mut i: usize = 0;
    assert(v@.take(0) =~= Seq::<PortForwardInfo>::empty());
    while i < v.len()
        invariant
            i <= v@.len(),
            out@ == without_forward(v@.take(i as int), id),
        decreases v@.len() - i,
    {
        assert(v@.take(i + 1).drop_last() =~= v@.take(i as int));
        if v[i].id != id {
            let p = &v[i];
            let c = PortForwardInfo {
                id: p.id,
                label: p.label.clone(),
                local_port: p.local_port,
                remote_port: p.remote_port,
            };
            assert(c == v@[i as int]);
            out.push(c);
        }
        i = i + 1;
    }
    assert(v@.take(v@.len() as int) =~= v@);
    out
}

pub(crate) fn refresh_list() -> (r: Vec<WindowEffect>)
    ensures
        r@ == seq![WindowEffect::Send(BackendCommand::RefreshList)],
{
    let mut v: Vec<WindowEffect> = Vec::new();
    v.push(WindowEffect::Send(BackendCommand::RefreshList));
    assert(v@ =~= seq![WindowEffect::Send(BackendCommand::RefreshList)]);
    v
}

/// `prefix` followed by `name`.
fn message(prefix: &str, name: &str) -> (r: String)
    ensures
        r@ == prefix@ + name@,
{
    let mut s = owned(prefix);
    s.append(name);
    s
}

/// A log error is shown in its tab: appended as a line, the tab focused,
/// and its older-log fetch marked done.
pub open spec fn log_error_rel(old: LogTabsView, id: u64, message: String, new: LogTabsView) -> bool {
    exists|a: LogTabsView, b: LogTabsView|
        #![trigger push_line_rel(old, id, message, a), set_active_rel(a, id, b)]
        push_line_rel(old, id, message, a) && set_active_rel(a, id, b) && loading_rel(b, id, false, new)
}

/// What the window does with one event of the background worker: the state
/// after it and the effects asked for, in order.
pub open spec fn applies(old: WindowModel, e: BackendEvent, new: WindowModel, fx: Seq<WindowEffect>) -> bool {
    match e {
        BackendEvent::Connecting => {
            &&& new == WindowModel { connecting: true, status_message: new.status_message, ..old }
            &&& new.status_message@ == "Connecting..."@
            &&& fx.len() == 0
        },
        BackendEvent::Connected { context, namespace, contexts, namespaces, crd_targets } => {
            let tab_added = !texts(old.cluster_tabs@).contains(context@);
            &&& new == WindowModel {
                connecting: false,
                connected: true,
                active_context: context,
                active_namespace: namespace,
                contexts,
                namespaces,
                crd_targets,
                pinned_contexts: new.pinned_contexts,
                cluster_tabs: new.cluster_tabs,
                selected_row: None,
                detail: new.detail,
                status_message: new.status_message,
                error_message: None,
                ..old
            }
            &&& texts(new.pinned_contexts@) == synced_pins(
                texts(old.pinned_contexts@),
                texts(contexts@),
                context@,
            )
            &&& texts(new.cluster_tabs@) == if tab_added {
                texts(old.cluster_tabs@).push(context@)
            } else {
                texts(old.cluster_tabs@)
            }
            &&& detail_cleared(old.detail, new.detail)
            &&& new.status_message@ == "Connected to "@ + context@ + " / "@ + namespace@
            &&& fx == seq![WindowEffect::PersistPinnedContexts] + (if tab_added {
                seq![WindowEffect::PersistClusterTabs]
            } else {
                Seq::empty()
            }) + seq![WindowEffect::Send(BackendCommand::CloseAllLogs)] + match old.log_tabs@.active {
                Some(id) => resume_effects(old.log_tabs@, context@, id),
                None => Seq::empty(),
            }
        },
        BackendEvent::Snapshot { kind, snapshot } => {
            &&& new == WindowModel {
                snapshots: new.snapshots,
                row_count: new.row_count,
                ..old
            }
            &&& snapshot_for(new.snapshots@, kind) == Some(snapshot)
            &&& forall|k: ResourceKind|
                k != kind ==> #[trigger] snapshot_for(new.snapshots@, k) == snapshot_for(
                    old.snapshots@,
                    k,
                )
            &&& new.row_count == if kind == old.selected_kind {
                snapshot.rows@.len() as usize
            } else {
                old.row_count
            }
            &&& fx.len() == 0
        },
        BackendEvent::YamlLoaded { name, yaml } => {
            &&& new == WindowModel {
                detail: DetailState { resource_name: name, yaml, ..old.detail },
                ..old
            }
            &&& fx.len() == 0
        },
        BackendEvent::EventsLoaded { text } => {
            &&& new == WindowModel { detail: DetailState { events: text, ..old.detail }, ..old }
            &&& fx.len() == 0
        },
        BackendEvent::MetricsLoaded { text } => {
            &&& new == WindowModel { detail: DetailState { metrics: text, ..old.detail }, ..old }
            &&& fx.len() == 0
        },
        BackendEvent::ContainersLoaded { tab_id, pod_name, containers } => match tab_id {
            Some(id) => {
                let had = match tab_index(old.log_tabs@.tabs, id) {
                    Some(i) => old.log_tabs@.tabs[i].container,
                    None => None,
                };
                &&& new == WindowModel { log_tabs: new.log_tabs, ..old }
                &&& containers_rel(old.log_tabs@, id, containers, new.log_tabs@)
                &&& fx == if had is None && tab_index(new.log_tabs@.tabs, id) is Some {
                    let t = new.log_tabs@.tabs[tab_index(new.log_tabs@.tabs, id)->0];
                    seq![
                        WindowEffect::Send(
                            BackendCommand::StartLogs {
                                tab_id: id,
                                pod_name: t.pod_name,
                                container: t.container,
                            },
                        ),
                    ]
                } else {
                    Seq::empty()
                }
            },
            None => {
                &&& new == WindowModel {
                    menu_containers_pod: Some(pod_name),
                    containers,
                    selected_container: new.selected_container,
                    ..old
                }
                &&& match old.selected_container {
                    Some(c) => new.selected_container == Some(c),
                    None => match new.selected_container {
                        Some(c) => default_container(containers@) == Some(c@),
                        None => default_container(containers@) is None,
                    },
                }
                &&& fx.len() == 0
            },
        },
        BackendEvent::LogLine { tab_id, line } => {
            &&& new == WindowModel { log_tabs: new.log_tabs, ..old }
            &&& push_line_rel(old.log_tabs@, tab_id, line, new.log_tabs@)
            &&& fx.len() == 0
        },
        BackendEvent::LogError { tab_id, message } => {
            &&& new == WindowModel { log_tabs: new.log_tabs, ..old }
            &&& log_error_rel(old.log_tabs@, tab_id, message, new.log_tabs@)
            &&& fx.len() == 0
        },
        BackendEvent::OlderLogsLoaded { tab_id, prepended, has_more } => {
            &&& new == WindowModel { log_tabs: new.log_tabs, ..old }
            &&& older_logs_rel(old.log_tabs@, tab_id, prepended@, has_more, new.log_tabs@)
            &&& fx.len() == 0
        },
        BackendEvent::ResourceDeleted { kind, name } => {
            &&& new == WindowModel {
                status_message: new.status_message,
                selected_row: None,
                detail: new.detail,
                delete_confirm: None,
                ..old
            }
            &&& new.status_message@ == "Deleted "@ + kind_api_kind(kind) + " "@ + name@
            &&& detail_cleared(old.detail, new.detail)
            &&& fx.len() == 0
        },
        BackendEvent::CronJobTriggered { name } => {
            &&& new == WindowModel { status_message: new.status_message, ..old }
            &&& new.status_message@ == "Triggered CronJob "@ + name@
            &&& fx == seq![WindowEffect::Send(BackendCommand::RefreshList)]
        },
        BackendEvent::CronJobSuspendChanged { name, suspended } => {
            &&& new == WindowModel { status_message: new.status_message, ..old }
            &&& new.status_message@ == (if suspended {
                "Suspended"@
            } else {
                "Resumed"@
            }) + " CronJob "@ + name@
            &&& fx == seq![WindowEffect::Send(BackendCommand::RefreshList)]
        },
        BackendEvent::DeploymentRestarted { name } => {
            &&& new == WindowModel { status_message: new.status_message, ..old }
            &&& new.status_message@ == "Restarted deployment "@ + name@
            &&& fx == seq![WindowEffect::Send(BackendCommand::RefreshList)]
        },
        BackendEvent::StatefulSetRestarted { name } => {
            &&& new == WindowModel { status_message: new.status_message, ..old }
            &&& new.status_message@ == "Restarted statefulset "@ + name@
            &&& fx == seq![WindowEffect::Send(BackendCommand::RefreshList)]
        },
        BackendEvent::WorkloadScaled { kind, name, replicas } => {
            &&& new == WindowModel { status_message: new.status_message, scale_dialog: None, ..old }
            &&& new.status_message@ == "Scaled "@ + kind_api_kind(kind) + " "@ + name@ + " to "@
                + signed_decimal(replicas as int) + " replicas"@
            &&& fx == seq![WindowEffect::Send(BackendCommand::RefreshList)]
        },
        BackendEvent::YamlApplied { resources } => {
            &&& new == WindowModel { status_message: new.status_message, apply_yaml_open: false, ..old }
            &&& new.status_message@ == "Applied: "@ + join_with(texts(resources@), ", "@)
            &&& fx == seq![WindowEffect::Send(BackendCommand::RefreshList)]
        },
        BackendEvent::DashboardLoaded { dashboard } => {
            &&& new == WindowModel { dashboard: Some(dashboard), ..old }
            &&& fx.len() == 0
        },
        BackendEvent::PortForwardStarted { info } => {
            &&& new == WindowModel {
                port_forwards: new.port_forwards,
                status_message: new.status_message,
                ..old
            }
            &&& new.port_forwards@ == without_forward(old.port_forwards@, info.id).push(info)
            &&& new.status_message@ == "Port-forward "@ + info.label@ + " → localhost:"@ + decimal(
                info.local_port as nat,
            )
            &&& fx.len() == 0
        },
        BackendEvent::PortForwardStopped { id } => {
            &&& new == WindowModel { port_forwards: new.port_forwards, ..old }
            &&& new.port_forwards@ == without_forward(old.port_forwards@, id)
            &&& fx.len() == 0
        },
        BackendEvent::Error(msg) => {
            &&& new == WindowModel { error_message: Some(msg), connecting: false, ..old }
            &&& fx.len() == 0
        },
        BackendEvent::Busy | BackendEvent::ExclusiveDone => new == old && fx.len() == 0,
    }
}

impl WindowModel {
    fn find_snapshot(&self, kind: ResourceKind) -> (r: Option<usize>)
        ensures
            match r {
                Some(i) => i < self.snapshots@.len() && self.snapshots@[i as int].0 == kind
                    && forall|j: int| 0 <= j < i ==> (#[trigger] self.snapshots@[j]).0 != kind,
                None => forall|j: int| 0 <= j < self.snapshots@.len() ==> (#[trigger] self.snapshots@[j]).0 != kind,
            },
    {
        let mut i: usize = 0;
        while i < self.snapshots.len()
            invariant
                i <= self.snapshots@.len(),
                forall|j: int| 0 <= j < i ==> (#[trigger] self.snapshots@[j]).0 != kind,
            decreases self.snapshots@.len() - i,
        {
            if self.snapshots[i].0 == kind {
                return Some(i);
            }
            i = i + 1;
        }
        None
    }

    /// Stores a snapshot of a kind, replacing the one held.
    fn store_snapshot(&mut self, kind: ResourceKind, snapshot: ResourceSnapshot)
        ensures
            *final(self) == (WindowModel { snapshots: final(self).snapshots, ..*old(self) }),
            snapshot_for(final(self).snapshots@, kind) == Some(snapshot),
            forall|k: ResourceKind|
                k != kind ==> #[trigger] snapshot_for(final(self).snapshots@, k) == snapshot_for(
                    old(self).snapshots@,
                    k,
                ),
    {
        let ghost before = self.snapshots@;
        let entry = (kind, snapshot);
        match self.find_snapshot(kind) {
            Some(i) => {
                self.snapshots.set(i, entry);
                proof {
                    lemma_snapshot_update(before, i as int, entry);
                }
            },
            None => {
                self.snapshots.push(entry);
                proof {
                    lemma_snapshot_push(before, entry);
                }
            },
        }
    }

    /// Resumes the stream of a tab of the active cluster (after a context
    /// switch or when the tab is focused): starts it when a container is
    /// chosen, else asks for the pod's containers first.
    pub fn resume_log_tab_stream(&self, id: u64) -> (r: Vec<WindowEffect>)
        ensures
            r@ == resume_effects(self.log_tabs@, self.active_context@, id),
    {
        let mut v: Vec<WindowEffect> = Vec::new();
        match self.log_tabs.tab(id) {
            Some(t) => {
                if crate::text::str_eq(t.context.as_str(), self.active_context.as_str()) {
                    let pod_name = t.pod_name.clone();
                    match &t.container {
                        Some(c) => {
                            v.push(
                                WindowEffect::Send(
                                    BackendCommand::StartLogs {
                                        tab_id: id,
                                        pod_name,
                                        container: Some(c.clone()),
                                    },
                                ),
                            );
                        },
                        None => {
                            v.push(
                                WindowEffect::Send(
                                    BackendCommand::FetchContainers { tab_id: Some(id), pod_name },
                                ),
                            );
                        },
                    }
                }
            },
            None => {},
        }
        assert(v@ =~= resume_effects(self.log_tabs@, self.active_context@, id));
        v
    }

    fn on_connected(
        &mut self,
        context: String,
        namespace: String,
        contexts: Vec<String>,
        namespaces: Vec<String>,
        crd_targets: Vec<CrdTarget>,
    ) -> (fx: Vec<WindowEffect>)
        ensures
            final(self).log_tabs@.wf(),
            applies(
                *old(self),
                BackendEvent::Connected { context, namespace, contexts, namespaces, crd_targets },
                *final(self),
                fx@,
            ),
    {
        proof {
            use_type_invariant(&self.log_tabs);
        }
        let ghost e = BackendEvent::Connected {
            context,
            namespace,
            contexts,
            namespaces,
            crd_targets,
        };
        let mut fx: Vec<WindowEffect> = Vec::new();
        self.connecting = false;
        self.connected = true;
        let pinned = sync_pinned_contexts(
            self.pinned_contexts.as_slice(),
            contexts.as_slice(),
            context.as_str(),
        );
        self.pinned_contexts = pinned;
        fx.push(WindowEffect::PersistPinnedContexts);
        let tab_added = !contains_text(self.cluster_tabs.as_slice(), context.as_str());
        if tab_added {
            let ghost before = texts(self.cluster_tabs@);
            self.cluster_tabs.push(context.clone());
            assert(texts(self.cluster_tabs@) =~= before.push(context@));
            fx.push(WindowEffect::PersistClusterTabs);
        }
        fx.push(WindowEffect::Send(BackendCommand::CloseAllLogs));
        let ghost mid = fx@;
        assert(mid =~= seq![WindowEffect::PersistPinnedContexts] + (if tab_added {
            seq![WindowEffect::PersistClusterTabs]
        } else {
            Seq::empty()
        }) + seq![WindowEffect::Send(BackendCommand::CloseAllLogs)]);
        self.selected_row = None;
        self.detail.clear();
        let mut status = owned("Connected to ");
        status.append(context.as_str());
        status.append(" / ");
        status.append(namespace.as_str());
        self.active_context = context;
        self.active_namespace = namespace;
        self.contexts = contexts;
        self.namespaces = namespaces;
        self.crd_targets = crd_targets;
        match self.log_tabs.active_id() {
            Some(id) => {
                let mut more = self.resume_log_tab_stream(id);
                fx.append(&mut more);
            },
            None => {
                assert(fx@ =~= mid + Seq::<WindowEffect>::empty());
            },
        }
        self.status_message = status;
        self.error_message = None;
        fx
    }

    fn on_snapshot(&mut self, kind: ResourceKind, snapshot: ResourceSnapshot) -> (fx: Vec<WindowEffect>)
        ensures
            applies(*old(self), BackendEvent::Snapshot { kind, snapshot }, *final(self), fx@),
    {
        let n = snapshot.rows.len();
        self.store_snapshot(kind, snapshot);
        if kind == self.selected_kind {
            self.row_count = n;
        }
        Vec::new()
    }

    fn on_containers(&mut self, tab_id: Option<u64>, pod_name: String, containers: Vec<ContainerInfo>) -> (fx: Vec<WindowEffect>)
        ensures
            final(self).log_tabs@.wf(),
            applies(
                *old(self),
                BackendEvent::ContainersLoaded { tab_id, pod_name, containers },
                *final(self),
                fx@,
            ),
    {
        proof {
            use_type_invariant(&self.log_tabs);
        }
        let mut fx: Vec<WindowEffect> = Vec::new();
        match tab_id {
            Some(id) => {
                let had = match self.log_tabs.tab(id) {
                    Some(t) => clone_opt(&t.container),
                    None => None,
                };
                self.log_tabs.set_containers(id, containers);
                if had.is_none() {
                    match self.log_tabs.tab(id) {
                        Some(t) => {
                            fx.push(
                                WindowEffect::Send(
                                    BackendCommand::StartLogs {
                                        tab_id: id,
                                        pod_name: t.pod_name.clone(),
                                        container: clone_opt(&t.container),
                                    },
                                ),
                            );
                        },
                        None => {},
                    }
                }
                fx
            },
            None => {
                if self.selected_container.is_none() {
                    self.selected_container = default_container_exec(containers.as_slice());
                }
                self.menu_containers_pod = Some(pod_name);
                self.containers = containers;
                fx
            },
        }
    }

    fn on_log_error(&mut self, tab_id: u64, message: String) -> (fx: Vec<WindowEffect>)
        ensures
            final(self).log_tabs@.wf(),
            applies(*old(self), BackendEvent::LogError { tab_id, message }, *final(self), fx@),
    {
        proof {
            use_type_invariant(&self.log_tabs);
        }
        self.log_tabs.push_line(tab_id, message);
        let ghost a = self.log_tabs@;
        self.log_tabs.set_active(tab_id);
        let ghost b = self.log_tabs@;
        self.log_tabs.set_loading_older(tab_id, false);
        assert(push_line_rel(old(self).log_tabs@, tab_id, message, a) && set_active_rel(a, tab_id, b)
            && loading_rel(b, tab_id, false, self.log_tabs@));
        assert(log_error_rel(old(self).log_tabs@, tab_id, message, self.log_tabs@));
        Vec::new()
    }

    /// Handles one event of the background worker; returns the effects the
    /// window asks for, in order.
    #[verifier::spinoff_prover]
    #[verifier::rlimit(40)]
    pub fn apply_event(&mut self, event: BackendEvent) -> (fx: Vec<WindowEffect>)
        ensures
            final(self).log_tabs@.wf(),
            applies(*old(self), event, *final(self), fx@),
    {
        proof {
            use_type_invariant(&self.log_tabs);
        }
        match event {
            BackendEvent::Connecting => {
                self.connecting = true;
                self.status_message = owned("Connecting...");
                Vec::new()
            },
            BackendEvent::Connected { context, namespace, contexts, namespaces, crd_targets } => {
                self.on_connected(context, namespace, contexts, namespaces, crd_targets)
            },
            BackendEvent::Snapshot { kind, snapshot } => self.on_snapshot(kind, snapshot),
            BackendEvent::YamlLoaded { name, yaml } => {
                self.detail.resource_name = name;
                self.detail.yaml = yaml;
                Vec::new()
            },
            BackendEvent::EventsLoaded { text } => {
                self.detail.events = text;
                Vec::new()
            },
            BackendEvent::MetricsLoaded { text } => {
                self.detail.metrics = text;
                Vec::new()
            },
            BackendEvent::ContainersLoaded { tab_id, pod_name, containers } => {
                self.on_containers(tab_id, pod_name, containers)
            },
            BackendEvent::LogLine { tab_id, line } => {
                self.log_tabs.push_line(tab_id, line);
                Vec::new()
            },
            BackendEvent::LogError { tab_id, message } => self.on_log_error(tab_id, message),
            BackendEvent::OlderLogsLoaded { tab_id, prepended, has_more } => {
                self.log_tabs.apply_older_logs(tab_id, prepended, has_more);
                Vec::new()
            },
            BackendEvent::ResourceDeleted { kind, name } => {
                let mut s = owned("Deleted ");
                s.append(kind.api_kind());
                s.append(" ");
                s.append(name.as_str());
                self.status_message = s;
                self.selected_row = None;
                self.detail.clear();
                self.delete_confirm = None;
                Vec::new()
            },
            BackendEvent::CronJobTriggered { name } => {
                self.status_message = message("Triggered CronJob ", name.as_str());
                refresh_list()
            },
            BackendEvent::CronJobSuspendChanged { name, suspended } => {
                let action = if suspended {
                    "Suspended"
                } else {
                    "Resumed"
                };
                let mut s = owned(action);
                s.append(" CronJob ");
                s.append(name.as_str());
                self.status_message = s;
                refresh_list()
            },
            BackendEvent::DeploymentRestarted { name } => {
                self.status_message = message("Restarted deployment ", name.as_str());
                refresh_list()
            },
            BackendEvent::StatefulSetRestarted { name } => {
                self.status_message = message("Restarted statefulset ", name.as_str());
                refresh_list()
            },
            BackendEvent::WorkloadScaled { kind, name, replicas } => {
                let mut s = owned("Scaled ");
                s.append(kind.api_kind());
                s.append(" ");
                s.append(name.as_str());
                s.append(" to ");
                crate::text::push_signed(&mut s, replicas as i64);
                s.append(" replicas");
                self.status_message = s;
                self.scale_dialog = None;
                refresh_list()
            },
            BackendEvent::YamlApplied { resources } => {
                self.apply_yaml_open = false;
                let joined = join_texts(resources.as_slice(), ", ");
                self.status_message = message("Applied: ", joined.as_str());
                refresh_list()
            },
            BackendEvent::DashboardLoaded { dashboard } => {
                self.dashboard = Some(dashboard);
                Vec::new()
            },
            BackendEvent::PortForwardStarted { info } => {
                let mut kept = retain_forwards(&self.port_forwards, info.id);
                let mut s = owned("Port-forward ");
                s.append(info.label.as_str());
                s.append(" → localhost:");
                push_decimal(&mut s, info.local_port as u64);
                kept.push(info);
                self.port_forwards = kept;
                self.status_message = s;
                Vec::new()
            },
            BackendEvent::PortForwardStopped { id } => {
                self.port_forwards = retain_forwards(&self.port_forwards, id);
                Vec::new()
            },
            BackendEvent::Error(msg) => {
                self.error_message = Some(msg);
                self.connecting = false;
                Vec::new()
            },
            BackendEvent::Busy | BackendEvent::ExclusiveDone => Vec::new(),
        }
    }
}

proof fn lemma_snapshot_update(v: Seq<(ResourceKind, ResourceSnapshot)>, i: int, e: (ResourceKind, ResourceSnapshot))
    requires
        0 <= i < v.len(),
        v[i].0 == e.0,
        forall|j: int| 0 <= j < i ==> (#[trigger] v[j]).0 != e.0,
    ensures
        snapshot_for(v.update(i, e), e.0) == Some(e.1),
        forall|k: ResourceKind| k != e.0 ==> #[trigger] snapshot_for(v.update(i, e), k) == snapshot_for(v, k),
    decreases i,
{
    let u = v.update(i, e);
    if i > 0 {
        assert(u.drop_first() =~= v.drop_first().update(i - 1, e));
        assert forall|j: int| 0 <= j < i - 1 implies (#[trigger] v.drop_first()[j]).0 != e.0 by {
            assert(v.drop_first()[j] == v[j + 1]);
        }
        lemma_snapshot_update(v.drop_first(), i - 1, e);
    } else {
        assert(u.drop_first() =~= v.drop_first());
    }
    assert forall|k: ResourceKind| k != e.0 implies #[trigger] snapshot_for(u, k) == snapshot_for(v, k) by {
        if i > 0 {
            assert(u.drop_first() =~= v.drop_first().update(i - 1, e));
            assert(u[0] == v[0]);
            if v[0].0 != k {
                assert(snapshot_for(u, k) == snapshot_for(u.drop_first(), k));
                assert(snapshot_for(v, k) == snapshot_for(v.drop_first(), k));
                assert(snapshot_for(v.drop_first().update(i - 1, e), k) == snapshot_for(v.drop_first(), k));
            }
        } else {
            assert(u.drop_first() =~= v.drop_first());
            assert(u[0] == e);
            assert(snapshot_for(u, k) == snapshot_for(u.drop_first(), k));
            assert(snapshot_for(v, k) == snapshot_for(v.drop_first(), k));
        }
    }
}

proof fn lemma_snapshot_push(v: Seq<(ResourceKind, ResourceSnapshot)>, e: (ResourceKind, ResourceSnapshot))
    requires
        forall|j: int| 0 <= j < v.len() ==> (#[trigger] v[j]).0 != e.0,
    ensures
        snapshot_for(v.push(e), e.0) == Some(e.1),
        forall|k: ResourceKind| k != e.0 ==> #[trigger] snapshot_for(v.push(e), k) == snapshot_for(v, k),
    decreases v.len(),
{
    let u = v.push(e);
    if v.len() > 0 {
        assert(u.drop_first() =~= v.drop_first().push(e));
        assert forall|j: int| 0 <= j < v.len() - 1 implies (#[trigger] v.drop_first()[j]).0 != e.0 by {
            assert(v.drop_first()[j] == v[j + 1]);
        }
        lemma_snapshot_push(v.drop_first(), e);
    } else {
        assert(u.drop_first() =~= Seq::<(ResourceKind, ResourceSnapshot)>::empty());
    }
    assert forall|k: ResourceKind| k != e.0 implies #[trigger] snapshot_for(u, k) == snapshot_for(v, k) by {
        if v.len() > 0 {
            assert(u.drop_first() =~= v.drop_first().push(e));
            assert(u[0] == v[0]);
            if v[0].0 != k {
                assert(snapshot_for(u, k) == snapshot_for(u.drop_first(), k));
                assert(snapshot_for(v, k) == snapshot_for(v.drop_first(), k));
                assert(snapshot_for(v.drop_first().push(e), k) == snapshot_for(v.drop_first(), k));
            }
        } else {
            assert(u.drop_first() =~= Seq::<(ResourceKind, ResourceSnapshot)>::empty());
            assert(u[0] == e);
            assert(snapshot_for(u, k) == snapshot_for(u.drop_first(), k));
        }
    }
}

// ---------------------------------------------------------------------------
// Log tabs driven from the window
// ---------------------------------------------------------------------------

/// Opening a pod's log tab from the window: the tab opened (or focused)
/// under the active context and namespace, then its containers and lines
/// asked for and the selection saved.
pub open spec fn open_logs_applies(
    old: WindowModel,
    pod_name: String,
    container: Option<String>,
    new: WindowModel,
    fx: Seq<WindowEffect>,
) -> bool {
    &&& new == WindowModel { log_tabs: new.log_tabs, ..old }
    &&& exists|id: u64|
        #![trigger open_tab_rel(old.log_tabs@, old.active_context@, pod_name@, old.active_namespace@, container, new.log_tabs@, id)]
        open_tab_rel(
            old.log_tabs@,
            old.active_context@,
            pod_name@,
            old.active_namespace@,
            container,
            new.log_tabs@,
            id,
        ) && fx == seq![
            WindowEffect::Send(BackendCommand::FetchContainers { tab_id: Some(id), pod_name: pod_name }),
            WindowEffect::Send(
                BackendCommand::StartLogs { tab_id: id, pod_name: pod_name, container: container },
            ),
            persist_settings_effect(old),
        ]
}

/// Whether opening the logs of this pod adds a tab: the window has none for
/// it in the active context and namespace.
pub open spec fn opens_new_tab(m: WindowModel, pod_name: Seq<char>) -> bool {
    crate::log_tabs::pod_tab_index(m.log_tabs@.tabs, m.active_context@, pod_name, m.active_namespace@) is None
}

/// Opening the logs of the selection: only pods have logs; the selected
/// pod's tab is opened when a row is selected.
pub open spec fn logs_for_selection_applies(old: WindowModel, new: WindowModel, fx: Seq<WindowEffect>) -> bool {
    if old.selected_kind != ResourceKind::Pod {
        &&& new == WindowModel { error_message: new.error_message, ..old }
        &&& new.error_message matches Some(m) && m@ == "Logs are only available for pods."@
        &&& fx.len() == 0
    } else {
        match selected_name_string(old) {
            Some(name) => open_logs_applies(old, name, None, new, fx),
            None => new == old && fx.len() == 0,
        }
    }
}

/// The command that saves the selected kind and container.
pub open spec fn persist_settings_effect(m: WindowModel) -> WindowEffect {
    WindowEffect::Send(
        BackendCommand::PersistSettings { kind: m.selected_kind, container: m.selected_container },
    )
}

impl WindowModel {
    pub(crate) fn persist_settings(&self) -> (r: WindowEffect)
        ensures
            r == persist_settings_effect(*self),
    {
        WindowEffect::Send(
            BackendCommand::PersistSettings {
                kind: self.selected_kind,
                container: clone_opt(&self.selected_container),
            },
        )
    }

    /// The rows of the selected kind.
    pub fn current_rows(&self) -> (r: &[ResourceRow])
        ensures
            r@ == current_rows(*self),
    {
        match self.find_snapshot(self.selected_kind) {
            Some(i) => {
                proof {
                    lemma_snapshot_found(self.snapshots@, i as int, self.selected_kind);
                }
                self.snapshots[i].1.rows.as_slice()
            },
            None => {
                proof {
                    lemma_snapshot_absent(self.snapshots@, self.selected_kind);
                }
                let empty: &[ResourceRow] = &[];
                assert(empty@ =~= Seq::<ResourceRow>::empty());
                empty
            },
        }
    }

    /// The name of the selected row.
    pub fn selected_name(&self) -> (r: Option<String>)
        ensures
            r == selected_name_string(*self),
            match r {
                Some(n) => selected_name_of(*self) == Some(n@),
                None => selected_name_of(*self) is None,
            },
    {
        let rows = self.current_rows();
        match self.selected_row {
            Some(i) => if i < rows.len() {
                Some(rows[i].name.clone())
            } else {
                None
            },
            None => None,
        }
    }

    /// Opens (or focuses) the log tab of a pod of the active context and
    /// namespace, then asks for its containers and its lines.
    pub fn open_pod_logs(&mut self, pod_name: String, container: Option<String>) -> (fx: Vec<
        WindowEffect,
    >)
        requires
            opens_new_tab(*old(self), pod_name@) ==> old(self).log_tabs@.next_id < u64::MAX,
        ensures
            final(self).log_tabs@.wf(),
            open_logs_applies(*old(self), pod_name, container, *final(self), fx@),
    {
        proof {
            use_type_invariant(&self.log_tabs);
        }
        let tab_id = self.log_tabs.open_tab(
            self.active_context.clone(),
            pod_name.clone(),
            self.active_namespace.clone(),
            clone_opt(&container),
        );
        let mut fx: Vec<WindowEffect> = Vec::new();
        fx.push(
            WindowEffect::Send(
                BackendCommand::FetchContainers { tab_id: Some(tab_id), pod_name: pod_name.clone() },
            ),
        );
        fx.push(WindowEffect::Send(BackendCommand::StartLogs { tab_id, pod_name, container }));
        fx.push(self.persist_settings());
        assert(open_tab_rel(
            old(self).log_tabs@,
            old(self).active_context@,
            pod_name@,
            old(self).active_namespace@,
            container,
            self.log_tabs@,
            tab_id,
        ));
        assert(fx@ =~= seq![
            WindowEffect::Send(BackendCommand::FetchContainers { tab_id: Some(tab_id), pod_name: pod_name }),
            WindowEffect::Send(
                BackendCommand::StartLogs { tab_id: tab_id, pod_name: pod_name, container: container },
            ),
            persist_settings_effect(*old(self)),
        ]);
        fx
    }

    /// Asks for an older chunk of a tab's log, when the tab belongs to the
    /// active context, is not loading one already, and may have more.
    pub fn fetch_older_logs(&mut self, tab_id: u64, timestamps: bool) -> (fx: Vec<WindowEffect>)
        ensures
            final(self).log_tabs@.wf(),
            *final(self) == (WindowModel { log_tabs: final(self).log_tabs, ..*old(self) }),
            older_logs_applies(*old(self), tab_id, timestamps, *final(self), fx@),
    {
        proof {
            use_type_invariant(&self.log_tabs);
        }
        let mut fx: Vec<WindowEffect> = Vec::new();
        let (pod_name, container, tail_loaded) = match self.log_tabs.tab(tab_id) {
            Some(t) => {
                if !crate::text::str_eq(t.context.as_str(), self.active_context.as_str())
                    || t.loading_older || !t.has_more_older {
                    return fx;
                }
                (t.pod_name.clone(), clone_opt(&t.container), t.line_count())
            },
            None => {
                return fx;
            },
        };
        self.log_tabs.set_loading_older(tab_id, true);
        fx.push(
            WindowEffect::Send(
                BackendCommand::FetchOlderLogs { tab_id, pod_name, container, timestamps, tail_loaded },
            ),
        );
        fx
    }

    /// Closes a log tab; the worker stops its stream when the tab was open.
    pub fn close_log_tab(&mut self, tab_id: u64) -> (fx: Vec<WindowEffect>)
        ensures
            final(self).log_tabs@.wf(),
            *final(self) == (WindowModel { log_tabs: final(self).log_tabs, ..*old(self) }),
            exists|r: Option<u64>|
                #![trigger close_tab_rel(old(self).log_tabs@, tab_id, final(self).log_tabs@, r)]
                close_tab_rel(old(self).log_tabs@, tab_id, final(self).log_tabs@, r) && fx@ == if r
                    is Some {
                    seq![WindowEffect::Send(BackendCommand::CloseLog { tab_id })]
                } else {
                    Seq::empty()
                },
    {
        proof {
            use_type_invariant(&self.log_tabs);
        }
        let r = self.log_tabs.close_tab(tab_id);
        let mut fx: Vec<WindowEffect> = Vec::new();
        if r.is_some() {
            fx.push(WindowEffect::Send(BackendCommand::CloseLog { tab_id }));
        }
        assert(close_tab_rel(old(self).log_tabs@, tab_id, self.log_tabs@, r));
        fx
    }

    /// Restarts the stream of the focused tab when it belongs to the active
    /// context, optionally emptying it first.
    pub fn restart_active_log_stream(&mut self, clear_lines: bool) -> (fx: Vec<WindowEffect>)
        ensures
            final(self).log_tabs@.wf(),
            *final(self) == (WindowModel { log_tabs: final(self).log_tabs, ..*old(self) }),
            restart_applies(*old(self), clear_lines, *final(self), fx@),
    {
        proof {
            use_type_invariant(&self.log_tabs);
        }
        let mut fx: Vec<WindowEffect> = Vec::new();
        let (tab_id, pod_name, container) = match self.log_tabs.active_tab() {
            Some(t) => {
                if !crate::text::str_eq(t.context.as_str(), self.active_context.as_str()) {
                    return fx;
                }
                (t.id, t.pod_name.clone(), clone_opt(&t.container))
            },
            None => {
                return fx;
            },
        };
        if clear_lines {
            self.log_tabs.clear_lines(tab_id);
        }
        fx.push(WindowEffect::Send(BackendCommand::StartLogs { tab_id, pod_name, container }));
        fx
    }

    /// Opens the logs of the selected pod; other kinds have no logs.
    pub fn start_logs_for_selection(&mut self) -> (fx: Vec<WindowEffect>)
        requires
            old(self).log_tabs@.next_id < u64::MAX,
        ensures
            final(self).log_tabs@.wf(),
            logs_for_selection_applies(*old(self), *final(self), fx@),
    {
        proof {
            use_type_invariant(&self.log_tabs);
        }
        if self.selected_kind != ResourceKind::Pod {
            self.error_message = Some(owned("Logs are only available for pods."));
            return Vec::new();
        }
        match self.selected_name() {
            Some(name) => self.open_pod_logs(name, None),
            None => Vec::new(),
        }
    }
}

/// What asking for an older chunk of a tab's log does: asked for when the
/// tab belongs to the active context, is not loading one already, and may
/// have more; the tab is then marked loading.
pub open spec fn older_logs_applies(
    old: WindowModel,
    tab_id: u64,
    timestamps: bool,
    new: WindowModel,
    fx: Seq<WindowEffect>,
) -> bool {
    &&& new == (WindowModel { log_tabs: new.log_tabs, ..old })
    &&& match tab_index(old.log_tabs@.tabs, tab_id) {
        Some(i) => {
            let t = old.log_tabs@.tabs[i];
            if t.context@ == old.active_context@ && !t.loading_older
                && t.has_more_older {
                &&& loading_rel(old.log_tabs@, tab_id, true, new.log_tabs@)
                &&& fx == seq![
                    WindowEffect::Send(
                        BackendCommand::FetchOlderLogs {
                            tab_id,
                            pod_name: t.pod_name,
                            container: t.container,
                            timestamps,
                            tail_loaded: t.lines@.len() as usize,
                        },
                    ),
                ]
            } else {
                new.log_tabs@ == old.log_tabs@ && fx.len() == 0
            }
        },
        None => new.log_tabs@ == old.log_tabs@ && fx.len() == 0,
    }
}

/// What restarting the focused tab's stream does: when the tab belongs to
/// the active context, it is emptied first if asked, and its stream started
/// again.
pub open spec fn restart_applies(old: WindowModel, clear_lines: bool, new: WindowModel, fx: Seq<WindowEffect>) -> bool {
    &&& new == (WindowModel { log_tabs: new.log_tabs, ..old })
    &&& match old.log_tabs@.active {
        Some(a) => {
            let t = old.log_tabs@.tabs[tab_index(old.log_tabs@.tabs, a)->0];
            if t.context@ == old.active_context@ {
                &&& (if clear_lines {
                    cleared_rel(old.log_tabs@, a, new.log_tabs@)
                } else {
                    new.log_tabs@ == old.log_tabs@
                })
                &&& fx == seq![
                    WindowEffect::Send(
                        BackendCommand::StartLogs {
                            tab_id: a,
                            pod_name: t.pod_name,
                            container: t.container,
                        },
                    ),
                ]
            } else {
                new.log_tabs@ == old.log_tabs@ && fx.len() == 0
            }
        },
        None => new.log_tabs@ == old.log_tabs@ && fx.len() == 0,
    }
}

proof fn lemma_snapshot_found(v: Seq<(ResourceKind, ResourceSnapshot)>, i: int, k: ResourceKind)
    requires
        0 <= i < v.len(),
        v[i].0 == k,
        forall|j: int| 0 <= j < i ==> (#[trigger] v[j]).0 != k,
    ensures
        snapshot_for(v, k) == Some(v[i].1),
    decreases i,
{
    if i > 0 {
        assert forall|j: int| 0 <= j < i - 1 implies (#[trigger] v.drop_first()[j]).0 != k by {
            assert(v.drop_first()[j] == v[j + 1]);
        }
        lemma_snapshot_found(v.drop_first(), i - 1, k);
    }
}

proof fn lemma_snapshot_absent(v: Seq<(ResourceKind, ResourceSnapshot)>, k: ResourceKind)
    requires
        forall|j: int| 0 <= j < v.len() ==> (#[trigger] v[j]).0 != k,
    ensures
        snapshot_for(v, k) is None,
    decreases v.len(),
{
    if v.len() > 0 {
        assert forall|j: int| 0 <= j < v.len() - 1 implies (#[trigger] v.drop_first()[j]).0 != k by {
            assert(v.drop_first()[j] == v[j + 1]);
        }
        lemma_snapshot_absent(v.drop_first(), k);
    }
}

// ---------------------------------------------------------------------------
// Scale dialog
// ---------------------------------------------------------------------------

/// The text after the first `/` and before any second one (`split('/').nth(1)`).
pub open spec fn second_field(s: Seq<char>) -> Option<Seq<char>> {
    match crate::text::next_occurrence(s, seq!['/'], 0) {
        Some(i) => {
            let rest = s.skip(i + 1);
            Some(
                match crate::text::next_occurrence(rest, seq!['/'], 0) {
                    Some(j) => rest.take(j),
                    None => rest,
                },
            )
        },
        None => None,
    }
}

/// The desired replica count shown in a `ready/desired` column.
pub open spec fn desired_replicas(ready: Seq<char>) -> Option<u32> {
    match second_field(ready) {
        Some(f) => crate::text::parse_u32_spec(crate::text::trim(f)),
        None => None,
    }
}

/// Reading the desired count back from a `ready/total` text as the Ready
/// column shows it gives the total, when the total is not negative.
pub proof fn law_ready_string_round_trip(ready: i32, total: i32)
    requires
        total >= 0,
    ensures
        desired_replicas(
            crate::text::signed_decimal(ready as int) + "/"@ + crate::text::signed_decimal(total as int),
        ) == Some(total as u32),
{
    reveal_strlit("/");
    let slash = seq!['/'];
    assert("/"@ =~= slash);
    let a = crate::text::signed_decimal(ready as int);
    let b = crate::text::decimal(total as nat);
    let s = a + slash + b;
    crate::text::lemma_decimal_digits((if ready < 0 { -(ready as int) } else { ready as int }) as nat);
    crate::text::lemma_decimal_digits(total as nat);
    // No slash in either number.
    assert forall|q: int| 0 <= q < a.len() implies a[q] != '/' by {
        if ready < 0 {
            if q > 0 {
                assert(a[q] == crate::text::decimal((-ready) as nat)[q - 1]);
                assert(crate::text::is_digit(crate::text::decimal((-ready) as nat)[q - 1]));
            }
        } else {
            assert(crate::text::is_digit(a[q]));
        }
    }
    assert forall|q: int| 0 <= q < b.len() implies b[q] != '/' by {
        assert(crate::text::is_digit(b[q]));
    }
    // The first slash is the one between them.
    let k = a.len() as int;
    assert(crate::text::occurs_at(s, slash, k)) by {
        assert(s.subrange(k, k + 1) =~= slash);
    }
    crate::text::lemma_next_occurrence(s, slash, 0);
    match crate::text::next_occurrence(s, slash, 0) {
        Some(p) => {
            if p < k {
                assert(s.subrange(p, p + 1)[0] == s[p]);
                assert(s[p] == a[p]);
            }
            assert(p == k);
        },
        None => {},
    }
    let rest = s.skip(k + 1);
    assert(rest =~= b);
    crate::text::lemma_next_occurrence(rest, slash, 0);
    match crate::text::next_occurrence(rest, slash, 0) {
        Some(p) => {
            assert(rest.subrange(p, p + 1)[0] == rest[p]);
        },
        None => {},
    }
    assert(second_field(s) == Some(b));
    // A run of digits is its own trim.
    assert(!crate::text::is_whitespace(b[0]));
    assert(!crate::text::is_whitespace(b.last()));
    assert(crate::text::leading_ws(b) == 0);
    assert(crate::text::trailing_ws(b) == 0);
    assert(b.skip(0) =~= b);
    assert(b.take(b.len() as int) =~= b);
    assert(crate::text::trim(b) == b);
    assert(b[0] != '+');
    assert(crate::text::parse_int_value(b, false) == Some(total as int));
}

/// Reads the desired replica count from a `ready/desired` column.
pub fn parse_desired_replicas(ready: &str) -> (r: Option<u32>)
    ensures
        r == desired_replicas(ready@),
{
    let cs = crate::text::chars_of(ready);
    let slash: Vec<char> = vec!['/'];
    assert(slash@ =~= seq!['/']);
    let i = match crate::text::find_from(&cs, &slash, 0) {
        Some(i) => i,
        None => return None,
    };
    proof {
        crate::text::lemma_next_occurrence(cs@, slash@, 0);
        assert(crate::text::next_occurrence(cs@, slash@, 0) == Some(i as int));
    }
    assert(i < cs.len());
    let mut rest: Vec<char> = Vec::new();
    let mut k: usize = i + 1;
    while k < cs.len()
        invariant
            i + 1 <= k <= cs@.len(),
            rest@ == cs@.subrange(i + 1, k as int),
        decreases cs@.len() - k,
    {
        rest.push(cs[k]);
        assert(rest@ =~= cs@.subrange(i + 1, k + 1));
        k = k + 1;
    }
    assert(rest@ =~= cs@.skip(i + 1));
    let field: Vec<char> = match crate::text::find_from(&rest, &slash, 0) {
        Some(j) => {
            proof {
                crate::text::lemma_next_occurrence(rest@, slash@, 0);
                assert(crate::text::next_occurrence(rest@, slash@, 0) == Some(j as int));
            }
            let mut f: Vec<char> = Vec::new();
            let mut m: usize = 0;
            while m < j
                invariant
                    m <= j <= rest@.len(),
                    f@ == rest@.take(m as int),
                decreases j - m,
            {
                f.push(rest[m]);
                assert(f@ =~= rest@.take(m + 1));
                m = m + 1;
            }
            f
        },
        None => rest,
    };
    let t = crate::text::trim_chars(&field);
    crate::text::parse_u32(&t)
}

// ---------------------------------------------------------------------------
// Command palette
// ---------------------------------------------------------------------------

#[derive(Clone, Copy, Debug, PartialEq, Eq, Structural)]
pub enum PaletteCommand {
    Refresh,
    Describe,
    Logs,
    Events,
    Metrics,
    Delete,
    CopyExec,
    OpenTerminal,
    OpenEmbeddedShell,
    CopyPortForward,
    StartPortForward,
    ToggleTheme,
    ApplyYaml,
    ClusterSettings,
}

/// An entry of the command palette.
pub struct PaletteAction {
    pub label: String,
    pub command: PaletteCommand,
}

/// The palette's entries: the common ones, then those for pods, then the
/// port-forward ones for other kinds that support forwarding.
pub open spec fn palette_spec(theme: crate::panels::ThemeMode, kind: ResourceKind) -> Seq<(Seq<char>, PaletteCommand)> {
    let common = seq![
        ("Refresh watches"@, PaletteCommand::Refresh),
        ("Describe selected"@, PaletteCommand::Describe),
        ("Show events"@, PaletteCommand::Events),
        ("Show metrics"@, PaletteCommand::Metrics),
        ("Delete selected"@, PaletteCommand::Delete),
        ("Apply YAML"@, PaletteCommand::ApplyYaml),
        (if theme == crate::panels::ThemeMode::Dark {
            "Switch to light theme"@
        } else {
            "Switch to dark theme"@
        }, PaletteCommand::ToggleTheme),
        ("Cluster / kubeconfig settings"@, PaletteCommand::ClusterSettings),
    ];
    let forward = seq![
        ("Copy port-forward command"@, PaletteCommand::CopyPortForward),
        ("Start port-forward"@, PaletteCommand::StartPortForward),
    ];
    if kind == ResourceKind::Pod {
        common + seq![
            ("Stream pod logs"@, PaletteCommand::Logs),
            ("Copy kubectl exec"@, PaletteCommand::CopyExec),
            ("Open terminal (kubectl exec)"@, PaletteCommand::OpenTerminal),
        ] + forward
    } else if kind == ResourceKind::Service {
        common + forward
    } else {
        common
    }
}

pub open spec fn palette_view(v: Seq<PaletteAction>) -> Seq<(Seq<char>, PaletteCommand)> {
    v.map_values(|a: PaletteAction| (a.label@, a.command))
}

fn push_action(v: &mut Vec<PaletteAction>, label: &str, command: PaletteCommand)
    ensures
        palette_view(final(v)@) == palette_view(old(v)@).push((label@, command)),
{
    v.push(PaletteAction { label: owned(label), command });
    assert(palette_view(v@) =~= palette_view(old(v)@).push((label@, command)));
}

/// The command palette's entries for the current theme and kind.
pub fn palette_actions(theme: crate::panels::ThemeMode, kind: ResourceKind) -> (r: Vec<PaletteAction>)
    ensures
        palette_view(r@) == palette_spec(theme, kind),
{
    let mut v: Vec<PaletteAction> = Vec::new();
    assert(palette_view(v@) =~= Seq::empty());
    push_action(&mut v, "Refresh watches", PaletteCommand::Refresh);
    push_action(&mut v, "Describe selected", PaletteCommand::Describe);
    push_action(&mut v, "Show events", PaletteCommand::Events);
    push_action(&mut v, "Show metrics", PaletteCommand::Metrics);
    push_action(&mut v, "Delete selected", PaletteCommand::Delete);
    push_action(&mut v, "Apply YAML", PaletteCommand::ApplyYaml);
    let theme_label = match theme {
        crate::panels::ThemeMode::Dark => "Switch to light theme",
        crate::panels::ThemeMode::Light => "Switch to dark theme",
    };
    push_action(&mut v, theme_label, PaletteCommand::ToggleTheme);
    push_action(&mut v, "Cluster / kubeconfig settings", PaletteCommand::ClusterSettings);
    match kind {
        ResourceKind::Pod => {
            push_action(&mut v, "Stream pod logs", PaletteCommand::Logs);
            push_action(&mut v, "Copy kubectl exec", PaletteCommand::CopyExec);
            push_action(&mut v, "Open terminal (kubectl exec)", PaletteCommand::OpenTerminal);
            push_action(&mut v, "Copy port-forward command", PaletteCommand::CopyPortForward);
            push_action(&mut v, "Start port-forward", PaletteCommand::StartPortForward);
        },
        ResourceKind::Service => {
            push_action(&mut v, "Copy port-forward command", PaletteCommand::CopyPortForward);
            push_action(&mut v, "Start port-forward", PaletteCommand::StartPortForward);
        },
        _ => {},
    }
    assert(palette_view(v@) =~= palette_spec(theme, kind));
    v
}

/// Whether a palette entry passes the typed query (case-insensitive; an
/// empty query passes everything).
pub fn palette_entry_matches(label: &str, query: &str) -> (r: bool)
    ensures
        r == (query@.len() == 0 || crate::text::contains_seq(
            crate::text::lowercase(label@),
            crate::text::lowercase(query@),
        )),
{
    let q = crate::text::to_lowercase(query);
    let qn = crate::text::chars_of(query).len();
    if qn == 0 {
        return true;
    }
    let l = crate::text::to_lowercase(label);
    crate::text::str_contains(l.as_str(), q.as_str())
}

} // verus!
