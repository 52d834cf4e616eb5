//! The messages between the window and the background worker, and the
//! worker's own bookkeeping decisions.
use vstd::prelude::*;

use crate::containers::ContainerInfo;
use crate::dashboard::ClusterDashboard;
use crate::resources::{all_kinds, kind_api_kind, CrdTarget, ResourceKind};
use crate::store::{snapshot_rows, ResourceSnapshot, StoreState};
use crate::text::{decimal, owned, push_decimal};

verus! {

/// Commands sent from the window to the background worker.
#[derive(Debug)]
pub enum BackendCommand {
    ConnectDefault,
    SwitchContext(String),
    SetNamespace(String),
    SetActiveKind(ResourceKind),
    SetCrdTarget(Option<CrdTarget>),
    RefreshWatch,
    RefreshList,
    FetchYaml { kind: ResourceKind, name: String },
    FetchEvents { kind: ResourceKind, name: String },
    FetchContainers { tab_id: Option<u64>, pod_name: String },
    FetchMetrics,
    FetchOlderLogs {
        tab_id: u64,
        pod_name: String,
        container: Option<String>,
        timestamps: bool,
        tail_loaded: usize,
    },
    DeleteResource { kind: ResourceKind, name: String, force: bool },
    TriggerCronJob { name: String },
    SetCronjobSuspended { name: String, suspend: bool },
    RestartDeployment { name: String },
    RestartStatefulSet { name: String },
    ScaleDeployment { name: String, replicas: i32 },
    ScaleStatefulSet { name: String, replicas: i32 },
    ApplyYaml { yaml: String },
    Reconnect,
    FetchDashboard,
    StartLogs { tab_id: u64, pod_name: String, container: Option<String> },
    CloseLog { tab_id: u64 },
    CloseAllLogs,
    PersistSettings { kind: ResourceKind, container: Option<String> },
    StartPortForward { kind: ResourceKind, name: String, local_port: u16, remote_port: u16 },
    StopPortForward { id: u64 },
    Shutdown,
}

/// A running port forward as shown to the user.
#[derive(Debug, Clone)]
pub struct PortForwardInfo {
    pub id: u64,
    pub label: String,
    pub local_port: u16,
    pub remote_port: u16,
}

/// Events sent from the background worker to the window.
#[derive(Debug, Clone)]
pub enum BackendEvent {
    Connecting,
    Connected {
        context: String,
        namespace: String,
        contexts: Vec<String>,
        namespaces: Vec<String>,
        crd_targets: Vec<CrdTarget>,
    },
    Snapshot { kind: ResourceKind, snapshot: ResourceSnapshot },
    YamlLoaded { name: String, yaml: String },
    EventsLoaded { text: String },
    ContainersLoaded { tab_id: Option<u64>, pod_name: String, containers: Vec<ContainerInfo> },
    MetricsLoaded { text: String },
    LogLine { tab_id: u64, line: String },
    LogError { tab_id: u64, message: String },
    OlderLogsLoaded { tab_id: u64, prepended: Vec<String>, has_more: bool },
    ResourceDeleted { kind: ResourceKind, name: String },
    CronJobTriggered { name: String },
    CronJobSuspendChanged { name: String, suspended: bool },
    DeploymentRestarted { name: String },
    StatefulSetRestarted { name: String },
    WorkloadScaled { kind: ResourceKind, name: String, replicas: i32 },
    YamlApplied { resources: Vec<String> },
    DashboardLoaded { dashboard: ClusterDashboard },
    PortForwardStarted { info: PortForwardInfo },
    PortForwardStopped { id: u64 },
    /// An exclusive operation (connect, switch, refresh) is already running.
    Busy,
    /// An exclusive operation finished without a full reconnect.
    ExclusiveDone,
    Error(String),
}

// ---------------------------------------------------------------------------
// Exclusive operations
// ---------------------------------------------------------------------------

/// A request for an exclusive operation is refused while the slot is held
/// by one that has not finished.
pub open spec fn begin_refused(held: bool, finished: bool) -> bool {
    held && !finished
}

/// Whether an exclusive operation (connect, context switch, watch refresh)
/// holds the worker.
pub struct ExclusiveSlot {
    pub held: bool,
}

impl ExclusiveSlot {
    pub fn new() -> (r: Self)
        ensures
            !r.held,
    {
        ExclusiveSlot { held: false }
    }

    /// Asks to start an exclusive operation; `finished` tells whether the
    /// one holding the slot has ended.  Refused (answered `Busy`, the slot
    /// left as it is) while another one runs; otherwise the ended one is let
    /// go, the slot is left free for the new one to `take`, and the answer is
    /// `None`.
    pub fn try_begin(&mut self, finished: bool) -> (refusal: Option<BackendEvent>)
        ensures
            begin_refused(old(self).held, finished) ==> (refusal matches Some(BackendEvent::Busy))
                && final(self).held == old(self).held,
            !begin_refused(old(self).held, finished) ==> refusal is None && !final(self).held,
    {
        if self.held && !finished {
            return Some(BackendEvent::Busy);
        }
        self.held = false;
        None
    }

    /// A started exclusive operation takes the slot.
    pub fn take(&mut self)
        ensures
            final(self).held,
    {
        self.held = true;
    }

    /// The exclusive operation reported its outcome.
    pub fn finish(&mut self)
        ensures
            !final(self).held,
    {
        self.held = false;
    }
}

/// While an exclusive operation runs, every other request is answered
/// `Busy`; once it has finished or reported, the next one starts.
pub proof fn law_exclusive_busy(finished: bool)
    ensures
        begin_refused(true, false),
        !begin_refused(true, true),
        !begin_refused(false, finished),
{
}

// ---------------------------------------------------------------------------
// Snapshots pushed to the window
// ---------------------------------------------------------------------------

/// Kinds whose rows come from watches and are pushed on every tick; Helm
/// releases and custom resources are listed on demand instead.
pub open spec fn pushed_kind(k: ResourceKind) -> bool {
    k != ResourceKind::HelmRelease && k != ResourceKind::Crd
}

/// The pushed kinds, in the order of the kind list.
pub open spec fn pushed_kinds(ks: Seq<ResourceKind>) -> Seq<ResourceKind>
    decreases ks.len(),
{
    if ks.len() == 0 {
        ks
    } else {
        let r = pushed_kinds(ks.drop_last());
        if pushed_kind(ks.last()) {
            r.push(ks.last())
        } else {
            r
        }
    }
}

/// `e` carries the store's current snapshot of `kind`.
pub open spec fn snapshot_event_of(e: BackendEvent, kind: ResourceKind, store: crate::store::StoreView) -> bool {
    match e {
        BackendEvent::Snapshot { kind: k, snapshot } => {
            &&& k == kind
            &&& crate::resources::rows_view(snapshot.rows@) == snapshot_rows(store, kind)
            &&& snapshot.revision == store.revision
        },
        _ => false,
    }
}

/// One snapshot event for every watched kind, in the order of the kind list.
pub fn push_all_snapshots(store: &StoreState) -> (r: Vec<BackendEvent>)
    requires
        store.wf(),
    ensures
        r@.len() == pushed_kinds(all_kinds()).len(),
        forall|i: int|
            0 <= i < r@.len() ==> snapshot_event_of(#[trigger] r@[i], pushed_kinds(all_kinds())[i], store@),
{
    let all = ResourceKind::all();
    let mut out: Vec<BackendEvent> = Vec::new();
    let mut i: usize = 0;
    assert(all@.take(0) =~= Seq::<ResourceKind>::empty());
    while i < all.len()
        invariant
            i <= all@.len(),
            all@ == all_kinds(),
            store.wf(),
            out@.len() == pushed_kinds(all@.take(i as int)).len(),
            forall|j: int|
                0 <= j < out@.len() ==> snapshot_event_of(
                    #[trigger] out@[j],
                    pushed_kinds(all@.take(i as int))[j],
                    store@,
                ),
        decreases all@.len() - i,
    {
        assert(all@.take(i + 1).drop_last() =~= all@.take(i as int));
        let kind = all[i];
        match kind {
            ResourceKind::HelmRelease | ResourceKind::Crd => {},
            _ => {
                let snapshot = store.snapshot(kind);
                out.push(BackendEvent::Snapshot { kind, snapshot });
            },
        }
        i = i + 1;
    }
    assert(all@.take(all@.len() as int) =~= all@);
    out
}

// ---------------------------------------------------------------------------
// Port forwards
// ---------------------------------------------------------------------------

/// `<Kind>/<name>:<remote port>`.
pub open spec fn forward_label(kind: ResourceKind, name: Seq<char>, remote_port: u16) -> Seq<char> {
    kind_api_kind(kind) + "/"@ + name + ":"@ + decimal(remote_port as nat)
}

/// Describes a started port forward.
pub fn port_forward_info(id: u64, kind: ResourceKind, name: &str, local_port: u16, remote_port: u16) -> (r:
    PortForwardInfo)
    ensures
        r.id == id,
        r.label@ == forward_label(kind, name@, remote_port),
        r.local_port == local_port,
        r.remote_port == remote_port,
{
    let mut label = owned(kind.api_kind());
    label.append("/");
    label.append(name);
    label.append(":");
    push_decimal(&mut label, remote_port as u64);
    PortForwardInfo { id, label, local_port, remote_port }
}

/// The in-process forwarder is used when the settings ask for it and the
/// target is not a service (services go through kubectl).
pub fn use_native_forward(native_enabled: bool, kind: ResourceKind) -> (r: bool)
    ensures
        r == (native_enabled && kind != ResourceKind::Service),
{
    native_enabled && match kind {
        ResourceKind::Service => false,
        _ => true,
    }
}

/// Hands out the next port-forward id.
pub fn allocate_port_forward_id(next: &mut u64) -> (id: u64)
    requires
        *old(next) < u64::MAX,
    ensures
        id == *old(next),
        *final(next) == *old(next) + 1,
{
    let id = *next;
    *next = *next + 1;
    id
}

} // verus!
