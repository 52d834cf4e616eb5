//! Resource kinds, table rows and age formatting.
use vstd::prelude::*;

use crate::text::{decimal, fmt_u64, owned, push_signed, signed_decimal, str_eq};

verus! {

/// A row displayed in the resource table.
#[derive(Debug, Clone)]
pub struct ResourceRow {
    pub name: String,
    pub namespace: String,
    pub ready: String,
    pub status: String,
    pub restarts: String,
    pub age: String,
    pub controlled_by: String,
    pub cpu: String,
    pub memory: String,
    /// CronJob: cron schedule expression
    pub schedule: String,
    /// CronJob: time zone (e.g. UTC)
    pub timezone: String,
    /// CronJob: True when not suspended
    pub resumed: String,
    /// CronJob: active child jobs; Deployment: available replicas
    pub active: String,
    /// CronJob: time since last schedule
    pub last_schedule: String,
    /// Deployment: up-to-date replica count
    pub up_to_date: String,
    /// Job: CronJob owner name
    pub owner: String,
    /// Service: ClusterIP, NodePort, LoadBalancer, etc.
    pub service_type: String,
    /// Service: cluster IP (or `None` for headless)
    pub cluster_ip: String,
    /// Service: external / load-balancer addresses
    pub external_ip: String,
    /// Service: display e.g. `8080/TCP, 8180/TCP`
    pub ports: String,
    /// Service: numeric ports from spec (for port-forward)
    pub service_ports: Vec<u16>,
}

/// The text of every column of a row.
pub struct RowView {
    pub name: Seq<char>,
    pub namespace: Seq<char>,
    pub ready: Seq<char>,
    pub status: Seq<char>,
    pub restarts: Seq<char>,
    pub age: Seq<char>,
    pub controlled_by: Seq<char>,
    pub cpu: Seq<char>,
    pub memory: Seq<char>,
    pub schedule: Seq<char>,
    pub timezone: Seq<char>,
    pub resumed: Seq<char>,
    pub active: Seq<char>,
    pub last_schedule: Seq<char>,
    pub up_to_date: Seq<char>,
    pub owner: Seq<char>,
    pub service_type: Seq<char>,
    pub cluster_ip: Seq<char>,
    pub external_ip: Seq<char>,
    pub ports: Seq<char>,
    pub service_ports: Seq<u16>,
}

impl View for ResourceRow {
    type V = RowView;

    open spec fn view(&self) -> RowView {
        RowView {
            name: self.name@,
            namespace: self.namespace@,
            ready: self.ready@,
            status: self.status@,
            restarts: self.restarts@,
            age: self.age@,
            controlled_by: self.controlled_by@,
            cpu: self.cpu@,
            memory: self.memory@,
            schedule: self.schedule@,
            timezone: self.timezone@,
            resumed: self.resumed@,
            active: self.active@,
            last_schedule: self.last_schedule@,
            up_to_date: self.up_to_date@,
            owner: self.owner@,
            service_type: self.service_type@,
            cluster_ip: self.cluster_ip@,
            external_ip: self.external_ip@,
            ports: self.ports@,
            service_ports: self.service_ports@,
        }
    }
}

/// The views of a sequence of rows.
pub open spec fn rows_view(rows: Seq<ResourceRow>) -> Seq<RowView> {
    rows.map_values(|r: ResourceRow| r@)
}

/// A copy of a row.
pub fn copy_row(r: &ResourceRow) -> (c: ResourceRow)
    ensures
        c@ == r@,
{
    let mut ports: Vec<u16> = Vec::new();
    let mut i: usize = 0;
    while i < r.service_ports.len()
        invariant
            i <= r.service_ports.len(),
            ports@ == r.service_ports@.take(i as int),
        decreases r.service_ports.len() - i,
    {
        ports.push(r.service_ports[i]);
        assert(r.service_ports@.take(i as int).push(r.service_ports@[i as int])
            =~= r.service_ports@.take(i + 1));
        i = i + 1;
    }
    assert(r.service_ports@.take(r.service_ports@.len() as int) =~= r.service_ports@);
    ResourceRow {
        name: owned(r.name.as_str()),
        namespace: owned(r.namespace.as_str()),
        ready: owned(r.ready.as_str()),
        status: owned(r.status.as_str()),
        restarts: owned(r.restarts.as_str()),
        age: owned(r.age.as_str()),
        controlled_by: owned(r.controlled_by.as_str()),
        cpu: owned(r.cpu.as_str()),
        memory: owned(r.memory.as_str()),
        schedule: owned(r.schedule.as_str()),
        timezone: owned(r.timezone.as_str()),
        resumed: owned(r.resumed.as_str()),
        active: owned(r.active.as_str()),
        last_schedule: owned(r.last_schedule.as_str()),
        up_to_date: owned(r.up_to_date.as_str()),
        owner: owned(r.owner.as_str()),
        service_type: owned(r.service_type.as_str()),
        cluster_ip: owned(r.cluster_ip.as_str()),
        external_ip: owned(r.external_ip.as_str()),
        ports: owned(r.ports.as_str()),
        service_ports: ports,
    }
}

/// A copy of a list of rows.
pub fn copy_rows(rows: &[ResourceRow]) -> (c: Vec<ResourceRow>)
    ensures
        rows_view(c@) == rows_view(rows@),
{
    let mut out: Vec<ResourceRow> = Vec::new();
    let mut i: usize = 0;
    while i < rows.len()
        invariant
            i <= rows.len(),
            out@.len() == i,
            forall|j: int| 0 <= j < i ==> out@[j]@ == rows@[j]@,
        decreases rows.len() - i,
    {
        out.push(copy_row(&rows[i]));
        i = i + 1;
    }
    assert(rows_view(out@) =~= rows_view(rows@));
    out
}

/// The remaining columns hold their placeholders (`-`, or `N/A` for usage).
pub open spec fn row_defaults(r: ResourceRow) -> bool {
    &&& r.controlled_by@ == "-"@
    &&& r.cpu@ == "N/A"@
    &&& r.memory@ == "N/A"@
    &&& r.schedule@ == "-"@
    &&& r.timezone@ == "-"@
    &&& r.resumed@ == "-"@
    &&& r.active@ == "-"@
    &&& r.last_schedule@ == "-"@
    &&& r.up_to_date@ == "-"@
    &&& r.owner@ == "-"@
    &&& r.service_type@ == "-"@
    &&& r.cluster_ip@ == "-"@
    &&& r.external_ip@ == "-"@
    &&& r.ports@ == "-"@
    &&& r.service_ports@.len() == 0
}

impl ResourceRow {
    pub fn new(
        name: String,
        namespace: String,
        ready: String,
        status: String,
        restarts: String,
        age: String,
    ) -> (r: Self)
        ensures
            r.name == name,
            r.namespace == namespace,
            r.ready == ready,
            r.status == status,
            r.restarts == restarts,
            r.age == age,
            row_defaults(r),
    {
        ResourceRow {
            name,
            namespace,
            ready,
            status,
            restarts,
            age,
            controlled_by: owned("-"),
            cpu: owned("N/A"),
            memory: owned("N/A"),
            schedule: owned("-"),
            timezone: owned("-"),
            resumed: owned("-"),
            active: owned("-"),
            last_schedule: owned("-"),
            up_to_date: owned("-"),
            owner: owned("-"),
            service_type: owned("-"),
            cluster_ip: owned("-"),
            external_ip: owned("-"),
            ports: owned("-"),
            service_ports: Vec::new(),
        }
    }
}

/// Sidebar category for grouping resource kinds.
#[derive(Debug, Clone, Copy, PartialEq, Eq, Structural)]
pub enum ResourceCategory {
    Workloads,
    Network,
    Storage,
    Access,
    Config,
    Cluster,
    Custom,
}

/// Supported resource kinds in the UI.
#[derive(Debug, Clone, Copy, PartialEq, Eq, Hash, Structural)]
pub enum ResourceKind {
    Pod,
    Deployment,
    StatefulSet,
    Job,
    CronJob,
    Service,
    Ingress,
    ConfigMap,
    Secret,
    Namespace,
    Node,
    NetworkPolicy,
    PersistentVolumeClaim,
    StorageClass,
    Role,
    RoleBinding,
    ClusterRole,
    ClusterRoleBinding,
    HelmRelease,
    Crd,
}

/// All kinds in sidebar order.
pub open spec fn all_kinds() -> Seq<ResourceKind> {
    seq![
        ResourceKind::Pod,
        ResourceKind::Deployment,
        ResourceKind::StatefulSet,
        ResourceKind::Job,
        ResourceKind::CronJob,
        ResourceKind::Service,
        ResourceKind::Ingress,
        ResourceKind::NetworkPolicy,
        ResourceKind::PersistentVolumeClaim,
        ResourceKind::StorageClass,
        ResourceKind::Role,
        ResourceKind::RoleBinding,
        ResourceKind::ClusterRole,
        ResourceKind::ClusterRoleBinding,
        ResourceKind::ConfigMap,
        ResourceKind::Secret,
        ResourceKind::Namespace,
        ResourceKind::Node,
        ResourceKind::HelmRelease,
        ResourceKind::Crd,
    ]
}

/// Kinds shown as horizontal tabs in the Workloads section.
pub open spec fn workload_tabs() -> Seq<ResourceKind> {
    seq![ResourceKind::Pod, ResourceKind::Deployment, ResourceKind::Job, ResourceKind::CronJob]
}

pub open spec fn kind_category(k: ResourceKind) -> ResourceCategory {
    match k {
        ResourceKind::Pod | ResourceKind::Deployment | ResourceKind::StatefulSet
        | ResourceKind::Job | ResourceKind::CronJob => ResourceCategory::Workloads,
        ResourceKind::Service | ResourceKind::Ingress | ResourceKind::NetworkPolicy => {
            ResourceCategory::Network
        },
        ResourceKind::PersistentVolumeClaim | ResourceKind::StorageClass => {
            ResourceCategory::Storage
        },
        ResourceKind::Role | ResourceKind::RoleBinding | ResourceKind::ClusterRole
        | ResourceKind::ClusterRoleBinding => ResourceCategory::Access,
        ResourceKind::ConfigMap | ResourceKind::Secret => ResourceCategory::Config,
        ResourceKind::Namespace | ResourceKind::Node | ResourceKind::HelmRelease => {
            ResourceCategory::Cluster
        },
        ResourceKind::Crd => ResourceCategory::Custom,
    }
}

pub open spec fn kind_label(k: ResourceKind) -> Seq<char> {
    match k {
        ResourceKind::Pod => "Pods"@,
        ResourceKind::Deployment => "Deployments"@,
        ResourceKind::StatefulSet => "StatefulSets"@,
        ResourceKind::Job => "Jobs"@,
        ResourceKind::CronJob => "Cron Jobs"@,
        ResourceKind::Service => "Services"@,
        ResourceKind::Ingress => "Ingresses"@,
        ResourceKind::NetworkPolicy => "Network Policies"@,
        ResourceKind::PersistentVolumeClaim => "PVCs"@,
        ResourceKind::StorageClass => "Storage Classes"@,
        ResourceKind::Role => "Roles"@,
        ResourceKind::RoleBinding => "Role Bindings"@,
        ResourceKind::ClusterRole => "Cluster Roles"@,
        ResourceKind::ClusterRoleBinding => "Cluster Role Bindings"@,
        ResourceKind::ConfigMap => "ConfigMaps"@,
        ResourceKind::Secret => "Secrets"@,
        ResourceKind::Namespace => "Namespaces"@,
        ResourceKind::Node => "Nodes"@,
        ResourceKind::HelmRelease => "Helm Releases"@,
        ResourceKind::Crd => "Custom Resources"@,
    }
}

pub open spec fn kind_api_kind(k: ResourceKind) -> Seq<char> {
    match k {
        ResourceKind::Pod => "Pod"@,
        ResourceKind::Deployment => "Deployment"@,
        ResourceKind::StatefulSet => "StatefulSet"@,
        ResourceKind::Job => "Job"@,
        ResourceKind::CronJob => "CronJob"@,
        ResourceKind::Service => "Service"@,
        ResourceKind::Ingress => "Ingress"@,
        ResourceKind::NetworkPolicy => "NetworkPolicy"@,
        ResourceKind::PersistentVolumeClaim => "PersistentVolumeClaim"@,
        ResourceKind::StorageClass => "StorageClass"@,
        ResourceKind::Role => "Role"@,
        ResourceKind::RoleBinding => "RoleBinding"@,
        ResourceKind::ClusterRole => "ClusterRole"@,
        ResourceKind::ClusterRoleBinding => "ClusterRoleBinding"@,
        ResourceKind::ConfigMap => "ConfigMap"@,
        ResourceKind::Secret => "Secret"@,
        ResourceKind::Namespace => "Namespace"@,
        ResourceKind::Node => "Node"@,
        ResourceKind::HelmRelease => "HelmRelease"@,
        ResourceKind::Crd => "CustomResource"@,
    }
}

/// The first kind in `ks` whose text under `f` is `t`.
pub open spec fn first_kind_with(
    ks: Seq<ResourceKind>,
    f: spec_fn(ResourceKind) -> Seq<char>,
    t: Seq<char>,
) -> Option<ResourceKind>
    decreases ks.len(),
{
    if ks.len() == 0 {
        None
    } else if f(ks[0]) == t {
        Some(ks[0])
    } else {
        first_kind_with(ks.drop_first(), f, t)
    }
}

impl ResourceKind {
    pub const ALL: [ResourceKind; 20] = [
        ResourceKind::Pod,
        ResourceKind::Deployment,
        ResourceKind::StatefulSet,
        ResourceKind::Job,
        ResourceKind::CronJob,
        ResourceKind::Service,
        ResourceKind::Ingress,
        ResourceKind::NetworkPolicy,
        ResourceKind::PersistentVolumeClaim,
        ResourceKind::StorageClass,
        ResourceKind::Role,
        ResourceKind::RoleBinding,
        ResourceKind::ClusterRole,
        ResourceKind::ClusterRoleBinding,
        ResourceKind::ConfigMap,
        ResourceKind::Secret,
        ResourceKind::Namespace,
        ResourceKind::Node,
        ResourceKind::HelmRelease,
        ResourceKind::Crd,
    ];

    /// Horizontal tabs shown for the Workloads section (Freelens-style).
    pub const WORKLOAD_TABS: [ResourceKind; 4] = [
        ResourceKind::Pod,
        ResourceKind::Deployment,
        ResourceKind::Job,
        ResourceKind::CronJob,
    ];

    /// All kinds, in the order of `ALL`.
    pub fn all() -> (r: Vec<ResourceKind>)
        ensures
            r@ == all_kinds(),
    {
        let r = vec![
            ResourceKind::Pod,
            ResourceKind::Deployment,
            ResourceKind::StatefulSet,
            ResourceKind::Job,
            ResourceKind::CronJob,
            ResourceKind::Service,
            ResourceKind::Ingress,
            ResourceKind::NetworkPolicy,
            ResourceKind::PersistentVolumeClaim,
            ResourceKind::StorageClass,
            ResourceKind::Role,
            ResourceKind::RoleBinding,
            ResourceKind::ClusterRole,
            ResourceKind::ClusterRoleBinding,
            ResourceKind::ConfigMap,
            ResourceKind::Secret,
            ResourceKind::Namespace,
            ResourceKind::Node,
            ResourceKind::HelmRelease,
            ResourceKind::Crd,
        ];
        assert(r@ =~= all_kinds());
        r
    }

    pub fn category(self) -> (r: ResourceCategory)
        ensures
            r == kind_category(self),
    {
        match self {
            ResourceKind::Pod | ResourceKind::Deployment | ResourceKind::StatefulSet
            | ResourceKind::Job | ResourceKind::CronJob => ResourceCategory::Workloads,
            ResourceKind::Service | ResourceKind::Ingress | ResourceKind::NetworkPolicy => {
                ResourceCategory::Network
            },
            ResourceKind::PersistentVolumeClaim | ResourceKind::StorageClass => {
                ResourceCategory::Storage
            },
            ResourceKind::Role | ResourceKind::RoleBinding | ResourceKind::ClusterRole
            | ResourceKind::ClusterRoleBinding => ResourceCategory::Access,
            ResourceKind::ConfigMap | ResourceKind::Secret => ResourceCategory::Config,
            ResourceKind::Namespace | ResourceKind::Node | ResourceKind::HelmRelease => {
                ResourceCategory::Cluster
            },
            ResourceKind::Crd => ResourceCategory::Custom,
        }
    }

    pub fn label(self) -> (r: &'static str)
        ensures
            r@ == kind_label(self),
    {
        match self {
            ResourceKind::Pod => "Pods",
            ResourceKind::Deployment => "Deployments",
            ResourceKind::StatefulSet => "StatefulSets",
            ResourceKind::Job => "Jobs",
            ResourceKind::CronJob => "Cron Jobs",
            ResourceKind::Service => "Services",
            ResourceKind::Ingress => "Ingresses",
            ResourceKind::NetworkPolicy => "Network Policies",
            ResourceKind::PersistentVolumeClaim => "PVCs",
            ResourceKind::StorageClass => "Storage Classes",
            ResourceKind::Role => "Roles",
            ResourceKind::RoleBinding => "Role Bindings",
            ResourceKind::ClusterRole => "Cluster Roles",
            ResourceKind::ClusterRoleBinding => "Cluster Role Bindings",
            ResourceKind::ConfigMap => "ConfigMaps",
            ResourceKind::Secret => "Secrets",
            ResourceKind::Namespace => "Namespaces",
            ResourceKind::Node => "Nodes",
            ResourceKind::HelmRelease => "Helm Releases",
            ResourceKind::Crd => "Custom Resources",
        }
    }

    pub fn api_kind(self) -> (r: &'static str)
        ensures
            r@ == kind_api_kind(self),
    {
        match self {
            ResourceKind::Pod => "Pod",
            ResourceKind::Deployment => "Deployment",
            ResourceKind::StatefulSet => "StatefulSet",
            ResourceKind::Job => "Job",
            ResourceKind::CronJob => "CronJob",
            ResourceKind::Service => "Service",
            ResourceKind::Ingress => "Ingress",
            ResourceKind::NetworkPolicy => "NetworkPolicy",
            ResourceKind::PersistentVolumeClaim => "PersistentVolumeClaim",
            ResourceKind::StorageClass => "StorageClass",
            ResourceKind::Role => "Role",
            ResourceKind::RoleBinding => "RoleBinding",
            ResourceKind::ClusterRole => "ClusterRole",
            ResourceKind::ClusterRoleBinding => "ClusterRoleBinding",
            ResourceKind::ConfigMap => "ConfigMap",
            ResourceKind::Secret => "Secret",
            ResourceKind::Namespace => "Namespace",
            ResourceKind::Node => "Node",
            ResourceKind::HelmRelease => "HelmRelease",
            ResourceKind::Crd => "CustomResource",
        }
    }

    pub fn is_cluster_scoped(self) -> (r: bool)
        ensures
            r == (self == ResourceKind::Namespace || self == ResourceKind::Node || self
                == ResourceKind::StorageClass || self == ResourceKind::ClusterRole || self
                == ResourceKind::ClusterRoleBinding),
    {
        matches!(
            self,
            ResourceKind::Namespace | ResourceKind::Node | ResourceKind::StorageClass
                | ResourceKind::ClusterRole | ResourceKind::ClusterRoleBinding
        )
    }

    /// True for kinds backed by a live Kubernetes watch (not Helm/CRD polls).
    pub fn uses_watch(self) -> (r: bool)
        ensures
            r == !(self == ResourceKind::HelmRelease || self == ResourceKind::Crd),
    {
        !matches!(self, ResourceKind::HelmRelease | ResourceKind::Crd)
    }

    pub fn supports_logs(self) -> (r: bool)
        ensures
            r == (self == ResourceKind::Pod),
    {
        self == ResourceKind::Pod
    }

    pub fn is_workload_tab(self) -> (r: bool)
        ensures
            r == workload_tabs().contains(self),
    {
        let r = self == ResourceKind::Pod || self == ResourceKind::Deployment || self
            == ResourceKind::Job || self == ResourceKind::CronJob;
        proof {
            if r {
                if self == ResourceKind::Pod {
                    assert(workload_tabs()[0] == self);
                } else if self == ResourceKind::Deployment {
                    assert(workload_tabs()[1] == self);
                } else if self == ResourceKind::Job {
                    assert(workload_tabs()[2] == self);
                } else {
                    assert(workload_tabs()[3] == self);
                }
            }
        }
        r
    }

    pub fn supports_port_forward(self) -> (r: bool)
        ensures
            r == (self == ResourceKind::Pod || self == ResourceKind::Service),
    {
        self == ResourceKind::Pod || self == ResourceKind::Service
    }

    /// The kind whose sidebar label is `label`.
    pub fn from_label(label: &str) -> (r: Option<Self>)
        ensures
            r == first_kind_with(all_kinds(), |k: ResourceKind| kind_label(k), label@),
    {
        let all = Self::all();
        let mut i: usize = 0;
        assert(all@.skip(0) =~= all@);
        while i < all.len()
            invariant
                i <= all.len(),
                all@ == all_kinds(),
                first_kind_with(all_kinds(), |k: ResourceKind| kind_label(k), label@)
                    == first_kind_with(all@.skip(i as int), |k: ResourceKind| kind_label(k), label@),
            decreases all.len() - i,
        {
            assert(all@.skip(i as int).drop_first() =~= all@.skip(i + 1));
            assert(all@.skip(i as int)[0] == all@[i as int]);
            let k = all[i];
            if str_eq(k.label(), label) {
                return Some(k);
            }
            i = i + 1;
        }
        None
    }

    /// The kind whose Kubernetes API kind is `api_kind`.
    pub fn from_api_kind(api_kind: &str) -> (r: Option<Self>)
        ensures
            r == first_kind_with(all_kinds(), |k: ResourceKind| kind_api_kind(k), api_kind@),
    {
        let all = Self::all();
        let mut i: usize = 0;
        assert(all@.skip(0) =~= all@);
        while i < all.len()
            invariant
                i <= all.len(),
                all@ == all_kinds(),
                first_kind_with(all_kinds(), |k: ResourceKind| kind_api_kind(k), api_kind@)
                    == first_kind_with(
                    all@.skip(i as int),
                    |k: ResourceKind| kind_api_kind(k),
                    api_kind@,
                ),
            decreases all.len() - i,
        {
            assert(all@.skip(i as int).drop_first() =~= all@.skip(i + 1));
            assert(all@.skip(i as int)[0] == all@[i as int]);
            let k = all[i];
            if str_eq(k.api_kind(), api_kind) {
                return Some(k);
            }
            i = i + 1;
        }
        None
    }
}

/// Identifies a CRD type for dynamic listing.
#[derive(Debug, Clone)]
pub struct CrdTarget {
    pub group: String,
    pub version: String,
    pub plural: String,
    pub display_name: String,
}

// ---------------------------------------------------------------------------
// Ages
// ---------------------------------------------------------------------------

/// A duration in whole seconds, in its largest whole unit: `42s`, `5m`,
/// `3h`, `12d`.
pub open spec fn duration_text(secs: nat) -> Seq<char> {
    if secs < 60 {
        decimal(secs) + "s"@
    } else if secs < 3600 {
        decimal(secs / 60) + "m"@
    } else if secs < 86_400 {
        decimal(secs / 3600) + "h"@
    } else {
        decimal(secs / 86_400) + "d"@
    }
}

/// Seconds elapsed from `created` to `now`, negative spans counting as zero.
pub open spec fn elapsed_secs(created: i64, now: i64) -> nat {
    if now > created {
        (now - created) as nat
    } else {
        0
    }
}

/// The age column for an object created at `created` (Unix seconds), as
/// seen at `now`: `-` when the creation time is unknown.
pub open spec fn age_text(created: Option<i64>, now: i64) -> Seq<char> {
    match created {
        None => "-"@,
        Some(c) => duration_text(elapsed_secs(c, now)),
    }
}

/// Formats a duration given in whole seconds.
pub fn format_duration(secs: u64) -> (r: String)
    ensures
        r@ == duration_text(secs as nat),
{
    let (n, unit) = if secs < 60 {
        (secs, "s")
    } else if secs < 3600 {
        (secs / 60, "m")
    } else if secs < 86_400 {
        (secs / 3600, "h")
    } else {
        (secs / 86_400, "d")
    };
    let mut r = fmt_u64(n);
    r.append(unit);
    r
}

/// The age column for an object created at `created`, as seen at `now`.
pub fn format_age_at(created: Option<i64>, now: i64) -> (r: String)
    ensures
        r@ == age_text(created, now),
{
    match created {
        None => owned("-"),
        Some(c) => {
            let secs: u64 = if now > c {
                (now as i128 - c as i128) as u64
            } else {
                0
            };
            format_duration(secs)
        },
    }
}

/// `ready/total` as shown in the Ready column.
pub fn pod_ready_string(ready_count: i32, total: i32) -> (r: String)
    ensures
        r@ == signed_decimal(ready_count as int) + "/"@ + signed_decimal(total as int),
{
    let mut r = String::new();
    push_signed(&mut r, ready_count as i64);
    r.append("/");
    push_signed(&mut r, total as i64);
    r
}

// ---------------------------------------------------------------------------
// Laws
// ---------------------------------------------------------------------------

/// Looking a kind up by its sidebar label gives the kind back; the kind is
/// persisted in settings by its label and restored this way.
pub proof fn law_label_round_trip(k: ResourceKind)
    ensures
        first_kind_with(all_kinds(), |k: ResourceKind| kind_label(k), kind_label(k)) == Some(k),
{
    reveal_strlit("Pods");
    reveal_strlit("Deployments");
    reveal_strlit("StatefulSets");
    reveal_strlit("Jobs");
    reveal_strlit("Cron Jobs");
    reveal_strlit("Services");
    reveal_strlit("Ingresses");
    reveal_strlit("Network Policies");
    reveal_strlit("PVCs");
    reveal_strlit("Storage Classes");
    reveal_strlit("Roles");
    reveal_strlit("Role Bindings");
    reveal_strlit("Cluster Roles");
    reveal_strlit("Cluster Role Bindings");
    reveal_strlit("ConfigMaps");
    reveal_strlit("Secrets");
    reveal_strlit("Namespaces");
    reveal_strlit("Nodes");
    reveal_strlit("Helm Releases");
    reveal_strlit("Custom Resources");
    assert forall|a: ResourceKind, b: ResourceKind| kind_label(a) == kind_label(b) implies a
        == b by {
        assert(kind_label(a).len() == kind_label(b).len());
        assert(kind_label(a)[0] == kind_label(b)[0]);
        assert(kind_label(a)[1] == kind_label(b)[1]);
    }
    lemma_all_kinds_contains(k);
    lemma_first_kind_with_unique(all_kinds(), |k: ResourceKind| kind_label(k), k);
}

/// Looking a kind up by its API kind gives the kind back; favorites store
/// the API kind and are navigated this way.
pub proof fn law_api_kind_round_trip(k: ResourceKind)
    ensures
        first_kind_with(all_kinds(), |k: ResourceKind| kind_api_kind(k), kind_api_kind(k))
            == Some(k),
{
    reveal_strlit("Pod");
    reveal_strlit("Deployment");
    reveal_strlit("StatefulSet");
    reveal_strlit("Job");
    reveal_strlit("CronJob");
    reveal_strlit("Service");
    reveal_strlit("Ingress");
    reveal_strlit("NetworkPolicy");
    reveal_strlit("PersistentVolumeClaim");
    reveal_strlit("StorageClass");
    reveal_strlit("Role");
    reveal_strlit("RoleBinding");
    reveal_strlit("ClusterRole");
    reveal_strlit("ClusterRoleBinding");
    reveal_strlit("ConfigMap");
    reveal_strlit("Secret");
    reveal_strlit("Namespace");
    reveal_strlit("Node");
    reveal_strlit("HelmRelease");
    reveal_strlit("CustomResource");
    assert forall|a: ResourceKind, b: ResourceKind| kind_api_kind(a) == kind_api_kind(b) implies a
        == b by {
        assert(kind_api_kind(a).len() == kind_api_kind(b).len());
        assert(kind_api_kind(a)[0] == kind_api_kind(b)[0]);
    }
    lemma_all_kinds_contains(k);
    lemma_first_kind_with_unique(all_kinds(), |k: ResourceKind| kind_api_kind(k), k);
}

proof fn lemma_all_kinds_contains(k: ResourceKind)
    ensures
        all_kinds().contains(k),
{
    let s = all_kinds();
    let i: int = match k {
        ResourceKind::Pod => 0,
        ResourceKind::Deployment => 1,
        ResourceKind::StatefulSet => 2,
        ResourceKind::Job => 3,
        ResourceKind::CronJob => 4,
        ResourceKind::Service => 5,
        ResourceKind::Ingress => 6,
        ResourceKind::NetworkPolicy => 7,
        ResourceKind::PersistentVolumeClaim => 8,
        ResourceKind::StorageClass => 9,
        ResourceKind::Role => 10,
        ResourceKind::RoleBinding => 11,
        ResourceKind::ClusterRole => 12,
        ResourceKind::ClusterRoleBinding => 13,
        ResourceKind::ConfigMap => 14,
        ResourceKind::Secret => 15,
        ResourceKind::Namespace => 16,
        ResourceKind::Node => 17,
        ResourceKind::HelmRelease => 18,
        ResourceKind::Crd => 19,
    };
    assert(s[i] == k);
}

proof fn lemma_first_kind_with_unique(
    ks: Seq<ResourceKind>,
    f: spec_fn(ResourceKind) -> Seq<char>,
    k: ResourceKind,
)
    requires
        ks.contains(k),
        forall|i: int, j: int|
            0 <= i < ks.len() && 0 <= j < ks.len() && ks[i] != ks[j] ==> f(ks[i]) != f(ks[j]),
    ensures
        first_kind_with(ks, f, f(k)) == Some(k),
    decreases ks.len(),
{
    if ks[0] != k {
        let t = ks.drop_first();
        let idx = choose|i: int| 0 <= i < ks.len() && ks[i] == k;
        assert(idx != 0);
        assert(t[idx - 1] == k);
        assert(f(ks[0]) != f(ks[idx]));
        assert forall|i: int, j: int|
            0 <= i < t.len() && 0 <= j < t.len() && t[i] != t[j] implies f(t[i]) != f(t[j]) by {
            assert(t[i] == ks[i + 1]);
            assert(t[j] == ks[j + 1]);
        }
        lemma_first_kind_with_unique(t, f, k);
    }
}

} // verus!
