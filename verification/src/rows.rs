//! Table rows built from Kubernetes objects.
//!
//! Each object kind is described by a plain record holding exactly the
//! fields the table reads (the application converts API objects into these);
//! the functions here turn a record into a `ResourceRow`.
use vstd::prelude::*;

use crate::resources::{age_text, format_age_at, pod_ready_string, ResourceRow, RowView};
use crate::text::{
    concat2, decimal, fmt_u64, owned, push_decimal, push_signed, signed_decimal, str_eq,
};

verus! {

// ---------------------------------------------------------------------------
// Shared pieces
// ---------------------------------------------------------------------------

/// Metadata every object carries: its name and creation time (Unix seconds).
#[derive(Debug, Clone)]
pub struct ObjectInfo {
    pub name: Option<String>,
    pub created: Option<i64>,
}

/// A row with the six leading columns set and placeholders elsewhere.
pub open spec fn base_row(
    name: Seq<char>,
    namespace: Seq<char>,
    ready: Seq<char>,
    status: Seq<char>,
    restarts: Seq<char>,
    age: Seq<char>,
) -> RowView {
    RowView {
        name,
        namespace,
        ready,
        status,
        restarts,
        age,
        controlled_by: "-"@,
        cpu: "N/A"@,
        memory: "N/A"@,
        schedule: "-"@,
        timezone: "-"@,
        resumed: "-"@,
        active: "-"@,
        last_schedule: "-"@,
        up_to_date: "-"@,
        owner: "-"@,
        service_type: "-"@,
        cluster_ip: "-"@,
        external_ip: "-"@,
        ports: "-"@,
        service_ports: Seq::empty(),
    }
}

/// `o.unwrap_or_default()` for text.
pub open spec fn text_or_empty(o: Option<String>) -> Seq<char> {
    match o {
        Some(s) => s@,
        None => Seq::empty(),
    }
}

/// `o.unwrap_or(d)` for text.
pub open spec fn text_or(o: Option<String>, d: Seq<char>) -> Seq<char> {
    match o {
        Some(s) => s@,
        None => d,
    }
}

/// `o.unwrap_or(0)` for counts.
pub open spec fn count_or_zero(o: Option<i32>) -> int {
    match o {
        Some(v) => v as int,
        None => 0,
    }
}

fn name_of(meta: &ObjectInfo) -> (r: String)
    ensures
        r@ == text_or_empty(meta.name),
{
    match &meta.name {
        Some(n) => owned(n.as_str()),
        None => String::new(),
    }
}

fn text_or_exec(o: &Option<String>, d: &str) -> (r: String)
    ensures
        r@ == text_or(*o, d@),
{
    match o {
        Some(s) => owned(s.as_str()),
        None => owned(d),
    }
}

fn base_row_exec(
    name: String,
    namespace: String,
    ready: String,
    status: String,
    restarts: String,
    age: String,
) -> (r: ResourceRow)
    ensures
        r@ == base_row(name@, namespace@, ready@, status@, restarts@, age@),
{
    let r = ResourceRow::new(name, namespace, ready, status, restarts, age);
    assert(r.service_ports@ =~= Seq::<u16>::empty());
    r
}

/// `"{a}/{b}"` for two counts.
pub open spec fn ratio_text(a: int, b: int) -> Seq<char> {
    signed_decimal(a) + "/"@ + signed_decimal(b)
}

fn ratio_exec(a: i32, b: i32) -> (r: String)
    ensures
        r@ == ratio_text(a as int, b as int),
{
    pod_ready_string(a, b)
}

/// `"{n}{suffix}"` for a count.
fn count_with(n: usize, suffix: &str) -> (r: String)
    ensures
        r@ == decimal(n as nat) + suffix@,
{
    let mut r = String::new();
    push_decimal(&mut r, n as u64);
    r.append(suffix);
    r
}

// ---------------------------------------------------------------------------
// Pods
// ---------------------------------------------------------------------------

/// Readiness and restart count of one container.
#[derive(Debug, Clone)]
pub struct ContainerState {
    pub ready: bool,
    pub restart_count: i32,
}

/// What the pod table reads from a pod.
#[derive(Debug, Clone)]
pub struct PodInfo {
    pub meta: ObjectInfo,
    pub phase: Option<String>,
    pub container_statuses: Option<Vec<ContainerState>>,
    /// Kinds of the owner references, in order.
    pub owner_kinds: Option<Vec<String>>,
}

/// Number of ready containers.
pub open spec fn ready_count(s: Seq<ContainerState>) -> int
    decreases s.len(),
{
    if s.len() == 0 {
        0
    } else {
        ready_count(s.drop_last()) + if s.last().ready {
            1int
        } else {
            0int
        }
    }
}

/// Whether a container reports ready.
pub open spec fn is_ready() -> spec_fn(ContainerState) -> bool {
    |c: ContainerState| c.ready
}

/// The ready count is the number of containers whose ready flag is set.
pub proof fn law_ready_count_counts_ready(s: Seq<ContainerState>)
    ensures
        ready_count(s) == s.filter(is_ready()).len(),
        0 <= ready_count(s) <= s.len(),
        (forall|i: int| 0 <= i < s.len() ==> (#[trigger] s[i]).ready) ==> ready_count(s) == s.len(),
        (forall|i: int| 0 <= i < s.len() ==> !(#[trigger] s[i]).ready) ==> ready_count(s) == 0,
    decreases s.len(),
{
    if s.len() > 0 {
        let d = s.drop_last();
        law_ready_count_counts_ready(d);
        assert(d.push(s.last()) =~= s);
        d.lemma_filter_push(s.last(), is_ready());
        if forall|i: int| 0 <= i < s.len() ==> (#[trigger] s[i]).ready {
            assert forall|i: int| 0 <= i < d.len() implies (#[trigger] d[i]).ready by {
                assert(d[i] == s[i]);
            }
            assert(s[s.len() - 1].ready);
        }
        if forall|i: int| 0 <= i < s.len() ==> !(#[trigger] s[i]).ready {
            assert forall|i: int| 0 <= i < d.len() implies !(#[trigger] d[i]).ready by {
                assert(d[i] == s[i]);
            }
            assert(!s[s.len() - 1].ready);
        }
    } else {
        assert(s.filter(is_ready()) =~= Seq::<ContainerState>::empty()) by {
            reveal(Seq::filter);
        }
    }
}

/// The Ready column of a pod row reads `ready/total`: the number of ready
/// containers over the number of containers (for any count that fits the
/// column's integer).
pub proof fn law_pod_ready_column(p: PodInfo, namespace: Seq<char>, now: i64)
    requires
        p.container_statuses matches Some(s) && s@.len() <= i32::MAX,
    ensures
        pod_row(p, namespace, now).ready == ratio_text(
            p.container_statuses->0@.filter(is_ready()).len() as int,
            p.container_statuses->0@.len() as int,
        ),
{
    law_ready_count_counts_ready(p.container_statuses->0@);
}

/// Sum of restart counts.
pub open spec fn restart_sum(s: Seq<ContainerState>) -> int
    decreases s.len(),
{
    if s.len() == 0 {
        0
    } else {
        restart_sum(s.drop_last()) + s.last().restart_count
    }
}

/// The restarts column adds up every container's restart count: one
/// container gives its own count, and the sum over two lists joined is the
/// sum of their sums, whatever the order of the containers.
pub proof fn law_restart_sum_adds_up(a: Seq<ContainerState>, b: Seq<ContainerState>, c: ContainerState)
    ensures
        restart_sum(seq![c]) == c.restart_count,
        restart_sum(a + b) == restart_sum(a) + restart_sum(b),
        restart_sum(a + b) == restart_sum(b + a),
    decreases b.len(),
{
    assert(seq![c].drop_last() =~= Seq::<ContainerState>::empty());
    assert(seq![c].last() == c);
    assert(restart_sum(Seq::<ContainerState>::empty()) == 0);
    if b.len() > 0 {
        law_restart_sum_adds_up(a, b.drop_last(), c);
        assert((a + b).drop_last() =~= a + b.drop_last());
        lemma_restart_sum_front(b, a);
    } else {
        assert(a + b =~= a);
        assert(b + a =~= a);
    }
}

/// Putting a list in front adds its sum.
proof fn lemma_restart_sum_front(b: Seq<ContainerState>, a: Seq<ContainerState>)
    ensures
        restart_sum(b + a) == restart_sum(b) + restart_sum(a),
    decreases a.len(),
{
    if a.len() > 0 {
        lemma_restart_sum_front(b, a.drop_last());
        assert((b + a).drop_last() =~= b + a.drop_last());
    } else {
        assert(b + a =~= b);
    }
}

/// The restart sum fits an `i32` at every prefix (the sum does not overflow).
pub open spec fn restarts_fit(s: Seq<ContainerState>) -> bool {
    forall|k: int| 0 <= k <= s.len() ==> i32::MIN <= #[trigger] restart_sum(s.take(k)) <= i32::MAX
}

/// Whether summing a pod's restart counts stays within `i32`, which
/// [`pod_to_row`] needs.
pub fn pod_restarts_fit(pod: &PodInfo) -> (r: bool)
    ensures
        r == (pod.container_statuses matches Some(s) ==> restarts_fit(s@)),
{
    let s = match &pod.container_statuses {
        Some(s) => s,
        None => return true,
    };
    let mut sum: i64 = 0;
    let mut i: usize = 0;
    assert(s@.take(0) =~= Seq::<ContainerState>::empty());
    while i < s.len()
        invariant
            i <= s@.len(),
            pod.container_statuses == Some(*s),
            sum == restart_sum(s@.take(i as int)),
            forall|k: int| 0 <= k <= i ==> i32::MIN <= #[trigger] restart_sum(s@.take(k)) <= i32::MAX,
        decreases s@.len() - i,
    {
        assert(s@.take(i + 1).drop_last() =~= s@.take(i as int));
        sum = sum + s[i].restart_count as i64;
        if sum < -2147483648i64 || sum > 2147483647i64 {
            assert(!(i32::MIN <= restart_sum(s@.take(i + 1)) <= i32::MAX));
            return false;
        }
        i = i + 1;
    }
    assert(s@.take(s@.len() as int) =~= s@);
    true
}

/// The controlling owner's kind: the first owner reference, or `-`.
pub open spec fn owner_kind_text(owners: Option<Vec<String>>) -> Seq<char> {
    match owners {
        Some(v) => if v@.len() > 0 {
            v@[0]@
        } else {
            "-"@
        },
        None => "-"@,
    }
}

/// The row of a pod.
pub open spec fn pod_row(p: PodInfo, namespace: Seq<char>, now: i64) -> RowView {
    let (ready, total, restarts) = match p.container_statuses {
        Some(s) => ((ready_count(s@) as i32) as int, (s@.len() as i32) as int, restart_sum(s@)),
        None => (0, 0, 0),
    };
    RowView {
        controlled_by: owner_kind_text(p.owner_kinds),
        ..base_row(
            text_or_empty(p.meta.name),
            namespace,
            ratio_text(ready, total),
            text_or(p.phase, "Unknown"@),
            signed_decimal(restarts),
            age_text(p.meta.created, now),
        )
    }
}

/// Kind of the pod's first owner, or `-`.
pub fn pod_owner_kind(owners: &Option<Vec<String>>) -> (r: String)
    ensures
        r@ == owner_kind_text(*owners),
{
    match owners {
        Some(v) => if v.len() > 0 {
            owned(v[0].as_str())
        } else {
            owned("-")
        },
        None => owned("-"),
    }
}

/// The pod table row.
pub fn pod_to_row(pod: &PodInfo, namespace: &str, now: i64) -> (r: ResourceRow)
    requires
        pod.container_statuses matches Some(s) ==> restarts_fit(s@),
    ensures
        r@ == pod_row(*pod, namespace@, now),
{
    let name = name_of(&pod.meta);
    let phase = text_or_exec(&pod.phase, "Unknown");
    let mut ready_n: usize = 0;
    let mut total: i32 = 0;
    let mut restarts: i32 = 0;
    if let Some(statuses) = &pod.container_statuses {
        total = statuses.len() as i32;
        let mut i: usize = 0;
        while i < statuses.len()
            invariant
                i <= statuses.len(),
                pod.container_statuses == Some(*statuses),
                restarts_fit(statuses@),
                ready_n == ready_count(statuses@.take(i as int)),
                restarts == restart_sum(statuses@.take(i as int)),
                0 <= ready_n <= i,
            decreases statuses.len() - i,
        {
            assert(statuses@.take(i + 1).drop_last() =~= statuses@.take(i as int));
            assert(statuses@.take(i + 1).last() == statuses@[i as int]);
            if statuses[i].ready {
                ready_n = ready_n + 1;
            }
            assert(i32::MIN <= restart_sum(statuses@.take(i + 1)) <= i32::MAX);
            restarts = restarts + statuses[i].restart_count;
            i = i + 1;
        }
        assert(statuses@.take(statuses@.len() as int) =~= statuses@);
    }
    let ready = ready_n as i32;
    let mut restarts_text = String::new();
    push_signed(&mut restarts_text, restarts as i64);
    let mut row = base_row_exec(
        name,
        owned(namespace),
        ratio_exec(ready, total),
        phase,
        restarts_text,
        format_age_at(pod.meta.created, now),
    );
    row.controlled_by = pod_owner_kind(&pod.owner_kinds);
    row
}

// ---------------------------------------------------------------------------
// Workloads
// ---------------------------------------------------------------------------

/// What the table reads from a Deployment.
#[derive(Debug, Clone)]
pub struct DeploymentInfo {
    pub meta: ObjectInfo,
    pub status_ready_replicas: Option<i32>,
    pub status_replicas: Option<i32>,
    pub spec_replicas: Option<i32>,
}

pub open spec fn deployment_row(d: DeploymentInfo, namespace: Seq<char>, now: i64) -> RowView {
    let ready = count_or_zero(d.status_ready_replicas);
    let desired = match d.status_replicas {
        Some(r) => r as int,
        None => count_or_zero(d.spec_replicas),
    };
    base_row(
        text_or_empty(d.meta.name),
        namespace,
        ratio_text(ready, desired),
        if ready == desired && desired > 0 {
            "Available"@
        } else {
            "Progressing"@
        },
        "-"@,
        age_text(d.meta.created, now),
    )
}

pub fn deployment_to_row(dep: &DeploymentInfo, namespace: &str, now: i64) -> (r: ResourceRow)
    ensures
        r@ == deployment_row(*dep, namespace@, now),
{
    let ready: i32 = match dep.status_ready_replicas {
        Some(v) => v,
        None => 0,
    };
    let desired: i32 = match dep.status_replicas {
        Some(v) => v,
        None => match dep.spec_replicas {
            Some(v) => v,
            None => 0,
        },
    };
    let phase = if ready == desired && desired > 0 {
        "Available"
    } else {
        "Progressing"
    };
    base_row_exec(
        name_of(&dep.meta),
        owned(namespace),
        ratio_exec(ready, desired),
        owned(phase),
        owned("-"),
        format_age_at(dep.meta.created, now),
    )
}

/// What the table reads from a StatefulSet.
#[derive(Debug, Clone)]
pub struct StatefulSetInfo {
    pub meta: ObjectInfo,
    pub status_ready_replicas: Option<i32>,
    /// `status.replicas` (present whenever the status is).
    pub status_replicas: Option<i32>,
    pub spec_replicas: Option<i32>,
}

pub open spec fn statefulset_row(s: StatefulSetInfo, namespace: Seq<char>, now: i64) -> RowView {
    let ready = count_or_zero(s.status_ready_replicas);
    let desired = match s.status_replicas {
        Some(r) => r as int,
        None => count_or_zero(s.spec_replicas),
    };
    base_row(
        text_or_empty(s.meta.name),
        namespace,
        ratio_text(ready, desired),
        if ready == desired && desired > 0 {
            "Ready"@
        } else {
            "Progressing"@
        },
        "-"@,
        age_text(s.meta.created, now),
    )
}

pub fn statefulset_to_row(sts: &StatefulSetInfo, namespace: &str, now: i64) -> (r: ResourceRow)
    ensures
        r@ == statefulset_row(*sts, namespace@, now),
{
    let ready: i32 = match sts.status_ready_replicas {
        Some(v) => v,
        None => 0,
    };
    let desired: i32 = match sts.status_replicas {
        Some(v) => v,
        None => match sts.spec_replicas {
            Some(v) => v,
            None => 0,
        },
    };
    let phase = if ready == desired && desired > 0 {
        "Ready"
    } else {
        "Progressing"
    };
    base_row_exec(
        name_of(&sts.meta),
        owned(namespace),
        ratio_exec(ready, desired),
        owned(phase),
        owned("-"),
        format_age_at(sts.meta.created, now),
    )
}

/// What the table reads from a Job.
#[derive(Debug, Clone)]
pub struct JobInfo {
    pub meta: ObjectInfo,
    pub succeeded: Option<i32>,
    pub active: Option<i32>,
    pub failed: Option<i32>,
}

pub open spec fn job_phase(succeeded: int, active: int, failed: int) -> Seq<char> {
    if succeeded > 0 && active == 0 {
        "Complete"@
    } else if failed > 0 {
        "Failed"@
    } else if active > 0 {
        "Running"@
    } else {
        "Pending"@
    }
}

pub open spec fn job_row(j: JobInfo, namespace: Seq<char>, now: i64) -> RowView {
    let s = count_or_zero(j.succeeded);
    let a = count_or_zero(j.active);
    let f = count_or_zero(j.failed);
    base_row(
        text_or_empty(j.meta.name),
        namespace,
        ratio_text(s, a + s + f),
        job_phase(s, a, f),
        "-"@,
        age_text(j.meta.created, now),
    )
}

pub fn job_to_row(job: &JobInfo, namespace: &str, now: i64) -> (r: ResourceRow)
    requires
        i32::MIN <= count_or_zero(job.active) + count_or_zero(job.succeeded) <= i32::MAX,
        i32::MIN <= count_or_zero(job.active) + count_or_zero(job.succeeded) + count_or_zero(
            job.failed,
        ) <= i32::MAX,
    ensures
        r@ == job_row(*job, namespace@, now),
{
    let succeeded: i32 = match job.succeeded {
        Some(v) => v,
        None => 0,
    };
    let active: i32 = match job.active {
        Some(v) => v,
        None => 0,
    };
    let failed: i32 = match job.failed {
        Some(v) => v,
        None => 0,
    };
    let total = active + succeeded + failed;
    let phase = if succeeded > 0 && active == 0 {
        "Complete"
    } else if failed > 0 {
        "Failed"
    } else if active > 0 {
        "Running"
    } else {
        "Pending"
    };
    base_row_exec(
        name_of(&job.meta),
        owned(namespace),
        ratio_exec(succeeded, total),
        owned(phase),
        owned("-"),
        format_age_at(job.meta.created, now),
    )
}

/// What the table reads from a CronJob.
#[derive(Debug, Clone)]
pub struct CronJobInfo {
    pub meta: ObjectInfo,
    pub has_last_schedule_time: bool,
    /// `spec.suspend`; `None` when there is no spec or the field is unset.
    pub suspend: Option<bool>,
    /// `spec.schedule`; `None` when there is no spec.
    pub schedule: Option<String>,
}

pub open spec fn cronjob_row(c: CronJobInfo, namespace: Seq<char>, now: i64) -> RowView {
    let suspended = match c.suspend {
        Some(b) => b,
        None => false,
    };
    base_row(
        text_or_empty(c.meta.name),
        namespace,
        text_or(c.schedule, "-"@),
        if suspended {
            "Suspended"@
        } else if c.has_last_schedule_time {
            "Scheduled"@
        } else {
            "Idle"@
        },
        "-"@,
        age_text(c.meta.created, now),
    )
}

pub fn cronjob_to_row(cj: &CronJobInfo, namespace: &str, now: i64) -> (r: ResourceRow)
    ensures
        r@ == cronjob_row(*cj, namespace@, now),
{
    let last = if cj.has_last_schedule_time {
        "Scheduled"
    } else {
        "Idle"
    };
    let suspend = match cj.suspend {
        Some(b) => b,
        None => false,
    };
    let phase = if suspend {
        "Suspended"
    } else {
        last
    };
    base_row_exec(
        name_of(&cj.meta),
        owned(namespace),
        text_or_exec(&cj.schedule, "-"),
        owned(phase),
        owned("-"),
        format_age_at(cj.meta.created, now),
    )
}

// ---------------------------------------------------------------------------
// Network and config
// ---------------------------------------------------------------------------

/// What the table reads from a Service.
#[derive(Debug, Clone)]
pub struct ServiceInfo {
    pub meta: ObjectInfo,
    pub service_type: Option<String>,
}

pub open spec fn service_row(s: ServiceInfo, namespace: Seq<char>, now: i64) -> RowView {
    base_row(
        text_or_empty(s.meta.name),
        namespace,
        "-"@,
        text_or(s.service_type, "ClusterIP"@),
        "-"@,
        age_text(s.meta.created, now),
    )
}

pub fn service_to_row(svc: &ServiceInfo, namespace: &str, now: i64) -> (r: ResourceRow)
    ensures
        r@ == service_row(*svc, namespace@, now),
{
    base_row_exec(
        name_of(&svc.meta),
        owned(namespace),
        owned("-"),
        text_or_exec(&svc.service_type, "ClusterIP"),
        owned("-"),
        format_age_at(svc.meta.created, now),
    )
}

/// What the table reads from an Ingress.
#[derive(Debug, Clone)]
pub struct IngressInfo {
    pub meta: ObjectInfo,
    /// Number of rules; `None` when there is no spec or no rule list.
    pub rule_count: Option<usize>,
}

pub open spec fn ingress_row(i: IngressInfo, namespace: Seq<char>, now: i64) -> RowView {
    let n: nat = match i.rule_count {
        Some(n) => n as nat,
        None => 0,
    };
    base_row(
        text_or_empty(i.meta.name),
        namespace,
        "-"@,
        decimal(n) + " rules"@,
        "-"@,
        age_text(i.meta.created, now),
    )
}

pub fn ingress_to_row(ing: &IngressInfo, namespace: &str, now: i64) -> (r: ResourceRow)
    ensures
        r@ == ingress_row(*ing, namespace@, now),
{
    let n: usize = match ing.rule_count {
        Some(n) => n,
        None => 0,
    };
    base_row_exec(
        name_of(&ing.meta),
        owned(namespace),
        owned("-"),
        count_with(n, " rules"),
        owned("-"),
        format_age_at(ing.meta.created, now),
    )
}

/// What the table reads from a ConfigMap.
#[derive(Debug, Clone)]
pub struct ConfigMapInfo {
    pub meta: ObjectInfo,
    /// Number of data keys; `None` when there is no data.
    pub data_keys: Option<usize>,
}

pub open spec fn configmap_row(c: ConfigMapInfo, namespace: Seq<char>, now: i64) -> RowView {
    let n: nat = match c.data_keys {
        Some(n) => n as nat,
        None => 0,
    };
    base_row(
        text_or_empty(c.meta.name),
        namespace,
        "-"@,
        decimal(n) + " keys"@,
        "-"@,
        age_text(c.meta.created, now),
    )
}

pub fn configmap_to_row(cm: &ConfigMapInfo, namespace: &str, now: i64) -> (r: ResourceRow)
    ensures
        r@ == configmap_row(*cm, namespace@, now),
{
    let n: usize = match cm.data_keys {
        Some(n) => n,
        None => 0,
    };
    base_row_exec(
        name_of(&cm.meta),
        owned(namespace),
        owned("-"),
        count_with(n, " keys"),
        owned("-"),
        format_age_at(cm.meta.created, now),
    )
}

/// What the table reads from a Secret.
#[derive(Debug, Clone)]
pub struct SecretInfo {
    pub meta: ObjectInfo,
    pub data_keys: Option<usize>,
    pub string_data_keys: Option<usize>,
    pub secret_type: Option<String>,
}

pub open spec fn secret_row(s: SecretInfo, namespace: Seq<char>, now: i64) -> RowView {
    let n: nat = match s.data_keys {
        Some(n) => n as nat,
        None => match s.string_data_keys {
            Some(n) => n as nat,
            None => 0,
        },
    };
    base_row(
        text_or_empty(s.meta.name),
        namespace,
        "-"@,
        text_or(s.secret_type, "Opaque"@) + " ("@ + decimal(n) + " keys)"@,
        "-"@,
        age_text(s.meta.created, now),
    )
}

pub fn secret_to_row(secret: &SecretInfo, namespace: &str, now: i64) -> (r: ResourceRow)
    ensures
        r@ == secret_row(*secret, namespace@, now),
{
    let n: usize = match secret.data_keys {
        Some(n) => n,
        None => match secret.string_data_keys {
            Some(n) => n,
            None => 0,
        },
    };
    let mut status = text_or_exec(&secret.secret_type, "Opaque");
    status.append(" (");
    push_decimal(&mut status, n as u64);
    status.append(" keys)");
    base_row_exec(
        name_of(&secret.meta),
        owned(namespace),
        owned("-"),
        status,
        owned("-"),
        format_age_at(secret.meta.created, now),
    )
}

// ---------------------------------------------------------------------------
// Cluster-scoped objects
// ---------------------------------------------------------------------------

/// What the table reads from a Namespace.
#[derive(Debug, Clone)]
pub struct NamespaceInfo {
    pub meta: ObjectInfo,
    pub phase: Option<String>,
}

pub open spec fn namespace_row(n: NamespaceInfo, now: i64) -> RowView {
    base_row(
        text_or_empty(n.meta.name),
        text_or_empty(n.meta.name),
        "-"@,
        text_or(n.phase, "Unknown"@),
        "-"@,
        age_text(n.meta.created, now),
    )
}

pub fn namespace_to_row(ns: &NamespaceInfo, now: i64) -> (r: ResourceRow)
    ensures
        r@ == namespace_row(*ns, now),
{
    base_row_exec(
        name_of(&ns.meta),
        name_of(&ns.meta),
        owned("-"),
        text_or_exec(&ns.phase, "Unknown"),
        owned("-"),
        format_age_at(ns.meta.created, now),
    )
}

/// A node condition (`type`, `status`).
#[derive(Debug, Clone)]
pub struct NodeCondition {
    pub type_: String,
    pub status: String,
}

/// What the table reads from a Node.
#[derive(Debug, Clone)]
pub struct NodeInfo {
    pub meta: ObjectInfo,
    /// `status.conditions`; `None` when there is no status or no list.
    pub conditions: Option<Vec<NodeCondition>>,
    /// `status.nodeInfo.kubeletVersion`, when reported.
    pub kubelet_version: Option<String>,
}

/// Status of the first `Ready` condition.
pub open spec fn ready_condition(cs: Seq<NodeCondition>) -> Option<Seq<char>>
    decreases cs.len(),
{
    if cs.len() == 0 {
        None
    } else if cs[0].type_@ == "Ready"@ {
        Some(cs[0].status@)
    } else {
        ready_condition(cs.drop_first())
    }
}

/// The node's readiness text: the `Ready` condition's status or `Unknown`.
pub open spec fn node_ready_text(conds: Option<Vec<NodeCondition>>) -> Seq<char> {
    match conds {
        Some(cs) => match ready_condition(cs@) {
            Some(s) => s,
            None => "Unknown"@,
        },
        None => "Unknown"@,
    }
}

pub open spec fn node_row(n: NodeInfo, now: i64) -> RowView {
    base_row(
        text_or_empty(n.meta.name),
        "-"@,
        node_ready_text(n.conditions),
        text_or(n.kubelet_version, "-"@),
        "-"@,
        age_text(n.meta.created, now),
    )
}

/// Status of a node's `Ready` condition, or `Unknown`.
pub fn node_ready(conds: &Option<Vec<NodeCondition>>) -> (r: String)
    ensures
        r@ == node_ready_text(*conds),
{
    match conds {
        None => owned("Unknown"),
        Some(cs) => {
            let mut i: usize = 0;
            assert(cs@.skip(0) =~= cs@);
            while i < cs.len()
                invariant
                    i <= cs.len(),
                    *conds == Some(*cs),
                    ready_condition(cs@) == ready_condition(cs@.skip(i as int)),
                decreases cs.len() - i,
            {
                assert(cs@.skip(i as int).drop_first() =~= cs@.skip(i + 1));
                assert(cs@.skip(i as int)[0] == cs@[i as int]);
                if str_eq(cs[i].type_.as_str(), "Ready") {
                    return owned(cs[i].status.as_str());
                }
                i = i + 1;
            }
            owned("Unknown")
        },
    }
}

pub fn node_to_row(node: &NodeInfo, now: i64) -> (r: ResourceRow)
    ensures
        r@ == node_row(*node, now),
{
    base_row_exec(
        name_of(&node.meta),
        owned("-"),
        node_ready(&node.conditions),
        text_or_exec(&node.kubelet_version, "-"),
        owned("-"),
        format_age_at(node.meta.created, now),
    )
}

// ---------------------------------------------------------------------------
// Policies, storage and RBAC
// ---------------------------------------------------------------------------

/// What the table reads from a NetworkPolicy.
#[derive(Debug, Clone)]
pub struct NetworkPolicyInfo {
    pub meta: ObjectInfo,
    /// Whether the policy has a spec at all.
    pub has_spec: bool,
    pub policy_types: Option<Vec<String>>,
    pub ingress_rules: Option<usize>,
    pub egress_rules: Option<usize>,
    /// Number of `podSelector.matchLabels`, when set.
    pub match_labels: Option<usize>,
}

/// Texts joined with `, `.
pub open spec fn join_comma(v: Seq<String>) -> Seq<char>
    decreases v.len(),
{
    if v.len() == 0 {
        Seq::empty()
    } else if v.len() == 1 {
        v[0]@
    } else {
        join_comma(v.drop_last()) + ", "@ + v.last()@
    }
}

pub open spec fn opt_count(o: Option<usize>) -> nat {
    match o {
        Some(n) => n as nat,
        None => 0,
    }
}

pub open spec fn networkpolicy_row(p: NetworkPolicyInfo, namespace: Seq<char>, now: i64) -> RowView {
    RowView {
        controlled_by: if !p.has_spec {
            "-"@
        } else {
            match p.match_labels {
                Some(n) => decimal(n as nat) + " labels"@,
                None => "all pods"@,
            }
        },
        ..base_row(
            text_or_empty(p.meta.name),
            namespace,
            match p.policy_types {
                Some(t) => join_comma(t@),
                None => "-"@,
            },
            "in:"@ + decimal(opt_count(p.ingress_rules)) + " out:"@ + decimal(
                opt_count(p.egress_rules),
            ),
            "-"@,
            age_text(p.meta.created, now),
        )
    }
}

/// Texts joined with `, `.
pub fn join_comma_exec(v: &[String]) -> (r: String)
    ensures
        r@ == join_comma(v@),
{
    let mut r = String::new();
    let mut i: usize = 0;
    while i < v.len()
        invariant
            i <= v.len(),
            r@ == join_comma(v@.take(i as int)),
        decreases v.len() - i,
    {
        assert(v@.take(i + 1).drop_last() =~= v@.take(i as int));
        assert(v@.take(i + 1).last() == v@[i as int]);
        if i > 0 {
            r.append(", ");
        } else {
            assert(v@.take(1)[0] == v@[0]);
        }
        r.append(v[i].as_str());
        i = i + 1;
    }
    assert(v@.take(v@.len() as int) =~= v@);
    r
}

fn opt_count_exec(o: Option<usize>) -> (r: usize)
    ensures
        r == opt_count(o),
{
    match o {
        Some(n) => n,
        None => 0,
    }
}

pub fn networkpolicy_to_row(np: &NetworkPolicyInfo, namespace: &str, now: i64) -> (r: ResourceRow)
    ensures
        r@ == networkpolicy_row(*np, namespace@, now),
{
    let policy_types = match &np.policy_types {
        Some(t) => join_comma_exec(t.as_slice()),
        None => owned("-"),
    };
    let mut status = owned("in:");
    push_decimal(&mut status, opt_count_exec(np.ingress_rules) as u64);
    status.append(" out:");
    push_decimal(&mut status, opt_count_exec(np.egress_rules) as u64);
    let mut row = base_row_exec(
        name_of(&np.meta),
        owned(namespace),
        policy_types,
        status,
        owned("-"),
        format_age_at(np.meta.created, now),
    );
    row.controlled_by = if !np.has_spec {
        owned("-")
    } else {
        match np.match_labels {
            Some(n) => count_with(n, " labels"),
            None => owned("all pods"),
        }
    };
    row
}

/// What the table reads from a PersistentVolumeClaim.
#[derive(Debug, Clone)]
pub struct PvcInfo {
    pub meta: ObjectInfo,
    pub phase: Option<String>,
    /// `status.capacity["storage"]`.
    pub capacity: Option<String>,
    /// `spec.resources.requests["storage"]`.
    pub request: Option<String>,
    pub storage_class: Option<String>,
}

pub open spec fn pvc_row(p: PvcInfo, namespace: Seq<char>, now: i64) -> RowView {
    let phase = text_or(p.phase, "Pending"@);
    RowView {
        memory: text_or(p.request, "-"@),
        controlled_by: text_or(p.storage_class, "-"@),
        status: phase,
        ..base_row(
            text_or_empty(p.meta.name),
            namespace,
            phase,
            text_or(p.capacity, "-"@),
            "-"@,
            age_text(p.meta.created, now),
        )
    }
}

pub fn pvc_to_row(pvc: &PvcInfo, namespace: &str, now: i64) -> (r: ResourceRow)
    ensures
        r@ == pvc_row(*pvc, namespace@, now),
{
    let phase = text_or_exec(&pvc.phase, "Pending");
    let ready = owned(phase.as_str());
    let mut row = base_row_exec(
        name_of(&pvc.meta),
        owned(namespace),
        ready,
        text_or_exec(&pvc.capacity, "-"),
        owned("-"),
        format_age_at(pvc.meta.created, now),
    );
    row.memory = text_or_exec(&pvc.request, "-");
    row.controlled_by = text_or_exec(&pvc.storage_class, "-");
    row.status = phase;
    row
}

/// What the table reads from a StorageClass.
#[derive(Debug, Clone)]
pub struct StorageClassInfo {
    pub meta: ObjectInfo,
    pub provisioner: String,
    pub volume_binding_mode: Option<String>,
    pub reclaim_policy: Option<String>,
}

pub open spec fn storageclass_row(s: StorageClassInfo, now: i64) -> RowView {
    RowView {
        memory: text_or(s.reclaim_policy, "Delete"@),
        ..base_row(
            text_or_empty(s.meta.name),
            "-"@,
            s.provisioner@,
            text_or(s.volume_binding_mode, "Immediate"@),
            "-"@,
            age_text(s.meta.created, now),
        )
    }
}

pub fn storageclass_to_row(sc: &StorageClassInfo, now: i64) -> (r: ResourceRow)
    ensures
        r@ == storageclass_row(*sc, now),
{
    let mut row = base_row_exec(
        name_of(&sc.meta),
        owned("-"),
        owned(sc.provisioner.as_str()),
        text_or_exec(&sc.volume_binding_mode, "Immediate"),
        owned("-"),
        format_age_at(sc.meta.created, now),
    );
    row.memory = text_or_exec(&sc.reclaim_policy, "Delete");
    row
}

/// What the table reads from a Role or ClusterRole.
#[derive(Debug, Clone)]
pub struct RoleInfo {
    pub meta: ObjectInfo,
    pub rule_count: Option<usize>,
}

pub open spec fn role_row(r: RoleInfo, namespace: Seq<char>, now: i64) -> RowView {
    base_row(
        text_or_empty(r.meta.name),
        namespace,
        decimal(opt_count(r.rule_count)),
        "Role"@,
        "-"@,
        age_text(r.meta.created, now),
    )
}

pub fn role_to_row(role: &RoleInfo, namespace: &str, now: i64) -> (r: ResourceRow)
    ensures
        r@ == role_row(*role, namespace@, now),
{
    base_row_exec(
        name_of(&role.meta),
        owned(namespace),
        fmt_u64(opt_count_exec(role.rule_count) as u64),
        owned("Role"),
        owned("-"),
        format_age_at(role.meta.created, now),
    )
}

pub open spec fn clusterrole_row(r: RoleInfo, now: i64) -> RowView {
    base_row(
        text_or_empty(r.meta.name),
        "-"@,
        decimal(opt_count(r.rule_count)),
        "ClusterRole"@,
        "-"@,
        age_text(r.meta.created, now),
    )
}

pub fn clusterrole_to_row(cr: &RoleInfo, now: i64) -> (r: ResourceRow)
    ensures
        r@ == clusterrole_row(*cr, now),
{
    base_row_exec(
        name_of(&cr.meta),
        owned("-"),
        fmt_u64(opt_count_exec(cr.rule_count) as u64),
        owned("ClusterRole"),
        owned("-"),
        format_age_at(cr.meta.created, now),
    )
}

/// What the table reads from a RoleBinding or ClusterRoleBinding.
#[derive(Debug, Clone)]
pub struct BindingInfo {
    pub meta: ObjectInfo,
    pub subject_count: Option<usize>,
    pub role_ref_name: String,
}

pub open spec fn rolebinding_row(b: BindingInfo, namespace: Seq<char>, now: i64) -> RowView {
    RowView {
        controlled_by: b.role_ref_name@,
        ..base_row(
            text_or_empty(b.meta.name),
            namespace,
            decimal(opt_count(b.subject_count)),
            "Binding"@,
            "-"@,
            age_text(b.meta.created, now),
        )
    }
}

pub fn rolebinding_to_row(rb: &BindingInfo, namespace: &str, now: i64) -> (r: ResourceRow)
    ensures
        r@ == rolebinding_row(*rb, namespace@, now),
{
    let mut row = base_row_exec(
        name_of(&rb.meta),
        owned(namespace),
        fmt_u64(opt_count_exec(rb.subject_count) as u64),
        owned("Binding"),
        owned("-"),
        format_age_at(rb.meta.created, now),
    );
    row.controlled_by = owned(rb.role_ref_name.as_str());
    row
}

pub open spec fn clusterrolebinding_row(b: BindingInfo, now: i64) -> RowView {
    rolebinding_row(b, "-"@, now)
}

pub fn clusterrolebinding_to_row(crb: &BindingInfo, now: i64) -> (r: ResourceRow)
    ensures
        r@ == clusterrolebinding_row(*crb, now),
{
    rolebinding_to_row(crb, "-", now)
}

// ---------------------------------------------------------------------------
// Helm releases and custom resources
// ---------------------------------------------------------------------------

/// Value of the first label with this key.
pub open spec fn label_value(labels: Seq<(String, String)>, key: Seq<char>) -> Option<Seq<char>>
    decreases labels.len(),
{
    if labels.len() == 0 {
        None
    } else if labels[0].0@ == key {
        Some(labels[0].1@)
    } else {
        label_value(labels.drop_first(), key)
    }
}

/// Value of the first label with this key.
pub fn label_value_exec(labels: &[(String, String)], key: &str) -> (r: Option<String>)
    ensures
        match r {
            Some(v) => label_value(labels@, key@) == Some(v@),
            None => label_value(labels@, key@) is None,
        },
{
    let mut i: usize = 0;
    assert(labels@.skip(0) =~= labels@);
    while i < labels.len()
        invariant
            i <= labels.len(),
            label_value(labels@, key@) == label_value(labels@.skip(i as int), key@),
        decreases labels.len() - i,
    {
        assert(labels@.skip(i as int).drop_first() =~= labels@.skip(i + 1));
        assert(labels@.skip(i as int)[0] == labels@[i as int]);
        if str_eq(labels[i].0.as_str(), key) {
            return Some(owned(labels[i].1.as_str()));
        }
        i = i + 1;
    }
    None
}

/// A Helm release secret (`owner=helm`): its labels and creation time.
#[derive(Debug, Clone)]
pub struct HelmSecretInfo {
    /// `metadata.labels`; `None` when the secret has no labels.
    pub labels: Option<Vec<(String, String)>>,
    pub created: Option<i64>,
}

/// The release row of a Helm secret; none when it lacks a `name` label.
pub open spec fn helm_row(s: HelmSecretInfo, namespace: Seq<char>, now: i64) -> Option<RowView> {
    match s.labels {
        None => None,
        Some(l) => match label_value(l@, "name"@) {
            None => None,
            Some(name) => Some(
                base_row(
                    name,
                    namespace,
                    match label_value(l@, "version"@) {
                        Some(v) => "v"@ + v,
                        None => "-"@,
                    },
                    match label_value(l@, "status"@) {
                        Some(st) => st,
                        None => "unknown"@,
                    },
                    "-"@,
                    age_text(s.created, now),
                ),
            ),
        },
    }
}

pub fn helm_release_row(secret: &HelmSecretInfo, namespace: &str, now: i64) -> (r: Option<
    ResourceRow,
>)
    ensures
        match r {
            Some(row) => helm_row(*secret, namespace@, now) == Some(row@),
            None => helm_row(*secret, namespace@, now) is None,
        },
{
    let labels = match &secret.labels {
        Some(l) => l,
        None => {
            return None;
        },
    };
    let name = match label_value_exec(labels.as_slice(), "name") {
        Some(n) => n,
        None => {
            return None;
        },
    };
    let status = match label_value_exec(labels.as_slice(), "status") {
        Some(s) => s,
        None => owned("unknown"),
    };
    let version = match label_value_exec(labels.as_slice(), "version") {
        Some(v) => concat2("v", v.as_str()),
        None => owned("-"),
    };
    Some(
        base_row_exec(
            name,
            owned(namespace),
            version,
            status,
            owned("-"),
            format_age_at(secret.created, now),
        ),
    )
}

/// Rows of the Helm release secrets that carry a `name` label, in order.
pub open spec fn helm_rows(ss: Seq<HelmSecretInfo>, namespace: Seq<char>, now: i64) -> Seq<RowView>
    decreases ss.len(),
{
    if ss.len() == 0 {
        Seq::empty()
    } else {
        let rest = helm_rows(ss.drop_last(), namespace, now);
        match helm_row(ss.last(), namespace, now) {
            Some(r) => rest.push(r),
            None => rest,
        }
    }
}

pub fn helm_release_rows(secrets: &[HelmSecretInfo], namespace: &str, now: i64) -> (r: Vec<
    ResourceRow,
>)
    ensures
        r@.map_values(|row: ResourceRow| row@) == helm_rows(secrets@, namespace@, now),
{
    let mut out: Vec<ResourceRow> = Vec::new();
    let mut i: usize = 0;
    while i < secrets.len()
        invariant
            i <= secrets.len(),
            out@.map_values(|row: ResourceRow| row@) == helm_rows(
                secrets@.take(i as int),
                namespace@,
                now,
            ),
        decreases secrets.len() - i,
    {
        assert(secrets@.take(i + 1).drop_last() =~= secrets@.take(i as int));
        assert(secrets@.take(i + 1).last() == secrets@[i as int]);
        let ghost before = out@;
        match helm_release_row(&secrets[i], namespace, now) {
            Some(row) => {
                out.push(row);
                assert(out@.map_values(|row: ResourceRow| row@) =~= before.map_values(
                    |row: ResourceRow| row@,
                ).push(row@));
            },
            None => {},
        }
        i = i + 1;
    }
    assert(secrets@.take(secrets@.len() as int) =~= secrets@);
    out
}

/// What the table reads from a custom resource instance.
#[derive(Debug, Clone)]
pub struct CustomObjectInfo {
    pub meta: ObjectInfo,
    /// `status.phase` when it is a string.
    pub status_phase: Option<String>,
}

/// The row of a custom resource; none when it has no name.
pub open spec fn custom_object_row(o: CustomObjectInfo, namespace: Seq<char>, now: i64) -> Option<
    RowView,
> {
    match o.meta.name {
        None => None,
        Some(n) => Some(
            base_row(
                n@,
                namespace,
                "-"@,
                text_or(o.status_phase, "\u{2014}"@),
                "-"@,
                age_text(o.meta.created, now),
            ),
        ),
    }
}

pub fn object_to_row(obj: &CustomObjectInfo, namespace: &str, now: i64) -> (r: Option<ResourceRow>)
    ensures
        match r {
            Some(row) => custom_object_row(*obj, namespace@, now) == Some(row@),
            None => custom_object_row(*obj, namespace@, now) is None,
        },
{
    let name = match &obj.meta.name {
        Some(n) => owned(n.as_str()),
        None => {
            return None;
        },
    };
    Some(
        base_row_exec(
            name,
            owned(namespace),
            owned("-"),
            text_or_exec(&obj.status_phase, "\u{2014}"),
            owned("-"),
            format_age_at(obj.meta.created, now),
        ),
    )
}

} // verus!
