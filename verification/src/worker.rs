//! The background worker's decisions: what each command of the window sets
//! in motion, given what the worker holds, and what an exclusive operation's
//! outcome leads to.  The worker itself only performs the steps.
use vstd::prelude::*;

use crate::backend::{begin_refused, use_native_forward, BackendCommand, BackendEvent, ExclusiveSlot};
use crate::ops::{older_logs_plan, plan_older_logs};
use crate::resources::{CrdTarget, ResourceKind};

verus! {

/// An exclusive operation, run in the background; its outcome comes back
/// through [`WorkerState::finish_exclusive`].
#[derive(Debug)]
pub enum ExclusiveJob {
    /// Connect to the kubeconfig's current context.
    ConnectDefault,
    /// Connect to the named context.
    Connect(String),
    SwitchContext(String),
    SetNamespace(String),
    RefreshWatch,
}

/// A request against the cluster, run in the background; its reply (or
/// error) goes to the window as an event.
#[derive(Debug)]
pub enum ClusterRequest {
    Yaml { kind: ResourceKind, name: String },
    Events { kind: ResourceKind, name: String },
    Containers { tab_id: Option<u64>, pod_name: String },
    Metrics,
    /// The newest `request_tail` lines of a pod's log, of which the tab
    /// already holds the `buffered` newest.
    OlderLogs {
        tab_id: u64,
        pod_name: String,
        container: Option<String>,
        timestamps: bool,
        buffered: usize,
        request_tail: i64,
    },
    Delete { kind: ResourceKind, name: String, force: bool },
    TriggerCronJob { name: String },
    SetCronjobSuspended { name: String, suspend: bool },
    RestartDeployment { name: String },
    RestartStatefulSet { name: String },
    ScaleDeployment { name: String, replicas: i32 },
    ScaleStatefulSet { name: String, replicas: i32 },
    Dashboard,
}

/// One piece of work the worker performs, in the order given.
#[derive(Debug)]
pub enum WorkerStep {
    /// Send an event to the window.
    Emit(BackendEvent),
    /// Stop every port forward.
    StopAllForwards,
    /// Start an exclusive operation.
    Begin(ExclusiveJob),
    /// Make the kind the watched one; on success push every snapshot and
    /// list the kind if it is listed on demand, on failure report the error.
    ActivateKind(ResourceKind),
    /// Choose the custom resource type that is listed.
    SelectCrd(Option<CrdTarget>),
    /// Push the snapshot of every watched kind.
    PushSnapshots,
    /// List a kind that is not watched (Helm releases, custom resources).
    ListOnDemand(ResourceKind),
    Request(ClusterRequest),
    /// Server-side apply of YAML documents (run in the worker itself).
    ApplyYaml(String),
    /// (Re)start tailing a pod's log for a tab.
    StartLogPoll { tab_id: u64, pod_name: String, container: Option<String> },
    StopLogPoll(u64),
    StopAllLogPolls,
    /// Save the selected kind and container for the current context.
    PersistSettings { kind: ResourceKind, container: Option<String> },
    /// Start a port forward under `id`: with the in-process forwarder when
    /// `native` (kubectl when that fails), else with kubectl.
    StartForward {
        id: u64,
        kind: ResourceKind,
        name: String,
        local_port: u16,
        remote_port: u16,
        native: bool,
    },
    /// Stop the port forward `id`, if it runs.
    StopForward(u64),
}

/// What an exclusive operation came back with.
#[derive(Debug)]
pub enum ExclusiveOutcome {
    /// Connected (or switched): `fresh_manager` tells whether a new
    /// connection replaces the worker's one.
    Connected {
        fresh_manager: bool,
        context: String,
        namespace: String,
        contexts: Vec<String>,
        namespaces: Vec<String>,
        crd_targets: Vec<CrdTarget>,
        active_kind: ResourceKind,
    },
    RefreshDone { active_kind: ResourceKind },
    Failed(String),
}

/// What the worker holds between commands.
pub struct WorkerState {
    /// Whether a cluster connection is held.
    pub connected: bool,
    pub slot: ExclusiveSlot,
    /// The kind the window shows.
    pub active_kind: ResourceKind,
    pub next_port_forward_id: u64,
}

/// The worker's state and the steps it takes for a command: whether it goes
/// on running, and the steps in order.
pub type Plan = (WorkerState, bool, Seq<WorkerStep>);

/// An exclusive operation is asked for: answered `Busy` while another one
/// runs, else started (announced to the window as `Connecting` when asked).
pub open spec fn exclusive_plan(s: WorkerState, finished: bool, announce: bool, job: ExclusiveJob) -> Plan {
    let s2 = WorkerState { slot: ExclusiveSlot { held: true }, ..s };
    if begin_refused(s.slot.held, finished) {
        (s2, true, seq![WorkerStep::Emit(BackendEvent::Busy)])
    } else if announce {
        (s2, true, seq![WorkerStep::Emit(BackendEvent::Connecting), WorkerStep::Begin(job)])
    } else {
        (s2, true, seq![WorkerStep::Begin(job)])
    }
}

/// Steps that need a connection: none without one.
pub open spec fn connected_plan(s: WorkerState, steps: Seq<WorkerStep>) -> Plan {
    (s, true, if s.connected {
        steps
    } else {
        Seq::empty()
    })
}

/// A request that needs a connection.
pub open spec fn request_plan(s: WorkerState, r: ClusterRequest) -> Plan {
    connected_plan(s, seq![WorkerStep::Request(r)])
}

/// What the worker does with a command.  `finished` tells whether the
/// exclusive operation holding the slot (if any) has ended, `native_forward`
/// whether the settings ask for the in-process port forwarder, and
/// `current_context` which context a reconnect goes back to.
pub open spec fn plan_spec(
    s: WorkerState,
    cmd: BackendCommand,
    finished: bool,
    native_forward: bool,
    current_context: Option<String>,
) -> Plan {
    match cmd {
        BackendCommand::Shutdown => (s, false, seq![WorkerStep::StopAllForwards]),
        BackendCommand::ConnectDefault => exclusive_plan(s, finished, true, ExclusiveJob::ConnectDefault),
        BackendCommand::SwitchContext(c) => if s.connected {
            exclusive_plan(s, finished, true, ExclusiveJob::SwitchContext(c))
        } else {
            (s, true, Seq::empty())
        },
        BackendCommand::SetNamespace(ns) => if s.connected {
            exclusive_plan(s, finished, true, ExclusiveJob::SetNamespace(ns))
        } else {
            (s, true, Seq::empty())
        },
        BackendCommand::SetActiveKind(k) => connected_plan(
            WorkerState { active_kind: k, ..s },
            seq![WorkerStep::ActivateKind(k)],
        ),
        BackendCommand::SetCrdTarget(t) => connected_plan(
            s,
            seq![WorkerStep::SelectCrd(t), WorkerStep::ListOnDemand(ResourceKind::Crd)],
        ),
        BackendCommand::RefreshWatch => if s.connected {
            exclusive_plan(s, finished, false, ExclusiveJob::RefreshWatch)
        } else {
            (s, true, Seq::empty())
        },
        BackendCommand::RefreshList => connected_plan(s, seq![WorkerStep::ListOnDemand(s.active_kind)]),
        BackendCommand::FetchYaml { kind, name } => request_plan(s, ClusterRequest::Yaml { kind, name }),
        BackendCommand::FetchEvents { kind, name } => request_plan(
            s,
            ClusterRequest::Events { kind, name },
        ),
        BackendCommand::FetchContainers { tab_id, pod_name } => request_plan(
            s,
            ClusterRequest::Containers { tab_id, pod_name },
        ),
        BackendCommand::FetchMetrics => request_plan(s, ClusterRequest::Metrics),
        BackendCommand::FetchOlderLogs { tab_id, pod_name, container, timestamps, tail_loaded } => {
            let (buffered, request_tail) = older_logs_plan(tail_loaded);
            request_plan(
                s,
                ClusterRequest::OlderLogs { tab_id, pod_name, container, timestamps, buffered, request_tail },
            )
        },
        BackendCommand::DeleteResource { kind, name, force } => request_plan(
            s,
            ClusterRequest::Delete { kind, name, force },
        ),
        BackendCommand::TriggerCronJob { name } => request_plan(s, ClusterRequest::TriggerCronJob { name }),
        BackendCommand::SetCronjobSuspended { name, suspend } => request_plan(
            s,
            ClusterRequest::SetCronjobSuspended { name, suspend },
        ),
        BackendCommand::RestartDeployment { name } => request_plan(
            s,
            ClusterRequest::RestartDeployment { name },
        ),
        BackendCommand::RestartStatefulSet { name } => request_plan(
            s,
            ClusterRequest::RestartStatefulSet { name },
        ),
        BackendCommand::ScaleDeployment { name, replicas } => request_plan(
            s,
            ClusterRequest::ScaleDeployment { name, replicas },
        ),
        BackendCommand::ScaleStatefulSet { name, replicas } => request_plan(
            s,
            ClusterRequest::ScaleStatefulSet { name, replicas },
        ),
        BackendCommand::ApplyYaml { yaml } => connected_plan(s, seq![WorkerStep::ApplyYaml(yaml)]),
        BackendCommand::Reconnect => exclusive_plan(
            s,
            finished,
            true,
            match current_context {
                Some(c) => ExclusiveJob::Connect(c),
                None => ExclusiveJob::ConnectDefault,
            },
        ),
        BackendCommand::FetchDashboard => request_plan(s, ClusterRequest::Dashboard),
        BackendCommand::StartLogs { tab_id, pod_name, container } => connected_plan(
            s,
            seq![
                WorkerStep::StopLogPoll(tab_id),
                WorkerStep::StartLogPoll { tab_id, pod_name, container },
            ],
        ),
        BackendCommand::CloseLog { tab_id } => (s, true, seq![WorkerStep::StopLogPoll(tab_id)]),
        BackendCommand::CloseAllLogs => (s, true, seq![WorkerStep::StopAllLogPolls]),
        BackendCommand::PersistSettings { kind, container } => connected_plan(
            s,
            seq![WorkerStep::PersistSettings { kind, container }],
        ),
        BackendCommand::StartPortForward { kind, name, local_port, remote_port } => if s.connected {
            (
                WorkerState { next_port_forward_id: (s.next_port_forward_id + 1) as u64, ..s },
                true,
                seq![
                    WorkerStep::StartForward {
                        id: s.next_port_forward_id,
                        kind,
                        name,
                        local_port,
                        remote_port,
                        native: native_forward && kind != ResourceKind::Service,
                    },
                ],
            )
        } else {
            (s, true, Seq::empty())
        },
        BackendCommand::StopPortForward { id } => (
            s,
            true,
            seq![
                WorkerStep::StopForward(id),
                WorkerStep::Emit(BackendEvent::PortForwardStopped { id }),
            ],
        ),
    }
}

/// What the worker does with an exclusive operation's outcome.
pub open spec fn outcome_spec(s: WorkerState, outcome: ExclusiveOutcome) -> (WorkerState, Seq<WorkerStep>) {
    let s2 = WorkerState { slot: ExclusiveSlot { held: false }, ..s };
    match outcome {
        ExclusiveOutcome::Connected {
            fresh_manager,
            context,
            namespace,
            contexts,
            namespaces,
            crd_targets,
            active_kind,
        } => {
            let connected = s.connected || fresh_manager;
            let refresh = if connected {
                seq![WorkerStep::PushSnapshots, WorkerStep::ListOnDemand(active_kind)]
            } else {
                Seq::empty()
            };
            (
                WorkerState { connected, ..s2 },
                refresh + seq![
                    WorkerStep::Emit(
                        BackendEvent::Connected { context, namespace, contexts, namespaces, crd_targets },
                    ),
                ],
            )
        },
        ExclusiveOutcome::RefreshDone { active_kind } => (
            s2,
            seq![
                WorkerStep::PushSnapshots,
                WorkerStep::ListOnDemand(active_kind),
                WorkerStep::Emit(BackendEvent::ExclusiveDone),
            ],
        ),
        ExclusiveOutcome::Failed(msg) => (s2, seq![WorkerStep::Emit(BackendEvent::Error(msg))]),
    }
}

/// While an exclusive operation runs, no command starts another one.
pub proof fn law_one_exclusive_at_a_time(
    s: WorkerState,
    cmd: BackendCommand,
    native_forward: bool,
    current_context: Option<String>,
)
    requires
        s.slot.held,
    ensures
        ({
            let (s2, _, steps) = plan_spec(s, cmd, false, native_forward, current_context);
            &&& s2.slot.held
            &&& forall|i: int| 0 <= i < steps.len() ==> !(#[trigger] steps[i] is Begin)
        }),
{
}

/// Without a connection, no request reaches the cluster and no port forward
/// or log tail starts.
pub proof fn law_nothing_sent_disconnected(
    s: WorkerState,
    cmd: BackendCommand,
    finished: bool,
    native_forward: bool,
    current_context: Option<String>,
)
    requires
        !s.connected,
    ensures
        ({
            let steps = plan_spec(s, cmd, finished, native_forward, current_context).2;
            forall|i: int|
                0 <= i < steps.len() ==> !(#[trigger] steps[i] is Request) && !(steps[i] is StartForward)
                    && !(steps[i] is StartLogPoll) && !(steps[i] is ApplyYaml)
        }),
{
}

/// Port-forward ids are handed out in increasing order: every id a command
/// hands out is below the next one, which never goes down.  So no two
/// forwards of a run share an id.
pub proof fn law_forward_ids_fresh(
    s: WorkerState,
    cmd: BackendCommand,
    finished: bool,
    native_forward: bool,
    current_context: Option<String>,
)
    requires
        s.next_port_forward_id < u64::MAX,
    ensures
        ({
            let (s2, _, steps) = plan_spec(s, cmd, finished, native_forward, current_context);
            &&& s.next_port_forward_id <= s2.next_port_forward_id
            &&& forall|i: int|
                0 <= i < steps.len() && #[trigger] steps[i] is StartForward ==> s.next_port_forward_id
                    <= steps[i]->StartForward_id < s2.next_port_forward_id
        }),
{
}

fn one(step: WorkerStep) -> (r: Vec<WorkerStep>)
    ensures
        r@ == seq![step],
{
    let mut v: Vec<WorkerStep> = Vec::new();
    v.push(step);
    assert(v@ =~= seq![step]);
    v
}

fn two(a: WorkerStep, b: WorkerStep) -> (r: Vec<WorkerStep>)
    ensures
        r@ == seq![a, b],
{
    let mut v: Vec<WorkerStep> = Vec::new();
    v.push(a);
    v.push(b);
    assert(v@ =~= seq![a, b]);
    v
}

impl WorkerState {
    /// A worker that holds no connection and runs nothing.
    pub fn new(active_kind: ResourceKind) -> (r: Self)
        ensures
            !r.connected,
            !r.slot.held,
            r.active_kind == active_kind,
            r.next_port_forward_id == 1,
    {
        WorkerState { connected: false, slot: ExclusiveSlot::new(), active_kind, next_port_forward_id: 1 }
    }

    fn exclusive(&mut self, finished: bool, announce: bool, job: ExclusiveJob) -> (r: (bool, Vec<WorkerStep>))
        ensures
            (*final(self), r.0, r.1@) == exclusive_plan(*old(self), finished, announce, job),
    {
        match self.slot.try_begin(finished) {
            Some(busy) => (true, one(WorkerStep::Emit(busy))),
            None => {
                self.slot.take();
                if announce {
                    (true, two(WorkerStep::Emit(BackendEvent::Connecting), WorkerStep::Begin(job)))
                } else {
                    (true, one(WorkerStep::Begin(job)))
                }
            },
        }
    }

    fn when_connected(&self, steps: Vec<WorkerStep>) -> (r: (bool, Vec<WorkerStep>))
        ensures
            (*self, r.0, r.1@) == connected_plan(*self, steps@),
    {
        if self.connected {
            (true, steps)
        } else {
            (true, Vec::new())
        }
    }

    /// Decides what a command of the window sets in motion; returns whether
    /// the worker goes on running and the steps to take, in order.
    pub fn plan_command(
        &mut self,
        cmd: BackendCommand,
        finished: bool,
        native_forward: bool,
        current_context: Option<String>,
    ) -> (r: (bool, Vec<WorkerStep>))
        requires
            (cmd is StartPortForward && old(self).connected) ==> old(self).next_port_forward_id
                < u64::MAX,
        ensures
            (*final(self), r.0, r.1@) == plan_spec(
                *old(self),
                cmd,
                finished,
                native_forward,
                current_context,
            ),
    {
        match cmd {
            BackendCommand::Shutdown => (false, one(WorkerStep::StopAllForwards)),
            BackendCommand::ConnectDefault => self.exclusive(finished, true, ExclusiveJob::ConnectDefault),
            BackendCommand::SwitchContext(c) => if self.connected {
                self.exclusive(finished, true, ExclusiveJob::SwitchContext(c))
            } else {
                (true, Vec::new())
            },
            BackendCommand::SetNamespace(ns) => if self.connected {
                self.exclusive(finished, true, ExclusiveJob::SetNamespace(ns))
            } else {
                (true, Vec::new())
            },
            BackendCommand::SetActiveKind(k) => {
                self.active_kind = k;
                self.when_connected(one(WorkerStep::ActivateKind(k)))
            },
            BackendCommand::SetCrdTarget(t) => self.when_connected(
                two(WorkerStep::SelectCrd(t), WorkerStep::ListOnDemand(ResourceKind::Crd)),
            ),
            BackendCommand::RefreshWatch => if self.connected {
                self.exclusive(finished, false, ExclusiveJob::RefreshWatch)
            } else {
                (true, Vec::new())
            },
            BackendCommand::RefreshList => {
                let k = self.active_kind;
                self.when_connected(one(WorkerStep::ListOnDemand(k)))
            },
            BackendCommand::FetchYaml { kind, name } => self.when_connected(
                one(WorkerStep::Request(ClusterRequest::Yaml { kind, name })),
            ),
            BackendCommand::FetchEvents { kind, name } => self.when_connected(
                one(WorkerStep::Request(ClusterRequest::Events { kind, name })),
            ),
            BackendCommand::FetchContainers { tab_id, pod_name } => self.when_connected(
                one(WorkerStep::Request(ClusterRequest::Containers { tab_id, pod_name })),
            ),
            BackendCommand::FetchMetrics => self.when_connected(
                one(WorkerStep::Request(ClusterRequest::Metrics)),
            ),
            BackendCommand::FetchOlderLogs { tab_id, pod_name, container, timestamps, tail_loaded } => {
                let (buffered, request_tail) = plan_older_logs(tail_loaded);
                self.when_connected(
                    one(
                        WorkerStep::Request(
                            ClusterRequest::OlderLogs {
                                tab_id,
                                pod_name,
                                container,
                                timestamps,
                                buffered,
                                request_tail,
                            },
                        ),
                    ),
                )
            },
            BackendCommand::DeleteResource { kind, name, force } => self.when_connected(
                one(WorkerStep::Request(ClusterRequest::Delete { kind, name, force })),
            ),
            BackendCommand::TriggerCronJob { name } => self.when_connected(
                one(WorkerStep::Request(ClusterRequest::TriggerCronJob { name })),
            ),
            BackendCommand::SetCronjobSuspended { name, suspend } => self.when_connected(
                one(WorkerStep::Request(ClusterRequest::SetCronjobSuspended { name, suspend })),
            ),
            BackendCommand::RestartDeployment { name } => self.when_connected(
                one(WorkerStep::Request(ClusterRequest::RestartDeployment { name })),
            ),
            BackendCommand::RestartStatefulSet { name } => self.when_connected(
                one(WorkerStep::Request(ClusterRequest::RestartStatefulSet { name })),
            ),
            BackendCommand::ScaleDeployment { name, replicas } => self.when_connected(
                one(WorkerStep::Request(ClusterRequest::ScaleDeployment { name, replicas })),
            ),
            BackendCommand::ScaleStatefulSet { name, replicas } => self.when_connected(
                one(WorkerStep::Request(ClusterRequest::ScaleStatefulSet { name, replicas })),
            ),
            BackendCommand::ApplyYaml { yaml } => self.when_connected(one(WorkerStep::ApplyYaml(yaml))),
            BackendCommand::Reconnect => {
                let job = match current_context {
                    Some(c) => ExclusiveJob::Connect(c),
                    None => ExclusiveJob::ConnectDefault,
                };
                self.exclusive(finished, true, job)
            },
            BackendCommand::FetchDashboard => self.when_connected(
                one(WorkerStep::Request(ClusterRequest::Dashboard)),
            ),
            BackendCommand::StartLogs { tab_id, pod_name, container } => self.when_connected(
                two(
                    WorkerStep::StopLogPoll(tab_id),
                    WorkerStep::StartLogPoll { tab_id, pod_name, container },
                ),
            ),
            BackendCommand::CloseLog { tab_id } => (true, one(WorkerStep::StopLogPoll(tab_id))),
            BackendCommand::CloseAllLogs => (true, one(WorkerStep::StopAllLogPolls)),
            BackendCommand::PersistSettings { kind, container } => self.when_connected(
                one(WorkerStep::PersistSettings { kind, container }),
            ),
            BackendCommand::StartPortForward { kind, name, local_port, remote_port } => {
                if !self.connected {
                    return (true, Vec::new());
                }
                let id = self.next_port_forward_id;
                self.next_port_forward_id = id + 1;
                let native = use_native_forward(native_forward, kind);
                (
                    true,
                    one(
                        WorkerStep::StartForward { id, kind, name, local_port, remote_port, native },
                    ),
                )
            },
            BackendCommand::StopPortForward { id } => (
                true,
                two(
                    WorkerStep::StopForward(id),
                    WorkerStep::Emit(BackendEvent::PortForwardStopped { id }),
                ),
            ),
        }
    }

    /// Takes in an exclusive operation's outcome: frees the slot and returns
    /// the steps that bring the window up to date.
    pub fn finish_exclusive(&mut self, outcome: ExclusiveOutcome) -> (r: Vec<WorkerStep>)
        ensures
            (*final(self), r@) == outcome_spec(*old(self), outcome),
    {
        self.slot.finish();
        match outcome {
            ExclusiveOutcome::Connected {
                fresh_manager,
                context,
                namespace,
                contexts,
                namespaces,
                crd_targets,
                active_kind,
            } => {
                self.connected = self.connected || fresh_manager;
                let mut steps: Vec<WorkerStep> = Vec::new();
                if self.connected {
                    steps.push(WorkerStep::PushSnapshots);
                    steps.push(WorkerStep::ListOnDemand(active_kind));
                }
                let ghost refresh = steps@;
                steps.push(
                    WorkerStep::Emit(
                        BackendEvent::Connected { context, namespace, contexts, namespaces, crd_targets },
                    ),
                );
                assert(steps@ =~= refresh + seq![
                    WorkerStep::Emit(
                        BackendEvent::Connected { context, namespace, contexts, namespaces, crd_targets },
                    ),
                ]);
                steps
            },
            ExclusiveOutcome::RefreshDone { active_kind } => {
                let mut steps = two(WorkerStep::PushSnapshots, WorkerStep::ListOnDemand(active_kind));
                steps.push(WorkerStep::Emit(BackendEvent::ExclusiveDone));
                assert(steps@ =~= seq![
                    WorkerStep::PushSnapshots,
                    WorkerStep::ListOnDemand(active_kind),
                    WorkerStep::Emit(BackendEvent::ExclusiveDone),
                ]);
                steps
            },
            ExclusiveOutcome::Failed(msg) => one(WorkerStep::Emit(BackendEvent::Error(msg))),
        }
    }
}

} // verus!
