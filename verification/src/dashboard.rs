//! Cluster overview: pod phase counts and per-node capacity.
use vstd::prelude::*;

use crate::rows::{node_ready, node_ready_text, text_or, text_or_empty, NodeCondition};
use crate::text::{owned, str_eq};

verus! {

/// What the overview reads from a pod.
#[derive(Debug, Clone)]
pub struct PodPlacement {
    pub phase: Option<String>,
    pub node_name: Option<String>,
}

/// What the overview reads from a node.
#[derive(Debug, Clone)]
pub struct NodeCapacityInfo {
    pub name: Option<String>,
    /// Whether the node reports a status at all.
    pub has_status: bool,
    pub conditions: Option<Vec<NodeCondition>>,
    pub cpu_capacity: Option<String>,
    pub memory_capacity: Option<String>,
    pub cpu_allocatable: Option<String>,
    pub memory_allocatable: Option<String>,
}

#[derive(Debug, Clone, Default)]
pub struct NodeDashboardRow {
    pub name: String,
    pub ready: String,
    pub pods: usize,
    pub cpu_allocatable: String,
    pub memory_allocatable: String,
    pub cpu_capacity: String,
    pub memory_capacity: String,
}

#[derive(Debug, Clone, Default)]
pub struct ClusterDashboard {
    pub nodes: Vec<NodeDashboardRow>,
    pub total_pods: usize,
    pub running_pods: usize,
    pub pending_pods: usize,
    pub failed_pods: usize,
    pub succeeded_pods: usize,
    pub unknown_pods: usize,
}

/// The phase a pod is counted under (`Unknown` when unset).
pub open spec fn pod_phase(p: PodPlacement) -> Seq<char> {
    text_or(p.phase, "Unknown"@)
}

/// Whether the phase is one of the four counted by name.
pub open spec fn known_phase(ph: Seq<char>) -> bool {
    ph == "Running"@ || ph == "Pending"@ || ph == "Failed"@ || ph == "Succeeded"@
}

/// Number of pods in phase `ph`.
pub open spec fn count_phase(ps: Seq<PodPlacement>, ph: Seq<char>) -> nat
    decreases ps.len(),
{
    if ps.len() == 0 {
        0
    } else {
        count_phase(ps.drop_last(), ph) + if pod_phase(ps.last()) == ph {
            1nat
        } else {
            0nat
        }
    }
}

/// Number of pods in none of the four named phases.
pub open spec fn count_other(ps: Seq<PodPlacement>) -> nat
    decreases ps.len(),
{
    if ps.len() == 0 {
        0
    } else {
        count_other(ps.drop_last()) + if known_phase(pod_phase(ps.last())) {
            0nat
        } else {
            1nat
        }
    }
}

/// Number of pods scheduled on the node named `node`.
pub open spec fn pods_on(ps: Seq<PodPlacement>, node: Seq<char>) -> nat
    decreases ps.len(),
{
    if ps.len() == 0 {
        0
    } else {
        pods_on(ps.drop_last(), node) + match ps.last().node_name {
            Some(n) => if n@ == node {
                1nat
            } else {
                0nat
            },
            None => 0nat,
        }
    }
}

proof fn lemma_phase_names_distinct()
    ensures
        "Running"@ != "Pending"@,
        "Running"@ != "Failed"@,
        "Running"@ != "Succeeded"@,
        "Pending"@ != "Failed"@,
        "Pending"@ != "Succeeded"@,
        "Failed"@ != "Succeeded"@,
{
    reveal_strlit("Running");
    reveal_strlit("Pending");
    reveal_strlit("Failed");
    reveal_strlit("Succeeded");
    assert("Running"@[0] != "Pending"@[0]);
    assert("Running"@[0] != "Failed"@[0]);
    assert("Running"@[0] != "Succeeded"@[0]);
    assert("Pending"@[0] != "Failed"@[0]);
    assert("Pending"@[0] != "Succeeded"@[0]);
    assert("Failed"@[0] != "Succeeded"@[0]);
}

proof fn lemma_counts_le(ps: Seq<PodPlacement>, ph: Seq<char>, node: Seq<char>)
    ensures
        count_phase(ps, ph) <= ps.len(),
        count_other(ps) <= ps.len(),
        pods_on(ps, node) <= ps.len(),
    decreases ps.len(),
{
    if ps.len() > 0 {
        lemma_counts_le(ps.drop_last(), ph, node);
    }
}

/// The overview line of one node.
pub open spec fn node_summary_matches(
    r: NodeDashboardRow,
    n: NodeCapacityInfo,
    pods: Seq<PodPlacement>,
) -> bool {
    &&& r.name@ == text_or_empty(n.name)
    &&& r.ready@ == node_ready_text(n.conditions)
    &&& r.pods == pods_on(pods, text_or_empty(n.name))
    &&& r.cpu_capacity@ == (if n.has_status {
        text_or(n.cpu_capacity, "-"@)
    } else {
        "-"@
    })
    &&& r.memory_capacity@ == (if n.has_status {
        text_or(n.memory_capacity, "-"@)
    } else {
        "-"@
    })
    &&& r.cpu_allocatable@ == (if n.has_status {
        text_or(n.cpu_allocatable, "-"@)
    } else {
        "-"@
    })
    &&& r.memory_allocatable@ == (if n.has_status {
        text_or(n.memory_allocatable, "-"@)
    } else {
        "-"@
    })
}

fn quantity_or_dash(q: &Option<String>, has_status: bool) -> (r: String)
    ensures
        r@ == (if has_status {
            text_or(*q, "-"@)
        } else {
            "-"@
        }),
{
    if !has_status {
        return owned("-");
    }
    match q {
        Some(s) => owned(s.as_str()),
        None => owned("-"),
    }
}

/// Number of pods scheduled on the node named `node`.
pub fn count_pods_on(pods: &[PodPlacement], node: &str) -> (r: usize)
    ensures
        r == pods_on(pods@, node@),
{
    let mut c: usize = 0;
    let mut i: usize = 0;
    while i < pods.len()
        invariant
            i <= pods.len(),
            c == pods_on(pods@.take(i as int), node@),
            c <= i,
        decreases pods.len() - i,
    {
        assert(pods@.take(i + 1).drop_last() =~= pods@.take(i as int));
        assert(pods@.take(i + 1).last() == pods@[i as int]);
        if let Some(n) = &pods[i].node_name {
            if str_eq(n.as_str(), node) {
                c = c + 1;
            }
        }
        i = i + 1;
    }
    assert(pods@.take(pods@.len() as int) =~= pods@);
    c
}

/// Pod phase counts over the whole cluster and one line per node.
pub fn build_dashboard(pods: &[PodPlacement], nodes: &[NodeCapacityInfo]) -> (r: ClusterDashboard)
    ensures
        r.total_pods == pods@.len(),
        r.running_pods == count_phase(pods@, "Running"@),
        r.pending_pods == count_phase(pods@, "Pending"@),
        r.failed_pods == count_phase(pods@, "Failed"@),
        r.succeeded_pods == count_phase(pods@, "Succeeded"@),
        r.unknown_pods == count_other(pods@),
        r.nodes@.len() == nodes@.len(),
        forall|i: int|
            0 <= i < nodes@.len() ==> node_summary_matches(
                #[trigger] r.nodes@[i],
                nodes@[i],
                pods@,
            ),
{
    let mut running: usize = 0;
    let mut pending: usize = 0;
    let mut failed: usize = 0;
    let mut succeeded: usize = 0;
    let mut unknown: usize = 0;
    let mut i: usize = 0;
    while i < pods.len()
        invariant
            i <= pods.len(),
            running == count_phase(pods@.take(i as int), "Running"@),
            pending == count_phase(pods@.take(i as int), "Pending"@),
            failed == count_phase(pods@.take(i as int), "Failed"@),
            succeeded == count_phase(pods@.take(i as int), "Succeeded"@),
            unknown == count_other(pods@.take(i as int)),
            running <= i && pending <= i && failed <= i && succeeded <= i && unknown <= i,
        decreases pods.len() - i,
    {
        let ghost t = pods@.take(i + 1);
        assert(t.drop_last() =~= pods@.take(i as int));
        assert(t.last() == pods@[i as int]);
        proof {
            reveal_strlit("Running");
            reveal_strlit("Pending");
            reveal_strlit("Failed");
            reveal_strlit("Succeeded");
            reveal_strlit("Unknown");
            lemma_phase_names_distinct();
        }
        let phase = match &pods[i].phase {
            Some(p) => owned(p.as_str()),
            None => owned("Unknown"),
        };
        assert(phase@ == pod_phase(pods@[i as int]));
        if str_eq(phase.as_str(), "Running") {
            running = running + 1;
        } else if str_eq(phase.as_str(), "Pending") {
            pending = pending + 1;
        } else if str_eq(phase.as_str(), "Failed") {
            failed = failed + 1;
        } else if str_eq(phase.as_str(), "Succeeded") {
            succeeded = succeeded + 1;
        } else {
            unknown = unknown + 1;
        }
        i = i + 1;
    }
    assert(pods@.take(pods@.len() as int) =~= pods@);
    let mut rows: Vec<NodeDashboardRow> = Vec::new();
    let mut j: usize = 0;
    while j < nodes.len()
        invariant
            j <= nodes.len(),
            rows@.len() == j,
            forall|k: int|
                0 <= k < j ==> node_summary_matches(#[trigger] rows@[k], nodes@[k], pods@),
        decreases nodes.len() - j,
    {
        let n = &nodes[j];
        let name = match &n.name {
            Some(s) => owned(s.as_str()),
            None => String::new(),
        };
        let pods_here = count_pods_on(pods, name.as_str());
        let row = NodeDashboardRow {
            ready: node_ready(&n.conditions),
            pods: pods_here,
            cpu_allocatable: quantity_or_dash(&n.cpu_allocatable, n.has_status),
            memory_allocatable: quantity_or_dash(&n.memory_allocatable, n.has_status),
            cpu_capacity: quantity_or_dash(&n.cpu_capacity, n.has_status),
            memory_capacity: quantity_or_dash(&n.memory_capacity, n.has_status),
            name,
        };
        rows.push(row);
        j = j + 1;
    }
    ClusterDashboard {
        nodes: rows,
        total_pods: pods.len(),
        running_pods: running,
        pending_pods: pending,
        failed_pods: failed,
        succeeded_pods: succeeded,
        unknown_pods: unknown,
    }
}

/// Every pod is counted under exactly one phase: the five counts add up to
/// the number of pods.
pub proof fn law_phase_counts_partition(ps: Seq<PodPlacement>)
    ensures
        count_phase(ps, "Running"@) + count_phase(ps, "Pending"@) + count_phase(ps, "Failed"@)
            + count_phase(ps, "Succeeded"@) + count_other(ps) == ps.len(),
    decreases ps.len(),
{
    reveal_strlit("Running");
    reveal_strlit("Pending");
    reveal_strlit("Failed");
    reveal_strlit("Succeeded");
    lemma_phase_names_distinct();
    if ps.len() > 0 {
        law_phase_counts_partition(ps.drop_last());
    }
}

/// Whether a pod is placed on the node named `node`.
pub open spec fn placed_on(node: Seq<char>) -> spec_fn(PodPlacement) -> bool {
    |p: PodPlacement| p.node_name matches Some(n) && n@ == node
}

/// A node's pod count is the number of pods placed on it, wherever they
/// stand in the list; one more pod placed on it raises the count by one,
/// and a pod placed elsewhere leaves it.
pub proof fn law_pods_on_counts_placed(ps: Seq<PodPlacement>, node: Seq<char>, extra: PodPlacement)
    ensures
        pods_on(ps, node) == ps.filter(placed_on(node)).len(),
        pods_on(ps.push(extra), node) == pods_on(ps, node) + if placed_on(node)(extra) {
            1int
        } else {
            0int
        },
{
    lemma_pods_on_filter(ps, node);
    lemma_pods_on_filter(ps.push(extra), node);
    ps.lemma_filter_push(extra, placed_on(node));
}

proof fn lemma_pods_on_filter(ps: Seq<PodPlacement>, node: Seq<char>)
    ensures
        pods_on(ps, node) == ps.filter(placed_on(node)).len(),
    decreases ps.len(),
{
    if ps.len() > 0 {
        let d = ps.drop_last();
        lemma_pods_on_filter(d, node);
        assert(d.push(ps.last()) =~= ps);
        d.lemma_filter_push(ps.last(), placed_on(node));
    } else {
        assert(ps.filter(placed_on(node)) =~= Seq::<PodPlacement>::empty()) by {
            reveal(Seq::filter);
        }
    }
}

/// Whether a pod is in the phase `ph`.
pub open spec fn in_phase(ph: Seq<char>) -> spec_fn(PodPlacement) -> bool {
    |p: PodPlacement| pod_phase(p) == ph
}

/// Whether a pod is in none of the four phases counted by name.
pub open spec fn in_other_phase() -> spec_fn(PodPlacement) -> bool {
    |p: PodPlacement| !known_phase(pod_phase(p))
}

proof fn lemma_count_phase_filter(ps: Seq<PodPlacement>, ph: Seq<char>)
    ensures
        count_phase(ps, ph) == ps.filter(in_phase(ph)).len(),
        count_other(ps) == ps.filter(in_other_phase()).len(),
    decreases ps.len(),
{
    if ps.len() > 0 {
        let d = ps.drop_last();
        lemma_count_phase_filter(d, ph);
        assert(d.push(ps.last()) =~= ps);
        d.lemma_filter_push(ps.last(), in_phase(ph));
        d.lemma_filter_push(ps.last(), in_other_phase());
    } else {
        assert(ps.filter(in_phase(ph)) =~= Seq::<PodPlacement>::empty()) by {
            reveal(Seq::filter);
        }
        assert(ps.filter(in_other_phase()) =~= Seq::<PodPlacement>::empty()) by {
            reveal(Seq::filter);
        }
    }
}

/// A phase's pod count is the number of pods in that phase (a pod without
/// one counts as `Unknown`), and the count of other pods the number in none
/// of the four named phases, wherever the pods stand in the list; one more
/// pod raises exactly the counts it belongs to.
pub proof fn law_phase_counts_count_pods(ps: Seq<PodPlacement>, ph: Seq<char>, extra: PodPlacement)
    ensures
        count_phase(ps, ph) == ps.filter(in_phase(ph)).len(),
        count_other(ps) == ps.filter(in_other_phase()).len(),
        count_phase(ps.push(extra), ph) == count_phase(ps, ph) + if pod_phase(extra) == ph {
            1int
        } else {
            0int
        },
        count_other(ps.push(extra)) == count_other(ps) + if known_phase(pod_phase(extra)) {
            0int
        } else {
            1int
        },
{
    lemma_count_phase_filter(ps, ph);
    lemma_count_phase_filter(ps.push(extra), ph);
    ps.lemma_filter_push(extra, in_phase(ph));
    ps.lemma_filter_push(extra, in_other_phase());
}

} // verus!
