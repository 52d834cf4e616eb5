use rl_core::dashboard::{build_dashboard, count_pods_on, NodeCapacityInfo, PodPlacement};
use rl_core::rows::NodeCondition;

fn pod(phase: Option<&str>, node: Option<&str>) -> PodPlacement {
    PodPlacement { phase: phase.map(String::from), node_name: node.map(String::from) }
}

#[test]
fn phase_counts_add_up() {
    let pods = vec![
        pod(Some("Running"), Some("n1")),
        pod(Some("Running"), Some("n2")),
        pod(Some("Pending"), None),
        pod(Some("Failed"), Some("n1")),
        pod(Some("Succeeded"), Some("n1")),
        pod(None, Some("n2")),
        pod(Some("Evicted"), None),
    ];
    let nodes = vec![
        NodeCapacityInfo {
            name: Some("n1".into()),
            has_status: true,
            conditions: Some(vec![NodeCondition { type_: "Ready".into(), status: "True".into() }]),
            cpu_capacity: Some("4".into()),
            memory_capacity: Some("16Gi".into()),
            cpu_allocatable: Some("3800m".into()),
            memory_allocatable: None,
        },
        NodeCapacityInfo {
            name: Some("n3".into()),
            has_status: false,
            conditions: None,
            cpu_capacity: Some("ignored".into()),
            memory_capacity: None,
            cpu_allocatable: None,
            memory_allocatable: None,
        },
    ];
    let d = build_dashboard(&pods, &nodes);
    assert_eq!(d.total_pods, 7);
    assert_eq!((d.running_pods, d.pending_pods, d.failed_pods, d.succeeded_pods, d.unknown_pods), (2, 1, 1, 1, 2));
    assert_eq!(
        d.running_pods + d.pending_pods + d.failed_pods + d.succeeded_pods + d.unknown_pods,
        d.total_pods
    );
    assert_eq!(d.nodes.len(), 2);
    let n1 = &d.nodes[0];
    assert_eq!((n1.name.as_str(), n1.ready.as_str(), n1.pods), ("n1", "True", 3));
    assert_eq!((n1.cpu_capacity.as_str(), n1.memory_capacity.as_str()), ("4", "16Gi"));
    assert_eq!((n1.cpu_allocatable.as_str(), n1.memory_allocatable.as_str()), ("3800m", "-"));
    let n3 = &d.nodes[1];
    assert_eq!((n3.ready.as_str(), n3.pods, n3.cpu_capacity.as_str()), ("Unknown", 0, "-"));
    assert_eq!(count_pods_on(&pods, "n2"), 2);
}
