use rl_core::rows::{
    pod_restarts_fit, deployment_to_row, helm_release_rows, job_to_row, node_to_row, object_to_row, pod_to_row,
    secret_to_row, ContainerState, CustomObjectInfo, DeploymentInfo, HelmSecretInfo, JobInfo,
    NodeCondition, NodeInfo, ObjectInfo, PodInfo, SecretInfo,
};

fn meta(name: &str, created: Option<i64>) -> ObjectInfo {
    ObjectInfo { name: Some(name.into()), created }
}

#[test]
fn pod_row_counts_ready_and_restarts() {
    let pod = PodInfo {
        meta: meta("web-1", Some(0)),
        phase: Some("Running".into()),
        container_statuses: Some(vec![
            ContainerState { ready: true, restart_count: 2 },
            ContainerState { ready: false, restart_count: 3 },
        ]),
        owner_kinds: Some(vec!["ReplicaSet".into(), "Other".into()]),
    };
    let r = pod_to_row(&pod, "prod", 120);
    assert_eq!(r.name, "web-1");
    assert_eq!(r.namespace, "prod");
    assert_eq!(r.ready, "1/2");
    assert_eq!(r.status, "Running");
    assert_eq!(r.restarts, "5");
    assert_eq!(r.age, "2m");
    assert_eq!(r.controlled_by, "ReplicaSet");
    let bare = PodInfo {
        meta: ObjectInfo { name: None, created: None },
        phase: None,
        container_statuses: None,
        owner_kinds: None,
    };
    let r = pod_to_row(&bare, "ns", 0);
    assert_eq!((r.name.as_str(), r.ready.as_str(), r.status.as_str(), r.restarts.as_str(), r.age.as_str(), r.controlled_by.as_str()), ("", "0/0", "Unknown", "0", "-", "-"));
}

#[test]
fn deployment_availability() {
    let d = DeploymentInfo {
        meta: meta("api", None),
        status_ready_replicas: Some(3),
        status_replicas: Some(3),
        spec_replicas: Some(5),
    };
    let r = deployment_to_row(&d, "prod", 0);
    assert_eq!((r.ready.as_str(), r.status.as_str()), ("3/3", "Available"));
    let d = DeploymentInfo {
        meta: meta("api", None),
        status_ready_replicas: None,
        status_replicas: None,
        spec_replicas: Some(2),
    };
    let r = deployment_to_row(&d, "prod", 0);
    assert_eq!((r.ready.as_str(), r.status.as_str()), ("0/2", "Progressing"));
    let d = DeploymentInfo { meta: meta("z", None), status_ready_replicas: None, status_replicas: None, spec_replicas: None };
    assert_eq!(deployment_to_row(&d, "p", 0).status, "Progressing");
}

#[test]
fn node_readiness_from_condition() {
    let n = NodeInfo {
        meta: meta("node-a", Some(0)),
        conditions: Some(vec![
            NodeCondition { type_: "MemoryPressure".into(), status: "False".into() },
            NodeCondition { type_: "Ready".into(), status: "True".into() },
        ]),
        kubelet_version: Some("v1.30.1".into()),
    };
    let r = node_to_row(&n, 86_400 * 2);
    assert_eq!((r.ready.as_str(), r.status.as_str(), r.age.as_str()), ("True", "v1.30.1", "2d"));
    let n = NodeInfo { meta: meta("b", None), conditions: None, kubelet_version: None };
    let r = node_to_row(&n, 0);
    assert_eq!((r.ready.as_str(), r.status.as_str()), ("Unknown", "-"));
}

#[test]
fn jobs_and_secrets() {
    let j = JobInfo { meta: meta("j", None), succeeded: Some(1), active: None, failed: None };
    let r = job_to_row(&j, "ns", 0);
    assert_eq!((r.ready.as_str(), r.status.as_str()), ("1/1", "Complete"));
    let j = JobInfo { meta: meta("j", None), succeeded: Some(1), active: Some(1), failed: Some(2) };
    let r = job_to_row(&j, "ns", 0);
    assert_eq!((r.ready.as_str(), r.status.as_str()), ("1/4", "Failed"));
    let j = JobInfo { meta: meta("j", None), succeeded: None, active: Some(1), failed: None };
    assert_eq!(job_to_row(&j, "ns", 0).status, "Running");
    let j = JobInfo { meta: meta("j", None), succeeded: None, active: None, failed: None };
    assert_eq!(job_to_row(&j, "ns", 0).status, "Pending");
    let s = SecretInfo {
        meta: meta("tls", None),
        data_keys: Some(2),
        string_data_keys: None,
        secret_type: Some("kubernetes.io/tls".into()),
    };
    let r = secret_to_row(&s, "ns", 0);
    assert_eq!(r.status, "kubernetes.io/tls (2 keys)");
    let s = SecretInfo { meta: meta("o", None), data_keys: None, string_data_keys: Some(1), secret_type: None };
    assert_eq!(secret_to_row(&s, "ns", 0).status, "Opaque (1 keys)");
}

#[test]
fn custom_objects_need_a_name() {
    let o = CustomObjectInfo { meta: meta("w", Some(10)), status_phase: None };
    let r = object_to_row(&o, "ns", 70).unwrap();
    assert_eq!((r.status.as_str(), r.age.as_str(), r.ready.as_str()), ("—", "1m", "-"));
    let o = CustomObjectInfo { meta: ObjectInfo { name: None, created: None }, status_phase: Some("Ready".into()) };
    assert!(object_to_row(&o, "ns", 0).is_none());
}

#[test]
fn helm_rows_from_owner_secrets() {
    let s = HelmSecretInfo {
        labels: Some(vec![
            ("owner".into(), "helm".into()),
            ("name".into(), "redis".into()),
            ("status".into(), "deployed".into()),
            ("version".into(), "3".into()),
        ]),
        created: Some(0),
    };
    let other = HelmSecretInfo { labels: None, created: None };
    let rows = helm_release_rows(&[s, other], "ns", 30);
    assert_eq!(rows.len(), 1);
    assert_eq!(rows[0].name, "redis");
    assert_eq!(rows[0].ready, "v3");
    assert_eq!(rows[0].status, "deployed");
    assert_eq!(rows[0].age, "30s");
}

#[test]
fn restart_sum_range_is_checked() {
    let pod = |counts: Vec<i32>| PodInfo {
        meta: ObjectInfo { name: Some("p".into()), created: None },
        phase: None,
        container_statuses: Some(counts.into_iter().map(|c| ContainerState { ready: true, restart_count: c }).collect()),
        owner_kinds: None,
    };
    assert!(pod_restarts_fit(&pod(vec![1, 2, 3])));
    assert!(!pod_restarts_fit(&pod(vec![i32::MAX, 1])));
    assert!(pod_restarts_fit(&pod(vec![i32::MAX, 1, -5])) == false);
    assert!(pod_restarts_fit(&PodInfo { container_statuses: None, ..pod(vec![]) }));
}
