use rl_core::resources::{
    format_age_at, format_duration, pod_ready_string, ResourceCategory, ResourceKind,
    ResourceRow,
};

#[test]
fn labels_and_api_kinds_round_trip() {
    for kind in ResourceKind::ALL {
        assert_eq!(ResourceKind::from_label(kind.label()), Some(kind));
        assert_eq!(ResourceKind::from_api_kind(kind.api_kind()), Some(kind));
    }
    assert_eq!(ResourceKind::from_label("Nope"), None);
    assert_eq!(ResourceKind::from_api_kind("pods"), None);
    assert_eq!(ResourceKind::all().len(), 20);
}

#[test]
fn kind_properties() {
    assert_eq!(ResourceKind::Pod.label(), "Pods");
    assert_eq!(ResourceKind::Crd.api_kind(), "CustomResource");
    assert_eq!(ResourceKind::HelmRelease.category(), ResourceCategory::Cluster);
    assert_eq!(ResourceKind::NetworkPolicy.category(), ResourceCategory::Network);
    assert!(ResourceKind::Node.is_cluster_scoped());
    assert!(!ResourceKind::Pod.is_cluster_scoped());
    assert!(!ResourceKind::Crd.uses_watch());
    assert!(ResourceKind::Secret.uses_watch());
    assert!(ResourceKind::Pod.supports_logs());
    assert!(!ResourceKind::Job.supports_logs());
    assert!(ResourceKind::CronJob.is_workload_tab());
    assert!(!ResourceKind::StatefulSet.is_workload_tab());
    assert!(ResourceKind::Service.supports_port_forward());
    assert!(!ResourceKind::Deployment.supports_port_forward());
}

#[test]
fn durations_in_largest_unit() {
    assert_eq!(format_duration(0), "0s");
    assert_eq!(format_duration(59), "59s");
    assert_eq!(format_duration(60), "1m");
    assert_eq!(format_duration(3599), "59m");
    assert_eq!(format_duration(3600), "1h");
    assert_eq!(format_duration(86_399), "23h");
    assert_eq!(format_duration(86_400 * 3), "3d");
}

#[test]
fn ages() {
    assert_eq!(format_age_at(None, 100), "-");
    assert_eq!(format_age_at(Some(100), 50), "0s");
    assert_eq!(format_age_at(Some(0), 7_200), "2h");
    assert_eq!(format_age_at(Some(i64::MAX), 0), "0s");
    assert_eq!(format_age_at(Some(i64::MIN), i64::MAX), "213503982334601d");
}

#[test]
fn ready_strings() {
    assert_eq!(pod_ready_string(1, 2), "1/2");
    assert_eq!(pod_ready_string(-1, 0), "-1/0");
}

#[test]
fn new_row_has_placeholders() {
    let r = ResourceRow::new("n".into(), "ns".into(), "1/1".into(), "Running".into(), "0".into(), "5m".into());
    assert_eq!(r.controlled_by, "-");
    assert_eq!(r.cpu, "N/A");
    assert_eq!(r.memory, "N/A");
    assert_eq!(r.ports, "-");
    assert!(r.service_ports.is_empty());
}
