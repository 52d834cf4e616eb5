use rl_core::resources::{CrdTarget, ResourceKind};
use rl_core::ops::{
    applied_label, apply_namespace, delete_grace_period, last_line_stamp, object_target, row_source, ObjectTarget, RowSource, kubectl_attach_command, kubectl_edit_command, kubectl_exec_command,
    kubectl_rollout_restart_command, manual_job_name, plan_older_logs, sorted_names,
    split_older_logs, LOG_BUFFER_MAX_LINES, LOG_CHUNK_LINES, POD_SHELL_WRAPPER,
};

#[test]
fn kubectl_exec_formats_command() {
    let cmd = kubectl_exec_command("default", "api-123", Some("app"));
    assert!(cmd.contains("kubectl exec"));
    assert!(cmd.contains("-c app"));
}

#[test]
fn exec_command_is_exact() {
    assert_eq!(
        kubectl_exec_command("default", "api-123", Some("app")),
        "kubectl exec -it -n default api-123 -c app -- /bin/sh"
    );
    assert_eq!(
        kubectl_exec_command("kube-system", "dns", None),
        "kubectl exec -it -n kube-system dns -- /bin/sh"
    );
}

#[test]
fn attach_command_is_exact() {
    assert_eq!(
        kubectl_attach_command("default", "api-123", Some("app")),
        "kubectl attach -it -n default api-123 -c app"
    );
    assert_eq!(
        kubectl_attach_command("default", "api-123", None),
        "kubectl attach -it -n default api-123"
    );
}

#[test]
fn edit_command_lowercases_kind() {
    // The kind goes through std's lower-casing; a wrapper that handed its
    // argument back would leave "Deployment" as it is.
    assert_eq!(
        kubectl_edit_command("prod", "Deployment", "web"),
        "kubectl edit -n prod deployment web"
    );
    assert_eq!(
        kubectl_edit_command("prod", "ÉTAT", "x"),
        "kubectl edit -n prod état x"
    );
}

#[test]
fn rollout_restart_command_is_exact() {
    assert_eq!(
        kubectl_rollout_restart_command("prod", "web"),
        "kubectl rollout restart deployment/web -n prod"
    );
}

#[test]
fn shell_wrapper_tries_three_shells() {
    assert_eq!(POD_SHELL_WRAPPER, "clear; (bash || ash || sh)");
}

#[test]
fn older_log_plan_caps_buffered_lines() {
    assert_eq!(plan_older_logs(120), (120, 620));
    assert_eq!(plan_older_logs(LOG_BUFFER_MAX_LINES), (2000, 2500));
    assert_eq!(plan_older_logs(99_999), (2000, 2000 + LOG_CHUNK_LINES));
}

#[test]
fn older_log_split_drops_buffered_tail() {
    let fetched: Vec<String> = (0..10).map(|i| format!("l{i}")).collect();
    let (pre, more) = split_older_logs(fetched.clone(), 4, 10);
    assert_eq!(pre, vec!["l0", "l1", "l2", "l3", "l4", "l5"]);
    assert!(more);
    let (pre, more) = split_older_logs(fetched.clone(), 4, 11);
    assert_eq!(pre.len(), 6);
    assert!(!more);
    let (pre, more) = split_older_logs(fetched, 10, 10);
    assert!(pre.is_empty());
    assert!(more);
    let (pre, more) = split_older_logs(Vec::new(), 0, 0);
    assert!(pre.is_empty());
    assert!(!more);
}

#[test]
fn manual_job_name_has_marker() {
    assert_eq!(manual_job_name("backup", "20240101120000"), "backup-manual-20240101120000");
}

#[test]
fn forced_delete_is_immediate() {
    assert_eq!(delete_grace_period(true), Some(0));
    assert_eq!(delete_grace_period(false), None);
}

#[test]
fn namespace_names_are_sorted() {
    let names = vec![
        Some("kube-system".to_string()),
        None,
        Some("default".to_string()),
        Some("apps".to_string()),
        Some("default".to_string()),
    ];
    assert_eq!(sorted_names(names), vec!["apps", "default", "default", "kube-system"]);
}

#[test]
fn request_targets_by_kind() {
    assert!(matches!(
        object_target(ResourceKind::Node, None),
        Ok(ObjectTarget::Typed { kind: ResourceKind::Node, namespaced: false })
    ));
    assert!(matches!(
        object_target(ResourceKind::HelmRelease, None),
        Ok(ObjectTarget::Typed { kind: ResourceKind::Secret, namespaced: true })
    ));
    let err = object_target(ResourceKind::Crd, None).unwrap_err();
    assert_eq!(err.user_message(), "no CRD type selected");
    let t = CrdTarget {
        group: "example.com".into(),
        version: "v1".into(),
        plural: "widgets".into(),
        display_name: "Widget".into(),
    };
    match object_target(ResourceKind::Crd, Some(&t)) {
        Ok(ObjectTarget::Custom { group, kind_name }) => {
            assert_eq!((group.as_str(), kind_name.as_str()), ("example.com", "Widget"))
        }
        other => panic!("unexpected {other:?}"),
    }
    assert_eq!(row_source(ResourceKind::Crd, false), RowSource::Nothing);
    assert_eq!(row_source(ResourceKind::Crd, true), RowSource::CustomResources);
    assert_eq!(row_source(ResourceKind::HelmRelease, false), RowSource::HelmReleases);
    assert_eq!(row_source(ResourceKind::Pod, false), RowSource::Watched);
}

#[test]
fn next_poll_starts_after_last_stamp() {
    let lines = vec![
        "2024-01-01T00:00:00Z first".to_string(),
        "  2024-01-01T00:00:05.5Z\tsecond line".to_string(),
    ];
    assert_eq!(last_line_stamp(&lines).as_deref(), Some("2024-01-01T00:00:05.5Z"));
    assert_eq!(last_line_stamp(&["   ".to_string()]), None);
    assert_eq!(last_line_stamp(&[]), None);
}

#[test]
fn applied_documents_go_to_their_namespace() {
    assert_eq!(apply_namespace(true, Some("x"), "web"), None);
    assert_eq!(apply_namespace(false, Some("x"), "web").as_deref(), Some("x"));
    assert_eq!(apply_namespace(false, None, "web").as_deref(), Some("web"));
    assert_eq!(applied_label("ConfigMap", "settings"), "ConfigMap/settings");
}
