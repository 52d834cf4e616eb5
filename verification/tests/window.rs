use rl_core::backend::{BackendCommand, BackendEvent, PortForwardInfo};
use rl_core::containers::ContainerInfo;
use rl_core::detail::{DetailSearchState, DetailState, DetailTab};
use rl_core::log_tabs::LogTabsState;
use rl_core::panels::ThemeMode;
use rl_core::resources::{ResourceKind, ResourceRow};
use rl_core::store::ResourceSnapshot;
use rl_core::window::{
    palette_actions, palette_entry_matches, parse_desired_replicas, PaletteCommand, WindowEffect,
    WindowModel,
};

fn model() -> WindowModel {
    WindowModel {
        connecting: true,
        connected: false,
        status_message: "Connecting to cluster...".into(),
        error_message: None,
        active_context: "connecting...".into(),
        active_namespace: "default".into(),
        contexts: Vec::new(),
        namespaces: Vec::new(),
        crd_targets: Vec::new(),
        pinned_contexts: vec!["gone".into()],
        cluster_tabs: Vec::new(),
        snapshots: Vec::new(),
        selected_kind: ResourceKind::Pod,
        row_count: 0,
        selected_row: Some(0),
        detail: DetailState {
            tab: DetailTab::Events,
            yaml: "y".into(),
            events: "e".into(),
            metrics: "m".into(),
            resource_name: "r".into(),
        },
        log_tabs: LogTabsState::new(),
        menu_containers_pod: None,
        containers: Vec::new(),
        selected_container: None,
        dashboard: None,
        port_forwards: Vec::new(),
        apply_yaml_open: true,
        scale_dialog: None,
        delete_confirm: None,
        theme_mode: ThemeMode::Dark,
        favorites: Vec::new(),
        show_overview: false,
        pending_favorite_select: None,
        palette_open: false,
        palette_query: String::new(),
        detail_search: DetailSearchState::default(),
        context_menu_open: false,
        focus_log_filter: false,
    }
}

fn row(name: &str) -> ResourceRow {
    ResourceRow::new(name.into(), "ns".into(), "1/2".into(), "Running".into(), "0".into(), "1m".into())
}

fn sent(fx: &[WindowEffect]) -> Vec<String> {
    fx.iter()
        .map(|e| match e {
            WindowEffect::Send(c) => format!("{c:?}"),
            WindowEffect::PersistPinnedContexts => "persist-pins".into(),
            WindowEffect::PersistClusterTabs => "persist-tabs".into(),
            other => format!("{other:?}"),
        })
        .collect()
}

#[test]
fn connecting_then_connected() {
    let mut m = model();
    let fx = m.apply_event(BackendEvent::Connecting);
    assert!(fx.is_empty());
    assert_eq!(m.status_message, "Connecting...");
    let fx = m.apply_event(BackendEvent::Connected {
        context: "prod".into(),
        namespace: "web".into(),
        contexts: vec!["dev".into(), "prod".into()],
        namespaces: vec!["web".into()],
        crd_targets: Vec::new(),
    });
    assert_eq!(sent(&fx), vec!["persist-pins", "persist-tabs", "CloseAllLogs"]);
    assert!(m.connected && !m.connecting);
    assert_eq!(m.status_message, "Connected to prod / web");
    assert_eq!(m.pinned_contexts, vec!["prod".to_string()]);
    assert_eq!(m.cluster_tabs, vec!["prod".to_string()]);
    assert_eq!(m.selected_row, None);
    assert!(m.detail.yaml.is_empty() && m.detail.events.is_empty());
    assert_eq!(m.detail.tab, DetailTab::Events);
}

#[test]
fn reconnect_resumes_the_active_tab() {
    let mut m = model();
    m.active_context = "prod".into();
    let id = m.log_tabs.open_tab("prod".into(), "web-1".into(), "ns".into(), Some("app".into()));
    m.cluster_tabs = vec!["prod".into()];
    let fx = m.apply_event(BackendEvent::Connected {
        context: "prod".into(),
        namespace: "ns".into(),
        contexts: vec!["prod".into()],
        namespaces: Vec::new(),
        crd_targets: Vec::new(),
    });
    let s = sent(&fx);
    assert_eq!(s.len(), 3);
    assert_eq!(s[1], "CloseAllLogs");
    assert!(s[2].starts_with(&format!("StartLogs {{ tab_id: {id}")));
}

#[test]
fn snapshots_and_selection() {
    let mut m = model();
    m.apply_event(BackendEvent::Snapshot {
        kind: ResourceKind::Service,
        snapshot: ResourceSnapshot { rows: vec![row("svc")], revision: 1 },
    });
    assert_eq!(m.row_count, 0);
    m.apply_event(BackendEvent::Snapshot {
        kind: ResourceKind::Pod,
        snapshot: ResourceSnapshot { rows: vec![row("a"), row("b")], revision: 2 },
    });
    assert_eq!(m.row_count, 2);
    assert_eq!(m.current_rows().len(), 2);
    assert_eq!(m.selected_name(), Some("a".to_string()));
    m.apply_event(BackendEvent::Snapshot {
        kind: ResourceKind::Pod,
        snapshot: ResourceSnapshot { rows: vec![row("c")], revision: 3 },
    });
    assert_eq!(m.snapshots.len(), 2);
    assert_eq!(m.selected_name(), Some("c".to_string()));
}

#[test]
fn status_messages_for_operations() {
    let mut m = model();
    let fx = m.apply_event(BackendEvent::WorkloadScaled { kind: ResourceKind::Deployment, name: "api".into(), replicas: 3 });
    assert_eq!(m.status_message, "Scaled Deployment api to 3 replicas");
    assert_eq!(sent(&fx), vec!["RefreshList"]);
    m.apply_event(BackendEvent::CronJobSuspendChanged { name: "nightly".into(), suspended: false });
    assert_eq!(m.status_message, "Resumed CronJob nightly");
    m.apply_event(BackendEvent::YamlApplied { resources: vec!["a".into(), "b".into()] });
    assert_eq!(m.status_message, "Applied: a, b");
    assert!(!m.apply_yaml_open);
    m.apply_event(BackendEvent::ResourceDeleted { kind: ResourceKind::Pod, name: "x".into() });
    assert_eq!(m.status_message, "Deleted Pod x");
    assert_eq!(m.selected_row, None);
    m.apply_event(BackendEvent::Error("boom".into()));
    assert_eq!(m.error_message.as_deref(), Some("boom"));
    assert!(!m.connecting);
}

#[test]
fn port_forward_list_is_kept_by_id() {
    let mut m = model();
    let info = PortForwardInfo { id: 1, label: "Pod/web:80".into(), local_port: 8080, remote_port: 80 };
    m.apply_event(BackendEvent::PortForwardStarted { info: info.clone() });
    assert_eq!(m.status_message, "Port-forward Pod/web:80 → localhost:8080");
    m.apply_event(BackendEvent::PortForwardStarted { info: PortForwardInfo { local_port: 9090, ..info } });
    assert_eq!(m.port_forwards.len(), 1);
    assert_eq!(m.port_forwards[0].local_port, 9090);
    m.apply_event(BackendEvent::PortForwardStopped { id: 1 });
    assert!(m.port_forwards.is_empty());
}

#[test]
fn containers_for_menu_pick_default() {
    let mut m = model();
    m.apply_event(BackendEvent::ContainersLoaded {
        tab_id: None,
        pod_name: "web".into(),
        containers: vec![
            ContainerInfo { name: "init".into(), ready: false, image: "-".into() },
            ContainerInfo { name: "app".into(), ready: true, image: "-".into() },
        ],
    });
    assert_eq!(m.menu_containers_pod.as_deref(), Some("web"));
    assert_eq!(m.selected_container.as_deref(), Some("app"));
}

#[test]
fn log_tab_flows() {
    let mut m = model();
    m.active_context = "prod".into();
    m.active_namespace = "ns".into();
    let fx = m.open_pod_logs("web".into(), None);
    assert_eq!(sent(&fx).len(), 3);
    let id = m.log_tabs.active_id().unwrap();
    // Containers arrive: the tab takes the default one and starts streaming.
    let fx = m.apply_event(BackendEvent::ContainersLoaded {
        tab_id: Some(id),
        pod_name: "web".into(),
        containers: vec![ContainerInfo { name: "app".into(), ready: true, image: "-".into() }],
    });
    assert_eq!(sent(&fx), vec![format!("StartLogs {{ tab_id: {id}, pod_name: \"web\", container: Some(\"app\") }}")]);
    let fx = m.fetch_older_logs(id, true);
    assert_eq!(fx.len(), 1);
    assert!(m.log_tabs.active_tab().unwrap().loading_older);
    assert!(m.fetch_older_logs(id, true).is_empty());
    m.apply_event(BackendEvent::LogError { tab_id: id, message: "failed".into() });
    assert!(!m.log_tabs.active_tab().unwrap().loading_older);
    assert_eq!(m.log_tabs.active_tab().unwrap().lines(), &["failed".to_string()]);
    let fx = m.restart_active_log_stream(true);
    assert_eq!(fx.len(), 1);
    assert!(m.log_tabs.active_tab().unwrap().is_empty());
    assert_eq!(sent(&m.close_log_tab(id)), vec![format!("CloseLog {{ tab_id: {id} }}")]);
    assert!(m.close_log_tab(id).is_empty());
}

#[test]
fn logs_only_for_pods() {
    let mut m = model();
    m.selected_kind = ResourceKind::Service;
    assert!(m.start_logs_for_selection().is_empty());
    assert_eq!(m.error_message.as_deref(), Some("Logs are only available for pods."));
}

#[test]
fn desired_replicas_from_ready_column() {
    assert_eq!(parse_desired_replicas("2/3"), Some(3));
    assert_eq!(parse_desired_replicas("2/ 5 "), Some(5));
    assert_eq!(parse_desired_replicas("1/2/3"), Some(2));
    assert_eq!(parse_desired_replicas("3"), None);
    assert_eq!(parse_desired_replicas("a/b"), None);
}

#[test]
fn palette_entries() {
    let pod = palette_actions(ThemeMode::Dark, ResourceKind::Pod);
    assert_eq!(pod.len(), 13);
    assert_eq!(pod[6].label, "Switch to light theme");
    assert_eq!(pod[8].command, PaletteCommand::Logs);
    let svc = palette_actions(ThemeMode::Light, ResourceKind::Service);
    assert_eq!(svc.len(), 10);
    assert_eq!(svc[6].label, "Switch to dark theme");
    assert_eq!(palette_actions(ThemeMode::Dark, ResourceKind::Node).len(), 8);
    assert!(palette_entry_matches("Apply YAML", "yaml"));
    assert!(palette_entry_matches("Apply YAML", ""));
    assert!(!palette_entry_matches("Apply YAML", "logs"));
}

#[test]
fn ready_string_total_reads_back() {
    for (ready, total) in [(0, 0), (-3, 7), (12, 120), (i32::MIN, i32::MAX)] {
        let text = rl_core::resources::pod_ready_string(ready, total);
        assert_eq!(parse_desired_replicas(&text), Some(total as u32));
    }
    assert_eq!(parse_desired_replicas(&rl_core::resources::pod_ready_string(1, -1)), None);
}
