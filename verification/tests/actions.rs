use rl_core::actions::{apply_yaml_command, scale_command, KeyInput};
use rl_core::backend::{BackendCommand, BackendEvent, PortForwardInfo};
use rl_core::detail::{DetailSearchState, DetailState, DetailTab};
use rl_core::log_tabs::LogTabsState;
use rl_core::panels::{
    LogContentAction, SettingsDialogAction, ClusterTabAction, FavoriteResource, IconRailAction, RowContextAction, SidebarAction, ThemeMode,
};
use rl_core::resources::{ResourceKind, ResourceRow};
use rl_core::store::ResourceSnapshot;
use rl_core::window::{PaletteCommand, ScaleDialog, WindowEffect, WindowModel};
use rl_core::worker::{
    ClusterRequest, ExclusiveJob, ExclusiveOutcome, WorkerState, WorkerStep,
};

fn model() -> WindowModel {
    WindowModel {
        connecting: false,
        connected: true,
        status_message: String::new(),
        error_message: None,
        active_context: "prod".into(),
        active_namespace: "web".into(),
        contexts: vec!["dev".into(), "prod".into()],
        namespaces: vec!["web".into()],
        crd_targets: Vec::new(),
        pinned_contexts: vec!["prod".into()],
        cluster_tabs: vec!["prod".into()],
        snapshots: Vec::new(),
        selected_kind: ResourceKind::Pod,
        row_count: 0,
        selected_row: None,
        detail: DetailState {
            tab: DetailTab::Describe,
            yaml: "y".into(),
            events: "e".into(),
            metrics: "m".into(),
            resource_name: "r".into(),
        },
        log_tabs: LogTabsState::new(),
        menu_containers_pod: None,
        containers: Vec::new(),
        selected_container: None,
        dashboard: None,
        port_forwards: Vec::new(),
        apply_yaml_open: false,
        scale_dialog: None,
        delete_confirm: None,
        theme_mode: ThemeMode::Dark,
        favorites: Vec::new(),
        show_overview: false,
        pending_favorite_select: None,
        palette_open: false,
        palette_query: String::new(),
        detail_search: DetailSearchState::default(),
        context_menu_open: true,
        focus_log_filter: false,
    }
}

fn row(name: &str, ready: &str) -> ResourceRow {
    ResourceRow::new(name.into(), "web".into(), ready.into(), "Running".into(), "0".into(), "1m".into())
}

fn with_rows(kind: ResourceKind, rows: Vec<ResourceRow>) -> WindowModel {
    let mut m = model();
    m.selected_kind = kind;
    m.apply_event(BackendEvent::Snapshot { kind, snapshot: ResourceSnapshot { rows, revision: 1 } });
    m
}

fn show(fx: &[WindowEffect]) -> Vec<String> {
    fx.iter().map(|e| format!("{e:?}")).collect()
}

#[test]
fn row_menu_selects_then_acts() {
    let mut m = with_rows(ResourceKind::Deployment, vec![row("api", "1/3"), row("worker", "2/2")]);
    let fx = m.handle_row_context(ResourceKind::Deployment, 1, RowContextAction::Restart);
    assert_eq!(m.selected_row, Some(1));
    assert_eq!(show(&fx), vec!["Send(RestartDeployment { name: \"worker\" })"]);
    let fx = m.handle_row_context(ResourceKind::Deployment, 0, RowContextAction::Scale);
    assert!(fx.is_empty());
    let dialog = m.scale_dialog.as_ref().unwrap();
    assert_eq!((dialog.name.as_str(), dialog.replicas), ("api", 3));
    let fx = m.handle_row_context(ResourceKind::Deployment, 0, RowContextAction::Edit);
    assert_eq!(show(&fx), vec!["CopyText(\"kubectl edit -n web deployment api\")"]);
    assert_eq!(m.status_message, "Copied kubectl edit command.");
    m.handle_row_context(ResourceKind::Deployment, 0, RowContextAction::ForceDelete);
    assert_eq!(m.delete_confirm, Some((ResourceKind::Deployment, "api".to_string(), true)));
    // Past the rows: selected, nothing else.
    let fx = m.handle_row_context(ResourceKind::Deployment, 7, RowContextAction::Trigger);
    assert!(fx.is_empty());
    assert_eq!(m.selected_row, Some(7));
}

#[test]
fn row_menu_statefulset_restart_and_forward() {
    let mut m = with_rows(ResourceKind::StatefulSet, vec![row("db", "1/1")]);
    let fx = m.handle_row_context(ResourceKind::StatefulSet, 0, RowContextAction::Restart);
    assert_eq!(show(&fx), vec!["Send(RestartStatefulSet { name: \"db\" })"]);
    let fx = m.handle_row_context(ResourceKind::StatefulSet, 0, RowContextAction::PortForward { remote_port: 5432 });
    assert_eq!(
        show(&fx),
        vec!["Send(StartPortForward { kind: StatefulSet, name: \"db\", local_port: 5432, remote_port: 5432 })"]
    );
    let fx = m.handle_row_context(ResourceKind::StatefulSet, 0, RowContextAction::Suspend);
    assert_eq!(show(&fx), vec!["Send(SetCronjobSuspended { name: \"db\", suspend: true })"]);
}

#[test]
fn row_menu_shell_and_logs() {
    let mut m = with_rows(ResourceKind::Pod, vec![row("web-1", "1/1")]);
    let fx = m.handle_row_context(ResourceKind::Pod, 0, RowContextAction::Shell { container: Some("app".into()) });
    match &fx[..] {
        [WindowEffect::LaunchTerminal { namespace, pod_name, container, attach, success }] => {
            assert_eq!((namespace.as_str(), pod_name.as_str()), ("web", "web-1"));
            assert_eq!(container.as_deref(), Some("app"));
            assert!(!attach);
            assert_eq!(success, "Opened shell in external terminal.");
        }
        other => panic!("unexpected {other:?}"),
    }
    m.terminal_launched(Err("no terminal".into()), "x".into());
    assert_eq!(m.error_message.as_deref(), Some("no terminal"));
    m.terminal_launched(Ok(()), "Opened".into());
    assert_eq!(m.status_message, "Opened");
    let fx = m.handle_row_context(ResourceKind::Pod, 0, RowContextAction::Logs { container: None });
    assert_eq!(fx.len(), 3);
    assert_eq!(m.log_tabs.tabs().len(), 1);
}

#[test]
fn row_menu_favorites() {
    let mut m = with_rows(ResourceKind::Pod, vec![row("web-1", "1/1")]);
    let fx = m.handle_row_context(ResourceKind::Pod, 0, RowContextAction::PinFavorite);
    assert_eq!(show(&fx), vec!["PersistFavorites"]);
    assert_eq!(m.status_message, "Pinned to favorites.");
    assert_eq!(m.favorites.len(), 1);
    assert_eq!(m.favorites[0].kind, "Pod");
    let fx = m.handle_row_context(ResourceKind::Pod, 0, RowContextAction::PinFavorite);
    assert!(fx.is_empty());
    assert_eq!(m.status_message, "Already in favorites.");
    assert_eq!(m.favorites.len(), 1);
}

#[test]
fn palette_commands_close_the_palette() {
    let mut m = with_rows(ResourceKind::Pod, vec![row("web-1", "1/1")]);
    m.selected_row = Some(0);
    m.selected_container = Some("app".into());
    m.palette_open = true;
    m.palette_query = "exec".into();
    let fx = m.run_palette_command(PaletteCommand::CopyExec);
    assert_eq!(show(&fx), vec!["CopyText(\"kubectl exec -it -n web web-1 -c app -- /bin/sh\")"]);
    assert_eq!(m.status_message, "Copied kubectl exec command.");
    assert!(!m.palette_open && m.palette_query.is_empty());
    let fx = m.run_palette_command(PaletteCommand::CopyPortForward);
    assert_eq!(show(&fx), vec!["CopyText(\"kubectl port-forward -n web pod/web-1 8080:80\")"]);
    let fx = m.run_palette_command(PaletteCommand::Events);
    assert_eq!(show(&fx), vec!["Send(FetchEvents { kind: Pod, name: \"web-1\" })"]);
    assert_eq!(m.detail.tab, DetailTab::Events);
    let fx = m.run_palette_command(PaletteCommand::ToggleTheme);
    assert_eq!(show(&fx), vec!["PersistTheme"]);
    assert_eq!(m.theme_mode, ThemeMode::Light);
    m.run_palette_command(PaletteCommand::ApplyYaml);
    assert!(m.apply_yaml_open);
    let fx = m.run_palette_command(PaletteCommand::Refresh);
    assert_eq!(show(&fx), vec!["Send(RefreshWatch)"]);
    m.run_palette_command(PaletteCommand::Delete);
    assert_eq!(m.delete_confirm, Some((ResourceKind::Pod, "web-1".to_string(), false)));
    let fx = m.run_palette_command(PaletteCommand::Metrics);
    assert_eq!(show(&fx), vec!["Send(FetchMetrics)"]);
    assert_eq!(m.detail.tab, DetailTab::Metrics);
}

#[test]
fn keyboard_shortcuts() {
    let mut m = with_rows(ResourceKind::Pod, vec![row("web-1", "1/1")]);
    m.selected_row = Some(0);
    // Ctrl+K opens the palette; nothing else runs.
    let fx = m.handle_keyboard(KeyInput { palette: true, refresh: true, ..KeyInput::default() });
    assert!(fx.is_empty() && m.palette_open);
    m.palette_open = false;
    // A text field holds the keyboard: shortcuts are ignored.
    let fx = m.handle_keyboard(KeyInput { text_focused: true, refresh: true, ..KeyInput::default() });
    assert!(fx.is_empty());
    // R, D and E in one frame, in that order.
    let fx = m.handle_keyboard(KeyInput { refresh: true, describe: true, events: true, ..KeyInput::default() });
    assert_eq!(
        show(&fx),
        vec![
            "Send(RefreshWatch)",
            "Send(FetchYaml { kind: Pod, name: \"web-1\" })",
            "Send(FetchEvents { kind: Pod, name: \"web-1\" })",
        ]
    );
    assert_eq!(m.detail.tab, DetailTab::Events);
    // Ctrl+F focuses the search; Escape then closes the detail pane.
    m.handle_keyboard(KeyInput { search: true, ..KeyInput::default() });
    assert!(m.detail_search.focus_field);
    m.handle_keyboard(KeyInput { escape: true, ..KeyInput::default() });
    assert_eq!(m.selected_row, None);
    assert!(m.detail.yaml.is_empty());
    assert!(!m.detail_search.focus_field);
}

#[test]
fn cluster_tab_bar() {
    let mut m = model();
    let fx = m.apply_cluster_tab_action(ClusterTabAction::Select("prod".into()));
    assert!(fx.is_empty());
    let fx = m.apply_cluster_tab_action(ClusterTabAction::Add("dev".into()));
    assert_eq!(show(&fx), vec!["PersistClusterTabs", "Send(SwitchContext(\"dev\"))"]);
    assert_eq!(m.cluster_tabs, vec!["prod".to_string(), "dev".to_string()]);
    let fx = m.apply_cluster_tab_action(ClusterTabAction::Select("dev".into()));
    assert_eq!(show(&fx), vec!["Send(SwitchContext(\"dev\"))"]);
    assert_eq!(m.status_message, "Switching to dev...");
    // Closing the active context's tab switches to the first one left.
    let fx = m.apply_cluster_tab_action(ClusterTabAction::Close("prod".into()));
    assert_eq!(show(&fx), vec!["PersistClusterTabs", "Send(SwitchContext(\"dev\"))"]);
    assert_eq!(m.cluster_tabs, vec!["dev".to_string()]);
}

#[test]
fn icon_rail_actions() {
    let mut m = model();
    let fx = m.apply_icon_rail_action(IconRailAction {
        switch_to: Some("dev".into()),
        show_overview: true,
        pin: Some("dev".into()),
        unpin: None,
        open_settings: true,
    });
    assert_eq!(show(&fx), vec!["Send(SwitchContext(\"dev\"))", "PersistPinnedContexts", "OpenSettingsDialog"]);
    assert!(m.show_overview && !m.context_menu_open);
    assert_eq!(m.pinned_contexts, vec!["prod".to_string(), "dev".to_string()]);
    m.apply_icon_rail_action(IconRailAction { unpin: Some("prod".into()), ..IconRailAction::default() });
    assert_eq!(m.pinned_contexts, vec!["dev".to_string()]);
    // The last pinned context stays.
    let fx = m.apply_icon_rail_action(IconRailAction { unpin: Some("dev".into()), ..IconRailAction::default() });
    assert!(fx.is_empty());
    assert_eq!(m.pinned_contexts, vec!["dev".to_string()]);
}

#[test]
fn sidebar_favorites() {
    let mut m = model();
    m.show_overview = true;
    let fav = FavoriteResource { kind: "Deployment".into(), namespace: "api".into(), name: "gw".into() };
    m.favorites.push(fav.clone());
    let fx = m.apply_sidebar_action(SidebarAction { selected_favorite: Some(fav.clone()), unpin_favorite: None });
    assert_eq!(
        show(&fx),
        vec!["Send(SetActiveKind(Deployment))", "Send(SetNamespace(\"api\"))", "Send(RefreshList)"]
    );
    assert!(!m.show_overview);
    assert_eq!(m.selected_kind, ResourceKind::Deployment);
    assert_eq!(m.pending_favorite_select.as_deref(), Some("gw"));
    let fx = m.apply_sidebar_action(SidebarAction { selected_favorite: None, unpin_favorite: Some(fav) });
    assert_eq!(show(&fx), vec!["PersistFavorites"]);
    assert!(m.favorites.is_empty());
    assert_eq!(m.status_message, "Removed from favorites.");
    let unknown = FavoriteResource { kind: "Gadget".into(), namespace: "-".into(), name: "x".into() };
    let fx = m.apply_sidebar_action(SidebarAction { selected_favorite: Some(unknown), unpin_favorite: None });
    assert!(fx.is_empty());
}

#[test]
fn scale_dialog_command() {
    let d = ScaleDialog { kind: ResourceKind::StatefulSet, name: "db".into(), replicas: 4 };
    assert_eq!(format!("{:?}", scale_command(&d)), "Some(ScaleStatefulSet { name: \"db\", replicas: 4 })");
    let d = ScaleDialog { kind: ResourceKind::Pod, name: "p".into(), replicas: 1 };
    assert!(scale_command(&d).is_none());
}

#[test]
fn worker_busy_and_disconnected() {
    let mut w = WorkerState::new(ResourceKind::Pod);
    // Without a connection, requests are dropped.
    let (go, steps) = w.plan_command(BackendCommand::FetchMetrics, true, false, None);
    assert!(go && steps.is_empty());
    let (_, steps) = w.plan_command(BackendCommand::ConnectDefault, true, false, None);
    assert_eq!(format!("{steps:?}"), "[Emit(Connecting), Begin(ConnectDefault)]");
    // A second exclusive request while the first runs is answered Busy.
    let (_, steps) = w.plan_command(BackendCommand::Reconnect, false, false, Some("prod".into()));
    assert_eq!(format!("{steps:?}"), "[Emit(Busy)]");
    let steps = w.finish_exclusive(ExclusiveOutcome::Connected {
        fresh_manager: true,
        context: "prod".into(),
        namespace: "web".into(),
        contexts: vec!["prod".into()],
        namespaces: vec!["web".into()],
        crd_targets: Vec::new(),
        active_kind: ResourceKind::Pod,
    });
    assert!(w.connected && !w.slot.held);
    assert_eq!(steps.len(), 3);
    assert!(matches!(steps[2], WorkerStep::Emit(BackendEvent::Connected { .. })));
    let (_, steps) = w.plan_command(BackendCommand::Reconnect, true, false, Some("prod".into()));
    assert!(matches!(&steps[1], WorkerStep::Begin(ExclusiveJob::Connect(c)) if c == "prod"));
    let steps = w.finish_exclusive(ExclusiveOutcome::Failed("down".into()));
    assert_eq!(format!("{steps:?}"), "[Emit(Error(\"down\"))]");
}

#[test]
fn worker_requests_and_forwards() {
    let mut w = WorkerState::new(ResourceKind::Pod);
    w.connected = true;
    let (_, steps) = w.plan_command(
        BackendCommand::FetchOlderLogs {
            tab_id: 4,
            pod_name: "web".into(),
            container: None,
            timestamps: false,
            tail_loaded: 2500,
        },
        true,
        false,
        None,
    );
    match &steps[..] {
        [WorkerStep::Request(ClusterRequest::OlderLogs { buffered, request_tail, .. })] => {
            assert_eq!((*buffered, *request_tail), (2000, 2500));
        }
        other => panic!("unexpected {other:?}"),
    }
    let fwd = |kind| BackendCommand::StartPortForward { kind, name: "x".into(), local_port: 1, remote_port: 2 };
    let (_, a) = w.plan_command(fwd(ResourceKind::Pod), true, true, None);
    let (_, b) = w.plan_command(fwd(ResourceKind::Service), true, true, None);
    match (&a[..], &b[..]) {
        (
            [WorkerStep::StartForward { id: i, native: n1, .. }],
            [WorkerStep::StartForward { id: j, native: n2, .. }],
        ) => {
            assert_eq!((*i, *j), (1, 2));
            assert!(*n1 && !*n2);
        }
        other => panic!("unexpected {other:?}"),
    }
    let (_, steps) = w.plan_command(BackendCommand::SetActiveKind(ResourceKind::Service), true, false, None);
    assert_eq!(w.active_kind, ResourceKind::Service);
    assert_eq!(format!("{steps:?}"), "[ActivateKind(Service)]");
    let (_, steps) = w.plan_command(BackendCommand::RefreshList, true, false, None);
    assert_eq!(format!("{steps:?}"), "[ListOnDemand(Service)]");
    let (_, steps) = w.plan_command(BackendCommand::StopPortForward { id: 1 }, true, false, None);
    assert_eq!(format!("{steps:?}"), "[StopForward(1), Emit(PortForwardStopped { id: 1 })]");
    let (go, steps) = w.plan_command(BackendCommand::Shutdown, true, false, None);
    assert!(!go);
    assert_eq!(format!("{steps:?}"), "[StopAllForwards]");
}

#[test]
fn closing_the_window_stops_everything() {
    let mut m = model();
    m.selected_container = Some("app".into());
    m.port_forwards = vec![
        PortForwardInfo { id: 3, label: "Pod/a:80".into(), local_port: 8080, remote_port: 80 },
        PortForwardInfo { id: 5, label: "Service/b:443".into(), local_port: 443, remote_port: 443 },
    ];
    let fx = m.on_exit();
    assert_eq!(
        show(&fx),
        vec![
            "Send(PersistSettings { kind: Pod, container: Some(\"app\") })",
            "Send(StopPortForward { id: 3 })",
            "Send(StopPortForward { id: 5 })",
            "Send(CloseAllLogs)",
            "Send(Shutdown)",
        ]
    );
    assert!(m.port_forwards.is_empty());
}

#[test]
fn apply_yaml_needs_more_than_whitespace() {
    assert!(apply_yaml_command("").is_none());
    assert!(apply_yaml_command(" \n\t ").is_none());
    let text = "apiVersion: v1\nkind: ConfigMap\n";
    match apply_yaml_command(text) {
        Some(BackendCommand::ApplyYaml { yaml }) => assert_eq!(yaml, text),
        other => panic!("unexpected {other:?}"),
    }
}

#[test]
fn saved_settings_reload_the_contexts() {
    let mut m = model();
    let fx = m.settings_dialog_done(&SettingsDialogAction { saved: true, reload_contexts: true });
    assert_eq!(m.status_message, "Reloading contexts from kubeconfig...");
    assert!(matches!(fx.as_slice(), [WindowEffect::Send(BackendCommand::Reconnect)]));
    let mut m = model();
    m.status_message = "kept".into();
    let fx = m.settings_dialog_done(&SettingsDialogAction::default());
    assert!(fx.is_empty());
    assert_eq!(m.status_message, "kept");
}

#[test]
fn confirmed_delete_is_sent_once() {
    let mut m = model();
    assert!(m.confirm_delete().is_empty());
    m.delete_confirm = Some((ResourceKind::Pod, "api-1".into(), true));
    let fx = m.confirm_delete();
    assert_eq!(show(&fx), vec![format!("{:?}", WindowEffect::Send(BackendCommand::DeleteResource {
        kind: ResourceKind::Pod,
        name: "api-1".into(),
        force: true,
    }))]);
    assert!(m.delete_confirm.is_none());
    m.delete_confirm = Some((ResourceKind::Pod, "api-1".into(), false));
    m.cancel_delete();
    assert!(m.delete_confirm.is_none());
}

#[test]
fn sidebar_changes_fetch_dashboard_or_reload_list() {
    let mut m = model();
    m.show_overview = true;
    let fx = m.on_sidebar_changed(ResourceKind::Pod, false);
    assert!(matches!(fx.as_slice(), [WindowEffect::Send(BackendCommand::FetchDashboard)]));

    let mut m = model();
    m.selected_row = Some(2);
    m.selected_kind = ResourceKind::Service;
    let fx = m.on_sidebar_changed(ResourceKind::Pod, false);
    assert!(matches!(
        fx.as_slice(),
        [
            WindowEffect::Send(BackendCommand::SetActiveKind(ResourceKind::Service)),
            WindowEffect::Send(BackendCommand::RefreshList),
            WindowEffect::Send(BackendCommand::PersistSettings { .. }),
        ]
    ));
    assert_eq!(m.selected_row, None);
    assert!(m.detail.yaml.is_empty());

    let mut m = model();
    assert!(m.on_sidebar_changed(ResourceKind::Pod, false).is_empty());
}

#[test]
fn log_container_switch_restarts_the_tab() {
    let mut m = model();
    let id = m.log_tabs.open_tab("prod".into(), "api-1".into(), "web".into(), Some("app".into()));
    m.log_tabs.push_line(id, "old line".into());
    let action = LogContentAction { container: Some((id, "sidecar".into())), ..Default::default() };
    let fx = m.apply_log_content_action(action, false);
    assert!(matches!(
        fx.as_slice(),
        [WindowEffect::Send(BackendCommand::StartLogs { pod_name, container: Some(c), .. })]
            if pod_name == "api-1" && c == "sidecar"
    ));
    let tab = m.log_tabs.tab(id).unwrap();
    assert_eq!(tab.container.as_deref(), Some("sidecar"));
    assert!(tab.is_empty());

    m.log_tabs.push_line(id, "a".into());
    m.log_tabs.push_line(id, "b".into());
    let fx = m.apply_log_content_action(LogContentAction { export_logs: true, ..Default::default() }, false);
    assert!(matches!(fx.as_slice(), [WindowEffect::CopyText(t)] if t == "a\nb"));
    assert_eq!(m.status_message, "Copied 2 log line(s) to clipboard.");

    let fx = m.apply_log_content_action(
        LogContentAction { status_message: Some("saved".into()), ..Default::default() },
        false,
    );
    assert!(fx.is_empty());
    assert_eq!(m.status_message, "saved");

    // A tab of another cluster keeps its container.
    let other = m.log_tabs.open_tab("dev".into(), "db-0".into(), "data".into(), None);
    let fx = m.apply_log_content_action(
        LogContentAction { container: Some((other, "x".into())), ..Default::default() },
        false,
    );
    assert!(fx.is_empty());
    assert_eq!(m.log_tabs.tab(other).unwrap().container, None);
}

#[test]
fn scale_dialog_sends_clamped_replicas() {
    let mut m = model();
    assert!(m.confirm_scale().is_empty());
    m.scale_dialog = Some(ScaleDialog { kind: ResourceKind::Deployment, name: "web".into(), replicas: 1 });
    m.set_scale_replicas(5000);
    let fx = m.confirm_scale();
    assert!(matches!(
        fx.as_slice(),
        [WindowEffect::Send(BackendCommand::ScaleDeployment { replicas: 1000, .. })]
    ));
    assert!(m.scale_dialog.is_some());
    m.cancel_scale();
    assert!(m.scale_dialog.is_none());
}
