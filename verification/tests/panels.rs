use rl_core::panels::{
    contexts_matching, favorite_entry, jobs_of_cronjob, workload_tab_caption, FavoriteResource, running_pod_count, ListHeader, log_save_path, next_log_match, prev_log_match, row_matches_filter, EmbeddedTerminalState,
    LogPanelState, SettingsDialogState, SidebarState, StatusTone, TableState, Theme, ThemeMode,
};
use rl_core::plugins::{plugin_failures, LoggingPlugin, PluginRegistry, RusticlensPlugin};
use rl_core::resources::{ResourceKind, ResourceRow};

#[test]
fn theme_modes() {
    assert_eq!(ThemeMode::from_settings(Some("light")), ThemeMode::Light);
    assert_eq!(ThemeMode::from_settings(Some("Light")), ThemeMode::Dark);
    assert_eq!(ThemeMode::from_settings(None), ThemeMode::Dark);
    assert_eq!(ThemeMode::Dark.as_str(), "dark");
    assert_eq!(ThemeMode::Light.toggle(), ThemeMode::Dark);
    for m in [ThemeMode::Dark, ThemeMode::Light] {
        assert_eq!(m.toggle().toggle(), m);
        assert_eq!(ThemeMode::from_settings(Some(m.as_str())), m);
    }
}

#[test]
fn status_tones() {
    assert_eq!(Theme::status_tone("Running"), StatusTone::Success);
    assert_eq!(Theme::status_tone("TRUE"), StatusTone::Success);
    assert_eq!(Theme::status_tone("CrashLoopBackOff error"), StatusTone::Error);
    assert_eq!(Theme::status_tone("Failed"), StatusTone::Error);
    assert_eq!(Theme::status_tone("Progressing"), StatusTone::Warning);
    assert_eq!(Theme::status_tone("Pending"), StatusTone::Warning);
    assert_eq!(Theme::status_tone("Terminating"), StatusTone::Muted);
}

#[test]
fn table_selection_and_filter() {
    let rows = vec![ResourceRow::new("Web-API".into(), "n".into(), "-".into(), "-".into(), "-".into(), "-".into())];
    let t = TableState { selected: Some(0), checked: Default::default(), filter: String::new() };
    assert_eq!(t.selected_name(&rows), Some("Web-API"));
    let t = TableState { selected: Some(1), checked: Default::default(), filter: String::new() };
    assert_eq!(t.selected_name(&rows), None);
    assert!(row_matches_filter(&rows[0], ""));
    assert!(row_matches_filter(&rows[0], "web-a"));
    assert!(!row_matches_filter(&rows[0], "db"));
}

#[test]
fn log_panel_defaults_and_matches() {
    let mut s = LogPanelState::default();
    assert!(s.word_wrap && s.follow_tail && !s.show_timestamps);
    next_log_match(&mut s, 2);
    next_log_match(&mut s, 2);
    assert_eq!(s.filter_match_index, 0);
    prev_log_match(&mut s, 2);
    assert_eq!(s.filter_match_index, 1);
    assert_eq!(log_save_path(Some("/home/u"), "web/1 x"), "/home/u/rusticlens-web_1_x.log");
    assert_eq!(log_save_path(None, "a-b_c"), "./rusticlens-a-b_c.log");
}

#[test]
fn panel_states() {
    let mut t = EmbeddedTerminalState::new();
    assert!(!t.open);
    t.lines.push("x".into());
    t.open_for_pod("web".into());
    assert!(t.open && t.lines.is_empty() && t.pod_name == "web");
    t.close();
    assert!(!t.open && !t.running);
    let side = SidebarState::default();
    assert_eq!(side.selected_kind, ResourceKind::Pod);
    assert!(side.workloads_open && !side.helm_open);
    let mut d = SettingsDialogState::default();
    d.new_path = "leftover".into();
    d.status = Some("old".into());
    d.open_from_settings(vec!["/extra".into()], true);
    assert!(d.open && d.use_native_port_forward && d.new_path.is_empty() && d.status.is_none());
    assert_eq!(d.extra_paths, vec!["/extra".to_string()]);
}

struct Failing;

impl RusticlensPlugin for Failing {
    fn name(&self) -> &str {
        "failing"
    }
    fn on_cluster_connected(&self, context: &str) -> Result<(), String> {
        Err(format!("cannot handle {context}"))
    }
}

#[test]
fn plugin_failures_are_reported() {
    let mut reg = PluginRegistry::new();
    reg.register(Box::new(LoggingPlugin));
    reg.register(Box::new(Failing));
    let failures = reg.notify_connected("prod");
    assert_eq!(failures, vec![("failing".to_string(), "cannot handle prod".to_string())]);
    assert_eq!(LoggingPlugin.name(), "logging");
}

#[test]
fn cronjob_jobs_and_context_search() {
    let job = |name: &str, owner: &str| {
        let mut r = ResourceRow::new(name.into(), "ns".into(), "1/1".into(), "Complete".into(), "0".into(), "1m".into());
        r.owner = owner.into();
        r
    };
    let rows = vec![job("a-1", "a"), job("b-1", "b"), job("a-2", "a"), job("x", "-")];
    assert_eq!(jobs_of_cronjob(&rows, "a"), vec![0, 2]);
    assert!(jobs_of_cronjob(&rows, "zzz").is_empty());
    let contexts = vec!["Prod-EU".to_string(), "dev".to_string(), "prod-us".to_string()];
    assert_eq!(contexts_matching(&contexts, "prod"), vec![0, 2]);
    assert_eq!(contexts_matching(&contexts, ""), vec![0, 1, 2]);
    assert!(contexts_matching(&contexts, "stage").is_empty());
}

#[test]
fn overview_counts_running_pods_in_any_case() {
    let pod = |status: &str| ResourceRow::new("p".into(), "ns".into(), "1/1".into(), status.into(), "0".into(), "1m".into());
    let rows = vec![pod("Running"), pod("RUNNING"), pod("Pending"), pod("running"), pod("Runnings"), pod("CrashLoopBackOff")];
    assert_eq!(running_pod_count(&rows), 3);
    assert_eq!(running_pod_count(&[]), 0);
}

#[test]
fn list_header_texts_and_namespace_pick() {
    let namespaces = vec!["default".to_string(), "kube-system".to_string()];
    let mut filter = String::new();
    let mut picked: Vec<String> = Vec::new();
    let mut on_namespace = |ns: String| picked.push(ns);
    let mut header = ListHeader {
        kind: ResourceKind::Pod,
        row_count: 12,
        namespace: "default",
        namespaces: &namespaces,
        filter: &mut filter,
        on_namespace: &mut on_namespace,
    };
    assert_eq!(header.count_text(), "12 items");
    assert_eq!(header.search_hint(), "Search Pods...");
    assert!(header.is_current(0));
    assert!(!header.is_current(1));
    header.pick(1);
    assert_eq!(picked, vec!["kube-system".to_string()]);
}

#[test]
fn settings_dialog_paths_and_save_outcomes() {
    let mut d = SettingsDialogState::default();
    d.open_from_settings(vec!["/a".into()], false);
    d.new_path = "  /b  ".into();
    d.add_new_path();
    assert_eq!(d.extra_paths, vec!["/a".to_string(), "/b".to_string()]);
    assert!(d.new_path.is_empty());
    d.new_path = "/a".into();
    d.add_new_path();
    assert_eq!(d.extra_paths.len(), 2);
    assert_eq!(d.new_path, "/a");
    d.new_path = "   ".into();
    d.add_new_path();
    assert_eq!(d.extra_paths.len(), 2);
    d.remove_path(0);
    assert_eq!(d.extra_paths, vec!["/b".to_string()]);

    let failed = d.save_finished(Err("disk full".into()));
    assert!(!failed.saved && !failed.reload_contexts);
    assert!(d.open);
    assert_eq!(d.status.as_deref(), Some("Failed to save settings: disk full"));

    let saved = d.save_finished(Ok(()));
    assert!(saved.saved && saved.reload_contexts);
    assert!(!d.open);
    assert_eq!(d.status.as_deref(), Some("Saved. Reloading contexts..."));

    d.open_from_settings(vec![], true);
    d.status = Some("x".into());
    d.dismiss();
    assert!(!d.open && d.status.is_none());
}

#[test]
fn table_filter_hides_rows_and_their_selection() {
    let row = |name: &str| ResourceRow::new(name.into(), "ns".into(), "1/1".into(), "Running".into(), "0".into(), "1m".into());
    let rows = vec![row("api-server"), row("db"), row("API-gateway")];
    let mut t = TableState { selected: Some(1), checked: Default::default(), filter: "api".into() };
    assert_eq!(t.visible_rows(&rows), vec![0, 2]);
    t.drop_hidden_selection(&rows);
    assert_eq!(t.selected, None);
    t.selected = Some(2);
    t.drop_hidden_selection(&rows);
    assert_eq!(t.selected, Some(2));
    t.selected = Some(7);
    t.drop_hidden_selection(&rows);
    assert_eq!(t.selected, None);
    t.filter.clear();
    assert_eq!(t.visible_rows(&rows), vec![0, 1, 2]);

    t.set_checked(1, true);
    assert!(t.is_checked(1) && !t.is_checked(0));
    t.set_checked(1, false);
    assert!(!t.is_checked(1));
}

#[test]
fn sidebar_navigation_and_captions() {
    let mut side = SidebarState::default();
    side.select_kind(ResourceKind::ConfigMap);
    assert!(!side.show_overview && side.selected_kind == ResourceKind::ConfigMap);
    side.select_overview();
    assert!(side.show_overview && side.selected_kind == ResourceKind::ConfigMap);
    assert!(side.is_highlighted(ResourceKind::ConfigMap, false));
    assert!(!side.is_highlighted(ResourceKind::ConfigMap, true));
    side.select_overview_tab();
    assert!(side.show_overview && side.selected_kind == ResourceKind::Pod);
    assert!(side.workloads_open && !side.config_open);

    assert_eq!(workload_tab_caption(ResourceKind::Pod), "Pod");
    assert_eq!(workload_tab_caption(ResourceKind::CronJob), "Cron Job");
    assert_eq!(workload_tab_caption(ResourceKind::Deployment), "Deployment");
    let fav = FavoriteResource { kind: "Deployment".into(), namespace: "ns".into(), name: "web".into() };
    assert_eq!(favorite_entry(&fav), "  Deployment / web");
}

#[test]
fn plugin_failures_pair_names_with_errors_in_order() {
    let names = vec!["a".to_string(), "b".to_string(), "c".to_string()];
    let answers = vec![Err("x".to_string()), Ok(()), Err("z".to_string())];
    assert_eq!(
        plugin_failures(names, answers),
        vec![("a".to_string(), "x".to_string()), ("c".to_string(), "z".to_string())]
    );
    assert!(plugin_failures(vec!["a".into()], vec![Ok(())]).is_empty());
}
