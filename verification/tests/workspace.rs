use rl_core::panels::FavoriteResource;
use rl_core::resources::{ResourceKind, ResourceRow};
use rl_core::workspace::{
    close_cluster_tab, ensure_cluster_tab, initial_cluster_tabs, navigate_to_favorite, pin_context, pin_favorite,
    port_forward_ports_for_selection, sync_pinned_contexts, unpin_context, unpin_favorite,
};

fn v(xs: &[&str]) -> Vec<String> {
    xs.iter().map(|s| s.to_string()).collect()
}

#[test]
fn pinned_contexts_follow_the_context_list() {
    let pinned = v(&["old", "prod", "dev"]);
    let contexts = v(&["dev", "prod", "stage"]);
    assert_eq!(sync_pinned_contexts(&pinned, &contexts, "stage"), v(&["stage", "prod", "dev"]));
    assert_eq!(sync_pinned_contexts(&pinned, &contexts, "dev"), v(&["prod", "dev"]));
    assert_eq!(sync_pinned_contexts(&[], &contexts, "x"), v(&["x"]));
}

#[test]
fn pin_and_unpin_contexts() {
    let mut p = v(&["a"]);
    pin_context(&mut p, "b");
    pin_context(&mut p, "a");
    assert_eq!(p, v(&["a", "b"]));
    unpin_context(&mut p, "a");
    assert_eq!(p, v(&["b"]));
    unpin_context(&mut p, "b");
    assert_eq!(p, v(&["b"]));
}

#[test]
fn cluster_tabs_open_and_close() {
    let mut tabs = v(&["a"]);
    ensure_cluster_tab(&mut tabs, "b");
    ensure_cluster_tab(&mut tabs, "b");
    assert_eq!(tabs, v(&["a", "b"]));
    assert_eq!(close_cluster_tab(&mut tabs, "b", "a"), None);
    assert_eq!(tabs, v(&["a"]));
    assert_eq!(close_cluster_tab(&mut tabs, "a", "a"), Some("a".to_string()));
    assert_eq!(tabs, v(&["a"]));
    let mut tabs = v(&["a", "b", "c"]);
    assert_eq!(close_cluster_tab(&mut tabs, "b", "b"), Some("a".to_string()));
    assert_eq!(tabs, v(&["a", "c"]));
}

fn fav(kind: &str, ns: &str, name: &str) -> FavoriteResource {
    FavoriteResource { kind: kind.into(), namespace: ns.into(), name: name.into() }
}

#[test]
fn favorites_are_unique() {
    let mut favs = Vec::new();
    assert!(pin_favorite(&mut favs, fav("Pod", "ns", "web")));
    assert!(!pin_favorite(&mut favs, fav("Pod", "ns", "web")));
    assert!(pin_favorite(&mut favs, fav("Node", "-", "n1")));
    assert_eq!(favs.len(), 2);
    unpin_favorite(&mut favs, &fav("Pod", "ns", "web"));
    assert_eq!(favs.len(), 1);
    assert_eq!(favs[0].name, "n1");
}

#[test]
fn navigating_to_favorites() {
    let nav = navigate_to_favorite(&fav("Deployment", "prod", "api"), "dev").unwrap();
    assert_eq!(nav.kind, ResourceKind::Deployment);
    assert_eq!(nav.switch_namespace.as_deref(), Some("prod"));
    assert_eq!(nav.select, "api");
    let nav = navigate_to_favorite(&fav("Deployment", "dev", "api"), "dev").unwrap();
    assert_eq!(nav.switch_namespace, None);
    let nav = navigate_to_favorite(&fav("Node", "-", "n1"), "dev").unwrap();
    assert_eq!(nav.switch_namespace, None);
    assert!(navigate_to_favorite(&fav("Gadget", "x", "y"), "dev").is_none());
}

#[test]
fn port_forward_defaults_to_8080_to_80() {
    let mut svc = ResourceRow::new("s".into(), "n".into(), "-".into(), "-".into(), "-".into(), "-".into());
    svc.service_ports = vec![5432, 80];
    let plain = ResourceRow::new("p".into(), "n".into(), "-".into(), "-".into(), "-".into(), "-".into());
    let rows = vec![svc, plain];
    assert_eq!(port_forward_ports_for_selection(Some(0), &rows), (5432, 5432));
    assert_eq!(port_forward_ports_for_selection(Some(1), &rows), (8080, 80));
    assert_eq!(port_forward_ports_for_selection(Some(9), &rows), (8080, 80));
    assert_eq!(port_forward_ports_for_selection(None, &rows), (8080, 80));
}

#[test]
fn startup_tabs_fall_back_to_last_context() {
    assert_eq!(initial_cluster_tabs(v(&["a", "b"]), Some("c".into())), v(&["a", "b"]));
    assert_eq!(initial_cluster_tabs(Vec::new(), Some("c".into())), v(&["c"]));
    assert!(initial_cluster_tabs(Vec::new(), None).is_empty());
}
