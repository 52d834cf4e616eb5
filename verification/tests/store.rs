use rl_core::resources::{ResourceKind, ResourceRow};
use rl_core::store::{RowMap, StoreState, WatchDelta};

fn row(name: &str, status: &str) -> ResourceRow {
    ResourceRow::new(name.into(), "ns".into(), "-".into(), status.into(), "-".into(), "-".into())
}

fn names(m: &RowMap) -> Vec<String> {
    m.sorted_rows().into_iter().map(|r| r.name).collect()
}

#[test]
fn upserts_keep_name_order_and_replace() {
    let mut m = RowMap::new();
    m.apply_delta(WatchDelta::Upsert(row("web", "Pending")));
    m.apply_delta(WatchDelta::Upsert(row("api", "Running")));
    m.apply_delta(WatchDelta::Upsert(row("db", "Running")));
    assert_eq!(names(&m), vec!["api", "db", "web"]);
    m.apply_delta(WatchDelta::Upsert(row("web", "Running")));
    let rows = m.sorted_rows();
    assert_eq!(rows.len(), 3);
    assert_eq!(rows[2].status, "Running");
}

#[test]
fn removals_and_ignored_events() {
    let mut m = RowMap::new();
    m.apply_delta(WatchDelta::Upsert(row("a", "x")));
    m.apply_delta(WatchDelta::Upsert(row("b", "x")));
    m.apply_delta(WatchDelta::Remove("a".into()));
    assert_eq!(names(&m), vec!["b"]);
    m.apply_delta(WatchDelta::Remove("missing".into()));
    m.apply_delta(WatchDelta::Noop);
    m.apply_delta(WatchDelta::Upsert(row("", "x")));
    assert_eq!(names(&m), vec!["b"]);
}

#[test]
fn snapshots_carry_rows_and_revision() {
    let mut s = StoreState::new();
    assert_eq!(s.snapshot(ResourceKind::Pod).revision, 0);
    s.set_rows(ResourceKind::Pod, vec![row("p1", "Running")]);
    s.set_rows(ResourceKind::Service, vec![row("s1", "-"), row("s2", "-")]);
    let pods = s.snapshot(ResourceKind::Pod);
    assert_eq!(pods.revision, 2);
    assert_eq!(pods.rows.len(), 1);
    assert_eq!(pods.rows[0].name, "p1");
    assert_eq!(s.snapshot(ResourceKind::Service).rows.len(), 2);
    assert!(s.snapshot(ResourceKind::HelmRelease).rows.is_empty());
    assert!(s.snapshot(ResourceKind::Crd).rows.is_empty());
    let copy = s.duplicate();
    assert_eq!(copy.snapshot(ResourceKind::Service).rows[1].name, "s2");
}
