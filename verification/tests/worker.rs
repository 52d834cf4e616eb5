use rl_core::backend::{
    allocate_port_forward_id, port_forward_info, push_all_snapshots, use_native_forward,
    BackendEvent, ExclusiveSlot,
};
use rl_core::resources::{ResourceKind, ResourceRow};
use rl_core::scope_cache::ScopeCache;
use rl_core::store::StoreState;

#[test]
fn second_exclusive_request_is_busy() {
    let mut slot = ExclusiveSlot::new();
    assert!(slot.try_begin(false).is_none());
    assert!(!slot.held);
    slot.take();
    assert!(matches!(slot.try_begin(false), Some(BackendEvent::Busy)));
    assert!(slot.held);
    // The running operation ended without reporting yet: the slot is freed
    // for the next one.
    assert!(slot.try_begin(true).is_none());
    assert!(!slot.held);
    slot.take();
    slot.finish();
    assert!(!slot.held);
    assert!(slot.try_begin(false).is_none());
}

#[test]
fn snapshots_pushed_for_watched_kinds() {
    let mut store = StoreState::new();
    store.set_rows(
        ResourceKind::Pod,
        vec![ResourceRow::new("p".into(), "n".into(), "-".into(), "-".into(), "-".into(), "-".into())],
    );
    let events = push_all_snapshots(&store);
    assert_eq!(events.len(), 18);
    let mut kinds = Vec::new();
    for e in &events {
        match e {
            BackendEvent::Snapshot { kind, snapshot } => {
                kinds.push(*kind);
                assert_eq!(snapshot.revision, 1);
                if *kind == ResourceKind::Pod {
                    assert_eq!(snapshot.rows.len(), 1);
                }
            }
            _ => panic!("only snapshots"),
        }
    }
    assert_eq!(kinds[0], ResourceKind::Pod);
    assert!(!kinds.contains(&ResourceKind::HelmRelease));
    assert!(!kinds.contains(&ResourceKind::Crd));
}

#[test]
fn port_forward_bookkeeping() {
    let info = port_forward_info(7, ResourceKind::Pod, "web-1", 8080, 80);
    assert_eq!(info.label, "Pod/web-1:80");
    assert_eq!((info.id, info.local_port, info.remote_port), (7, 8080, 80));
    assert!(use_native_forward(true, ResourceKind::Pod));
    assert!(!use_native_forward(true, ResourceKind::Service));
    assert!(!use_native_forward(false, ResourceKind::Pod));
    let mut next = 1;
    assert_eq!(allocate_port_forward_id(&mut next), 1);
    assert_eq!(allocate_port_forward_id(&mut next), 2);
    assert_eq!(next, 3);
}

#[test]
fn scope_cache_restores_saved_lists() {
    let mut cache = ScopeCache::new();
    assert!(cache.restore("ctx", "ns").is_none());
    let mut store = StoreState::new();
    store.set_rows(
        ResourceKind::Deployment,
        vec![ResourceRow::new("d".into(), "ns".into(), "-".into(), "-".into(), "-".into(), "-".into())],
    );
    cache.save("ctx", "ns", &store);
    cache.save("ctx", "other", &StoreState::new());
    let back = cache.restore("ctx", "ns").unwrap();
    assert_eq!(back.snapshot(ResourceKind::Deployment).rows[0].name, "d");
    assert!(cache.restore("ctx", "other").unwrap().snapshot(ResourceKind::Deployment).rows.is_empty());
    cache.save("ctx", "ns", &StoreState::new());
    assert!(cache.restore("ctx", "ns").unwrap().snapshot(ResourceKind::Deployment).rows.is_empty());
    assert!(cache.restore_crds("ctx").is_none());
    cache.save_crds("ctx", Vec::new());
    assert_eq!(cache.restore_crds("ctx").map(|v| v.len()), Some(0));
}
