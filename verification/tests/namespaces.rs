use rl_core::settings::{
    pick_namespace_for_context, remember_namespace_for_context, saved_namespace_for_context,
    SavedNamespaces,
};

fn names(v: &[&str]) -> Vec<String> {
    v.iter().map(|s| s.to_string()).collect()
}

#[test]
fn remembered_namespace_is_read_back() {
    let mut saved = SavedNamespaces::default();
    assert_eq!(saved_namespace_for_context(&saved, "prod"), None);
    remember_namespace_for_context(&mut saved, "prod", "payments");
    assert_eq!(saved_namespace_for_context(&saved, "prod"), Some("payments".to_string()));
    remember_namespace_for_context(&mut saved, "dev", "sandbox");
    assert_eq!(saved_namespace_for_context(&saved, "prod"), Some("payments".to_string()));
    assert_eq!(saved_namespace_for_context(&saved, "dev"), Some("sandbox".to_string()));
    remember_namespace_for_context(&mut saved, "prod", "billing");
    assert_eq!(saved_namespace_for_context(&saved, "prod"), Some("billing".to_string()));
    assert_eq!(saved.context_namespaces.len(), 2);
}

#[test]
fn last_context_is_a_fallback() {
    let saved = SavedNamespaces {
        last_context: Some("old".into()),
        last_namespace: Some("legacy".into()),
        context_namespaces: Vec::new(),
    };
    assert_eq!(saved_namespace_for_context(&saved, "old"), Some("legacy".to_string()));
    assert_eq!(saved_namespace_for_context(&saved, "other"), None);
}

#[test]
fn pick_prefers_saved_then_first_then_default() {
    let mut saved = SavedNamespaces::default();
    remember_namespace_for_context(&mut saved, "c", "team");
    assert_eq!(pick_namespace_for_context(&saved, "c", &names(&["a", "team"])), "team");
    assert_eq!(pick_namespace_for_context(&saved, "c", &names(&["a", "b"])), "a");
    assert_eq!(pick_namespace_for_context(&saved, "c", &[]), "team");
    assert_eq!(pick_namespace_for_context(&saved, "x", &names(&["z", "y"])), "y");
    assert_eq!(pick_namespace_for_context(&saved, "c", &names(&["b", "a"])), "a");
    assert_eq!(pick_namespace_for_context(&saved, "x", &[]), "default");
}
