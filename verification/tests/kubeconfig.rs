use rl_core::config::{
    choose_default_context, context_is_usable, current_context_name, kubeconfig_context_is_usable, list_contexts,
    ContextRef, KubeconfigSummary, NamedContext,
};

fn sample() -> KubeconfigSummary {
    KubeconfigSummary {
        contexts: vec![
            NamedContext {
                name: "good".into(),
                context: Some(ContextRef { cluster: "c1".into(), user: Some("u1".into()) }),
            },
            NamedContext {
                name: "no-user".into(),
                context: Some(ContextRef { cluster: "c1".into(), user: None }),
            },
            NamedContext {
                name: "bad-cluster".into(),
                context: Some(ContextRef { cluster: "gone".into(), user: Some("u1".into()) }),
            },
            NamedContext { name: "empty".into(), context: None },
        ],
        clusters: vec!["c1".into()],
        users: vec!["u1".into()],
        current_context: Some("good".into()),
    }
}

#[test]
fn usable_contexts_need_cluster_and_user() {
    let kc = sample();
    assert!(kubeconfig_context_is_usable(&kc, "good"));
    assert!(!kubeconfig_context_is_usable(&kc, "no-user"));
    assert!(!kubeconfig_context_is_usable(&kc, "bad-cluster"));
    assert!(!kubeconfig_context_is_usable(&kc, "empty"));
    assert!(!kubeconfig_context_is_usable(&kc, "missing"));
    assert!(context_is_usable(Some(&kc), "good"));
    assert!(!context_is_usable(None, "good"));
}

#[test]
fn contexts_listed_in_order() {
    let kc = sample();
    assert_eq!(list_contexts(&kc), vec!["good", "no-user", "bad-cluster", "empty"]);
    assert_eq!(current_context_name(&kc), Some("good".to_string()));
    assert_eq!(current_context_name(&KubeconfigSummary::default()), None);
}

#[test]
fn default_context_prefers_last_then_current_then_first() {
    let contexts = vec!["a".to_string(), "b".to_string()];
    assert_eq!(choose_default_context(Some("b"), &contexts, Some("a")).unwrap(), "b");
    assert_eq!(choose_default_context(Some("gone"), &contexts, Some("a")).unwrap(), "a");
    assert_eq!(choose_default_context(None, &contexts, None).unwrap(), "a");
    let err = choose_default_context(Some("x"), &[], None).unwrap_err();
    assert_eq!(err.user_message(), "no active cluster context");
}
