use rl_core::containers::{
    container_menu, default_container_exec, extract_containers, resolve_container, ContainerInfo, ContainerSpec,
    ContainerStatus,
};
use rl_core::error::{ApiError, Error};

#[test]
fn user_messages_for_api_statuses() {
    let e = Error::Api(ApiError::Status { code: 401, message: "x".into(), text: "t".into() });
    assert_eq!(e.user_message(), "Authentication failed. Check your kubeconfig credentials.");
    let e = Error::Api(ApiError::Status { code: 403, message: "  pods is forbidden \n".into(), text: "t".into() });
    assert_eq!(e.user_message(), "Permission denied: pods is forbidden");
    let e = Error::Api(ApiError::Status { code: 404, message: "x".into(), text: "t".into() });
    assert_eq!(e.user_message(), "Resource not found.");
    let e = Error::Api(ApiError::Status { code: 500, message: "x".into(), text: "boom".into() });
    assert_eq!(e.user_message(), "kubernetes API: boom");
}

#[test]
fn display_texts() {
    assert_eq!(Error::Kubeconfig("bad".into()).to_display_string(), "kubeconfig: bad");
    assert_eq!(Error::Serialization("eof".into()).to_display_string(), "serialization: eof");
    assert_eq!(Error::NoActiveContext.to_display_string(), "no active cluster context");
    assert_eq!(
        Error::NotFound { kind: "Pod".into(), name: "x".into(), namespace: "ns".into() }.to_display_string(),
        "resource not found: Pod/x in namespace ns"
    );
    assert_eq!(Error::Message("m".into()).user_message(), "m");
    assert_eq!(Error::Api(ApiError::Other("net".into())).user_message(), "kubernetes API: net");
}

fn info(name: &str, ready: bool) -> ContainerInfo {
    ContainerInfo { name: name.into(), ready, image: "img".into() }
}

#[test]
fn containers_take_readiness_from_statuses() {
    let specs = vec![
        ContainerSpec { name: "app".into(), image: Some("nginx".into()) },
        ContainerSpec { name: "side".into(), image: None },
    ];
    let statuses = vec![
        ContainerStatus { name: "side".into(), ready: true },
        ContainerStatus { name: "app".into(), ready: false },
    ];
    let cs = extract_containers(Some(&specs), Some(&statuses));
    assert_eq!(cs.len(), 2);
    assert_eq!((cs[0].name.as_str(), cs[0].ready, cs[0].image.as_str()), ("app", false, "nginx"));
    assert_eq!((cs[1].name.as_str(), cs[1].ready, cs[1].image.as_str()), ("side", true, "-"));
    assert!(extract_containers(None, Some(&statuses)).is_empty());
}

#[test]
fn default_and_resolved_containers() {
    let cs = vec![info("init", false), info("app", true), info("side", true)];
    assert_eq!(default_container_exec(&cs), Some("app".to_string()));
    assert_eq!(default_container_exec(&[info("a", false), info("b", false)]), Some("a".to_string()));
    assert_eq!(default_container_exec(&[]), None);
    assert_eq!(resolve_container(&cs, "p", Some("side")).unwrap(), "side");
    assert_eq!(resolve_container(&cs, "p", Some("nope")).unwrap(), "app");
    assert_eq!(resolve_container(&cs, "p", None).unwrap(), "app");
    match resolve_container(&[], "web-1", Some("x")) {
        Err(Error::Message(m)) => assert_eq!(m, "no container found for pod web-1"),
        _ => panic!("expected an error"),
    }
}

#[test]
fn container_picker_entries() {
    assert!(container_menu(&[]).is_empty());
    let cs = vec![
        ContainerInfo { name: "app".into(), ready: true, image: "-".into() },
        ContainerInfo { name: "sidecar".into(), ready: false, image: "-".into() },
    ];
    let entries = container_menu(&cs);
    assert_eq!(
        entries,
        vec![
            ("Default container".to_string(), None),
            ("app  \u{2713}".to_string(), Some("app".to_string())),
            ("sidecar  (not ready)".to_string(), Some("sidecar".to_string())),
        ]
    );
}
