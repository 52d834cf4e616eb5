use rl_core::crd::{crd_target, crd_targets, CrdInfo, CrdVersionInfo};

fn crd(kind: &str, versions: &[(&str, bool)]) -> CrdInfo {
    CrdInfo {
        group: "example.com".into(),
        versions: versions
            .iter()
            .map(|(n, s)| CrdVersionInfo { name: n.to_string(), storage: *s })
            .collect(),
        plural: format!("{}s", kind.to_lowercase()),
        kind: kind.into(),
    }
}

#[test]
fn storage_version_is_browsed() {
    let t = crd_target(&crd("Widget", &[("v1alpha1", false), ("v1", true)])).unwrap();
    assert_eq!(t.version, "v1");
    let t = crd_target(&crd("Widget", &[("v2", false), ("v1", false)])).unwrap();
    assert_eq!(t.version, "v2");
    assert!(crd_target(&crd("Widget", &[])).is_none());
}

#[test]
fn targets_sorted_by_kind_name() {
    let ts = crd_targets(&[
        crd("Zebra", &[("v1", true)]),
        crd("Empty", &[]),
        crd("Apple", &[("v1", true)]),
        crd("Mango", &[("v1", false)]),
    ]);
    let names: Vec<&str> = ts.iter().map(|t| t.display_name.as_str()).collect();
    assert_eq!(names, vec!["Apple", "Mango", "Zebra"]);
    assert_eq!(ts[0].plural, "apples");
    assert_eq!(ts[0].group, "example.com");
}

#[test]
fn targets_with_equal_kind_names_keep_their_order() {
    let mut a = crd("Widget", &[("v1", true)]);
    a.group = "a.example.com".into();
    let mut b = crd("Widget", &[("v1", true)]);
    b.group = "b.example.com".into();
    let ts = crd_targets(&[b, crd("Apple", &[("v1", true)]), a]);
    let groups: Vec<(&str, &str)> = ts.iter().map(|t| (t.display_name.as_str(), t.group.as_str())).collect();
    assert_eq!(
        groups,
        vec![("Apple", "example.com"), ("Widget", "b.example.com"), ("Widget", "a.example.com")]
    );
}
