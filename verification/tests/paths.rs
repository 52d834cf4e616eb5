use rl_core::paths::{
    cluster_cache_path, example_manifest_path, kubeconfig_path, plugins_dir, settings_path,
};

#[test]
fn kubeconfig_path_has_default() {
    let path = kubeconfig_path(None, Some("/home/user"));
    assert!(path.contains("config") || path.contains("kube"));
}

#[test]
fn kubeconfig_path_exact() {
    assert_eq!(kubeconfig_path(None, Some("/home/user")), "/home/user/.kube/config");
    assert_eq!(kubeconfig_path(None, Some("/home/user/")), "/home/user/.kube/config");
    assert_eq!(kubeconfig_path(None, None), "/.kube/config");
    assert_eq!(kubeconfig_path(Some("/a/one:/b/two"), Some("/h")), "/a/one");
    assert_eq!(kubeconfig_path(Some("/only"), None), "/only");
    assert_eq!(kubeconfig_path(Some(""), None), "");
}

#[test]
fn settings_and_plugin_locations() {
    assert_eq!(settings_path(None, Some("/h")), "/h/.config/rusticlens/settings.json");
    assert_eq!(settings_path(Some("/xdg"), Some("/h")), "/xdg/rusticlens/settings.json");
    assert_eq!(plugins_dir(None, Some("/h")), "/h/.config/rusticlens/plugins");
    assert_eq!(example_manifest_path(Some("/x"), None), "/x/rusticlens/plugins/example.toml");
    assert_eq!(settings_path(None, None), "/.config/rusticlens/settings.json");
}

#[test]
fn cluster_cache_location() {
    assert_eq!(cluster_cache_path(None, Some("/h")), "/h/.cache/rusticlens/cluster-cache.json");
    assert_eq!(cluster_cache_path(None, None), "./.cache/rusticlens/cluster-cache.json");
    assert_eq!(cluster_cache_path(Some("/c"), None), "/c/rusticlens/cluster-cache.json");
}
