use rl_core::metrics::{
    format_metrics_text, pod_usage_fits, pod_usage_totals, quantity_to_bytes, quantity_to_nano, ContainerUsage,
    PodMetricSummary, PodMetricsInfo,
};

#[test]
fn cpu_quantities() {
    assert_eq!(quantity_to_nano("250m"), 250_000_000);
    assert_eq!(quantity_to_nano("1500n"), 1500);
    assert_eq!(quantity_to_nano("2"), 2_000_000_000);
    assert_eq!(quantity_to_nano("junk"), 0);
    assert_eq!(quantity_to_nano("m"), 0);
    assert_eq!(quantity_to_nano("+3m"), 3_000_000);
}

#[test]
fn memory_quantities() {
    assert_eq!(quantity_to_bytes("128Ki"), 131_072);
    assert_eq!(quantity_to_bytes("64Mi"), 67_108_864);
    assert_eq!(quantity_to_bytes("5k"), 5_000);
    assert_eq!(quantity_to_bytes("4096"), 4096);
    assert_eq!(quantity_to_bytes("1Gi"), 0);
}

#[test]
fn pod_totals_sum_containers() {
    let p = PodMetricsInfo {
        name: Some("web".into()),
        containers: Some(vec![
            ContainerUsage { has_usage: true, cpu: Some("100m".into()), memory: Some("1Mi".into()) },
            ContainerUsage { has_usage: true, cpu: Some("5n".into()), memory: None },
        ]),
    };
    assert_eq!(pod_usage_totals(&p), Some(("web".to_string(), 100_000_005, 1_048_576)));
    let missing = PodMetricsInfo {
        name: Some("x".into()),
        containers: Some(vec![ContainerUsage { has_usage: false, cpu: None, memory: None }]),
    };
    assert_eq!(pod_usage_totals(&missing), None);
    let unnamed = PodMetricsInfo { name: None, containers: Some(Vec::new()) };
    assert_eq!(pod_usage_totals(&unnamed), None);
    let no_list = PodMetricsInfo { name: Some("y".into()), containers: None };
    assert_eq!(pod_usage_totals(&no_list), None);
}

#[test]
fn metrics_text() {
    assert_eq!(format_metrics_text(&[]), "No metrics available (is metrics-server installed?)");
    let m = vec![
        PodMetricSummary { pod_name: "a".into(), cpu: "1.0m".into(), memory: "2.0Mi".into() },
        PodMetricSummary { pod_name: "b".into(), cpu: "5n".into(), memory: "3B".into() },
    ];
    assert_eq!(format_metrics_text(&m), "a  CPU: 1.0m  MEM: 2.0Mi\nb  CPU: 5n  MEM: 3B");
}

#[test]
fn usage_range_is_checked_before_summing() {
    let usage = |cpu: &str| ContainerUsage { has_usage: true, cpu: Some(cpu.into()), memory: Some("1Ki".into()) };
    let ok = PodMetricsInfo { name: Some("p".into()), containers: Some(vec![usage("250m"), usage("1")]) };
    assert!(pod_usage_fits(&ok));
    // 9e9 cores is 9e18 nanocores: fits alone, not twice.
    let big = PodMetricsInfo {
        name: Some("p".into()),
        containers: Some(vec![usage("9000000000"), usage("9000000000")]),
    };
    assert!(!pod_usage_fits(&big));
    // Entries after one without usage are never summed.
    let stop = PodMetricsInfo {
        name: Some("p".into()),
        containers: Some(vec![
            ContainerUsage { has_usage: false, cpu: None, memory: None },
            usage("9000000000"),
            usage("9000000000"),
        ]),
    };
    assert!(pod_usage_fits(&stop));
    assert!(pod_usage_totals(&stop).is_none());
    assert!(pod_usage_fits(&PodMetricsInfo { name: None, containers: None }));
}
