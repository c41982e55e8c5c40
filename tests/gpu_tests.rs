use esnode_core::derivations::envelope_exceeded;
use esnode_core::gpu::{build_filter, is_visible, k8s_resource_name};

#[test]
fn device_filters() {
    assert_eq!(build_filter(None), None);
    assert_eq!(build_filter(Some("")), None);
    assert_eq!(build_filter(Some("all")), None);
    assert_eq!(
        build_filter(Some(" 0, GPU-abc ,,1 ")),
        Some(vec!["0".to_string(), "GPU-abc".to_string(), "1".to_string()])
    );
    let f = build_filter(Some("0,GPU-abc"));
    assert!(is_visible(&f, "GPU-zzz", "0"));
    assert!(is_visible(&f, "GPU-abc", "7"));
    assert!(!is_visible(&f, "GPU-zzz", "7"));
    assert!(is_visible(&None, "GPU-zzz", "7"));
}

#[test]
fn compat_resource_names() {
    assert_eq!(k8s_resource_name("nvidia.com", None), "nvidia.com/gpu");
    assert_eq!(k8s_resource_name("nvidia.com", Some("1g.10gb")), "nvidia.com/mig-1g-10gb");
    assert_eq!(k8s_resource_name("x", Some("..a")), "x/mig---a");
}

#[test]
fn power_envelope() {
    assert!(envelope_exceeded(Some(1_001), Some(1_000)));
    assert!(!envelope_exceeded(Some(1_000), Some(1_000)));
    assert!(!envelope_exceeded(None, Some(1)));
    assert!(!envelope_exceeded(Some(5), None));
}
