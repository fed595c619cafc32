use grafana_plugin_sdk_rs::buildinfo::BuildInfo;

#[test]
fn macro_captures_this_crate_metadata() {
    let info = BuildInfo::new("grafana-plugin-sdk-rs", "0.4.0");
    assert_eq!(info.plugin_id, "grafana-plugin-sdk-rs");
    assert!(!info.version.is_empty());
    assert_eq!(info.time, 0);
}

#[test]
fn with_time_sets_only_the_time() {
    let info = BuildInfo::new("my-app", "1.2.3").with_time(42);
    assert_eq!(info.time, 42);
    assert_eq!(info.plugin_id, "my-app");
    assert_eq!(info.version, "1.2.3");
}
