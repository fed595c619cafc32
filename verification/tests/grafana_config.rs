use grafana_plugin_sdk_rs::backend::GrafanaConfig;

fn config(entries: &[(&str, &str)]) -> GrafanaConfig {
    GrafanaConfig::new(
        entries
            .iter()
            .map(|(k, v)| ((*k).to_owned(), (*v).to_owned()))
            .collect(),
    )
}

#[test]
fn feature_toggles_parses_comma_separated_set() {
    let cfg = config(&[(
        "GF_INSTANCE_FEATURE_TOGGLES_ENABLE",
        "accessControlOnCall,externalServiceAccounts",
    )]);
    let toggles = cfg.feature_toggles();
    assert!(toggles.is_enabled("accessControlOnCall"));
    assert!(toggles.is_enabled("externalServiceAccounts"));
    assert!(!toggles.is_enabled("somethingElse"));
    assert!(!toggles.is_empty());
}

#[test]
fn feature_toggles_absent_or_empty_is_empty() {
    assert!(config(&[]).feature_toggles().is_empty());
    assert!(config(&[("GF_INSTANCE_FEATURE_TOGGLES_ENABLE", "")])
        .feature_toggles()
        .is_empty());
}

#[test]
fn app_url_and_client_secret_are_looked_up() {
    let cfg = config(&[
        ("GF_APP_URL", "http://localhost:3000"),
        ("GF_PLUGIN_APP_CLIENT_SECRET", "s3cret"),
    ]);
    assert_eq!(cfg.app_url().unwrap(), "http://localhost:3000");
    assert_eq!(cfg.plugin_app_client_secret().unwrap(), "s3cret");
}

#[test]
fn missing_key_is_reported_by_name() {
    let cfg = config(&[]);
    let err = cfg.app_url().unwrap_err();
    assert_eq!(err.key(), "GF_APP_URL");
    assert_eq!(
        err.message(),
        "key GF_APP_URL not found in Grafana config; a more recent version of Grafana may be required"
    );
    let err = cfg.plugin_app_client_secret().unwrap_err();
    assert_eq!(err.key(), "GF_PLUGIN_APP_CLIENT_SECRET");
}

#[test]
fn later_entries_replace_earlier_ones() {
    let cfg = config(&[("GF_APP_URL", "a"), ("GF_APP_URL", "b")]);
    assert_eq!(cfg.app_url().unwrap(), "b");
}

#[test]
fn empty_pieces_of_the_toggle_list_count_as_names() {
    let cfg = config(&[("GF_INSTANCE_FEATURE_TOGGLES_ENABLE", "a,,b")]);
    let toggles = cfg.feature_toggles();
    assert!(toggles.is_enabled("a"));
    assert!(toggles.is_enabled("b"));
    assert!(toggles.is_enabled(""));
    assert!(!toggles.is_enabled("a,b"));
}

#[test]
fn configs_compare_by_content_not_order() {
    let a = config(&[("GF_APP_URL", "u"), ("X", "1")]);
    let b = config(&[("X", "1"), ("GF_APP_URL", "u")]);
    let c = config(&[("X", "2"), ("GF_APP_URL", "u")]);
    let d = config(&[("X", "1")]);
    assert!(a == b);
    assert!(a != c);
    assert!(a != d);
    assert!(d != a);
    assert!(a.clone() == a);
}

#[test]
fn repeated_toggle_names_count_once() {
    let cfg = config(&[("GF_INSTANCE_FEATURE_TOGGLES_ENABLE", "a,b,a")]);
    let toggles = cfg.feature_toggles();
    assert!(toggles.is_enabled("a"));
    assert!(toggles.is_enabled("b"));
    assert!(!toggles.is_empty());
    let copy = toggles.clone();
    assert!(copy.is_enabled("a"));
    assert!(!copy.is_enabled("c"));
}
