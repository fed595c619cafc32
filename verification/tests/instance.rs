use std::sync::Arc;

use grafana_plugin_sdk_rs::backend::instance::{
    app_instance_key, app_needs_update, i64_decimal, AppContext, InstanceCache,
};
use grafana_plugin_sdk_rs::backend::GrafanaConfig;

#[derive(Clone, Debug, PartialEq)]
struct Ctx {
    version: u64,
}

fn stale(current: &Ctx) -> impl Fn(&Ctx) -> bool + '_ {
    move |cached: &Ctx| cached.version != current.version
}

#[test]
fn cache_serves_recreates_and_isolates_keys() {
    let mut cache: InstanceCache<u64, Ctx, String> = InstanceCache::new();

    let v1 = Ctx { version: 1 };
    assert!(cache.current_instance(&1, stale(&v1)).is_none());
    assert!(cache.store(1, v1.clone(), Arc::new("first".to_owned())).is_none());
    let a = Arc::clone(cache.current_instance(&1, stale(&v1)).unwrap());
    let b = Arc::clone(cache.current_instance(&1, stale(&v1)).unwrap());
    assert!(Arc::ptr_eq(&a, &b));
    assert_eq!(cache.len(), 1);

    let v2 = Ctx { version: 2 };
    assert!(cache.current_instance(&1, stale(&v2)).is_none());
    let previous = cache.store(1, v2.clone(), Arc::new("second".to_owned())).unwrap();
    assert!(Arc::ptr_eq(&previous, &a));
    let c = cache.current_instance(&1, stale(&v2)).unwrap();
    assert_eq!(c.as_str(), "second");
    assert_eq!(cache.len(), 1);

    assert!(cache.store(2, v1.clone(), Arc::new("other".to_owned())).is_none());
    assert_eq!(cache.len(), 2);
    assert_eq!(cache.lookup(&1).unwrap().context, v2);
    assert_eq!(cache.lookup(&2).unwrap().instance.as_str(), "other");
}

#[test]
fn cache_keyed_by_app_keys_replaces_per_key() {
    let mut cache: InstanceCache<String, Ctx, u32> = InstanceCache::new();
    let v1 = Ctx { version: 1 };
    let v2 = Ctx { version: 2 };
    assert!(cache.store("app#1".to_owned(), v1.clone(), Arc::new(1)).is_none());
    let first = Arc::clone(cache.current_instance(&"app#1".to_owned(), stale(&v1)).unwrap());
    assert!(cache.current_instance(&"app#1".to_owned(), stale(&v2)).is_none());
    let previous = cache.store("app#1".to_owned(), v2.clone(), Arc::new(2)).unwrap();
    assert!(Arc::ptr_eq(&previous, &first));
    assert!(cache.store("app#2".to_owned(), v1.clone(), Arc::new(3)).is_none());
    assert_eq!(cache.len(), 2);
    assert_eq!(**cache.current_instance(&"app#1".to_owned(), stale(&v2)).unwrap(), 2);
    assert_eq!(**cache.current_instance(&"app#2".to_owned(), stale(&v1)).unwrap(), 3);
}

fn app_context(org_id: i64, updated: Option<i64>, config: Option<GrafanaConfig>) -> AppContext {
    AppContext {
        plugin_id: "my-app".to_owned(),
        org_id,
        updated,
        grafana_config: config,
    }
}

#[test]
fn app_instance_key_joins_plugin_and_org() {
    assert_eq!(app_instance_key(&app_context(1, None, None)), "my-app#1");
    assert_eq!(app_instance_key(&app_context(-42, None, None)), "my-app#-42");
    assert_eq!(app_instance_key(&app_context(0, None, None)), "my-app#0");
}

#[test]
fn decimal_text_covers_the_extremes() {
    assert_eq!(i64_decimal(i64::MIN), "-9223372036854775808");
    assert_eq!(i64_decimal(i64::MAX), "9223372036854775807");
    assert_eq!(i64_decimal(10), "10");
}

#[test]
fn app_needs_update_compares_update_time_and_config() {
    let cfg = |v: &str| GrafanaConfig::new(vec![("GF_APP_URL".to_owned(), v.to_owned())]);
    let base = app_context(1, Some(5), Some(cfg("a")));
    assert!(!app_needs_update(&base, &app_context(1, Some(5), Some(cfg("a")))));
    assert!(app_needs_update(&base, &app_context(1, Some(6), Some(cfg("a")))));
    assert!(app_needs_update(&base, &app_context(1, None, Some(cfg("a")))));
    assert!(app_needs_update(&base, &app_context(1, Some(5), Some(cfg("b")))));
    assert!(app_needs_update(&base, &app_context(1, Some(5), None)));
}

#[test]
fn app_keys_differ_for_different_plugin_or_org() {
    let key = |plugin: &str, org: i64| {
        app_instance_key(&AppContext {
            plugin_id: plugin.to_owned(),
            org_id: org,
            updated: None,
            grafana_config: None,
        })
    };
    assert_ne!(key("a", 12), key("a#1", 2));
    assert_ne!(key("a", 1), key("a", -1));
    assert_ne!(key("a", 1), key("b", 1));
    assert_eq!(key("a#1", 2), "a#1#2");
}

#[test]
fn freshness_is_reflexive_symmetric_and_transitive() {
    let a = app_context(1, Some(5), None);
    let b = app_context(2, Some(5), None);
    let c = app_context(3, Some(7), None);
    assert!(!app_needs_update(&a, &a));
    assert!(!app_needs_update(&a, &b) && !app_needs_update(&b, &a));
    assert_eq!(app_needs_update(&b, &c), app_needs_update(&c, &b));
    assert!(app_needs_update(&a, &c));
}
