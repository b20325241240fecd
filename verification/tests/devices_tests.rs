use pentair_daemon::devices::DeviceStore;

#[test]
fn migrate_legacy_flat_format() {
    let store = DeviceStore::from_legacy_tokens(vec!["abc123token".to_string(), "def456token".to_string()]);
    let tokens = store.tokens();
    assert_eq!(tokens.len(), 2);
    assert!(tokens.contains(&"abc123token".to_string()));
    assert!(tokens.contains(&"def456token".to_string()));
    assert!(store.live_activity_tokens().is_empty());
    assert!(store.devices.iter().all(|d| d.platform == "unknown"));
}

#[test]
fn register_new_device() {
    let mut store = DeviceStore::new();
    store.register("token12345", Some("android".to_string()), None).unwrap();
    assert_eq!(store.tokens(), vec!["token12345"]);
    assert_eq!(store.android_tokens(), vec!["token12345"]);
}

#[test]
fn register_updates_existing_device() {
    let mut store = DeviceStore::new();
    store.register("token12345", Some("ios".to_string()), None).unwrap();
    store.register("token12345", None, Some("la-token-abc".to_string())).unwrap();
    assert_eq!(store.tokens().len(), 1);
    assert_eq!(store.live_activity_tokens(), vec!["la-token-abc"]);
    assert_eq!(store.devices[0].platform, "ios", "an absent platform keeps the old one");
}

#[test]
fn remove_live_activity_token() {
    let mut store = DeviceStore::new();
    store.register("token12345", Some("ios".to_string()), Some("la-token".to_string())).unwrap();
    assert_eq!(store.live_activity_tokens().len(), 1);
    assert!(store.remove_live_activity_token("la-token"));
    assert!(store.live_activity_tokens().is_empty());
    assert!(!store.remove_live_activity_token("la-token"));
}

#[test]
fn register_refuses_empty_and_short_tokens() {
    let mut store = DeviceStore::new();
    assert_eq!(store.register("   ", None, None), Err("token must not be empty"));
    assert_eq!(store.register("short", None, None), Err("token too short"));
    assert!(store.devices.is_empty());
    store.register("  token12345  ", None, None).unwrap();
    assert_eq!(store.tokens(), vec!["token12345"], "tokens are trimmed");
    assert_eq!(store.devices[0].platform, "unknown");
}

#[test]
fn remove_drops_the_device() {
    let mut store = DeviceStore::new();
    store.register("token12345", None, None).unwrap();
    store.register("token67890", None, None).unwrap();
    assert!(store.remove("token12345"));
    assert_eq!(store.tokens(), vec!["token67890"]);
    assert!(!store.remove("token12345"));
}
