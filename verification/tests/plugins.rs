use libretto::platform::Os;
use libretto::plugin::api::{
    capabilities_from_bitmask, capabilities_to_bitmask, is_api_compatible, EventResult,
    PluginCapability, PluginInfo, PluginMetadata, PLUGIN_API_VERSION,
};
use libretto::plugin::config::{
    ArrayElement, ComposerPluginConfig, ConfigValue, EnvironmentConfig, PluginConfig, PluginManagerConfig,
};
use libretto::plugin::api::{EventContext, PluginApi};
use libretto::plugin::error::PluginError;
use libretto::plugin::discovery::{
    capability_from_name, extract_metadata, installed_package_path, is_plugin_package_type, plugin_from_package,
    ComposerAuthor, ComposerExtra, ComposerPackage, PluginDiscovery,
};
use libretto::plugin::event_bus::{
    push_history, should_deliver, topic_matches, EventBus, EventBusStats, EventMessage, MessagePayload,
    MessagePriority, HISTORY_LIMIT,
};
use libretto::plugin::hooks::Hook;
use libretto::plugin::native::{
    check_abi_version, event_result_from_code, library_candidates, library_extension, PLUGIN_ABI_VERSION,
};
use std::time::Duration;

#[test]
fn plugin_info_builder() {
    let info = PluginInfo::builder("test/plugin", "1.0.0")
        .description("A test plugin")
        .capability(PluginCapability::Event)
        .priority(10)
        .build();

    assert_eq!(info.name, "test/plugin");
    assert_eq!(info.version, "1.0.0");
    assert_eq!(info.description, "A test plugin");
    assert_eq!(info.priority, Some(10));
    assert!(info.capabilities.contains(&PluginCapability::Event));
}

#[test]
fn event_result_states() {
    let ok = EventResult::ok();
    assert!(ok.continue_processing);
    assert!(!ok.is_error());

    let stop = EventResult::stop();
    assert!(!stop.continue_processing);

    let err = EventResult::error("failed");
    assert!(err.is_error());
    assert!(!err.continue_processing);
}

#[test]
fn event_result_builders() {
    let r = EventResult::with_message("hello")
        .message("more")
        .warning("careful")
        .data("url", "https://a")
        .data("url", "https://b")
        .stop_processing();
    assert_eq!(r.messages, vec!["hello".to_string(), "more".to_string()]);
    assert!(r.has_warnings());
    assert_eq!(r.data_value("url"), Some("https://b".to_string()));
    assert_eq!(r.modified_data.len(), 1);
    assert!(!r.continue_processing);
}

#[test]
fn capability_bitmask() {
    let caps = vec![PluginCapability::Install, PluginCapability::Event];
    let mask = capabilities_to_bitmask(&caps);
    let restored = capabilities_from_bitmask(mask);

    assert!(restored.contains(&PluginCapability::Install));
    assert!(restored.contains(&PluginCapability::Event));
    assert!(!restored.contains(&PluginCapability::Command));
}

#[test]
fn capability_bitmask_values() {
    assert_eq!(capabilities_to_bitmask(&[PluginCapability::Script, PluginCapability::Install]), 0x101);
    assert_eq!(
        capabilities_from_bitmask(0xffff_ffff),
        PluginCapability::all()
    );
    assert_eq!(capabilities_from_bitmask(0x200), vec![]);
    assert_eq!(
        capabilities_from_bitmask(0x88),
        vec![PluginCapability::Event, PluginCapability::Source]
    );
}

#[test]
fn capability_supported_hooks() {
    let install_hooks = PluginCapability::Install.supported_hooks();
    assert!(install_hooks.is_some());
    let hooks = install_hooks.unwrap();
    assert!(hooks.contains(&Hook::PreInstallCmd));
    assert!(hooks.contains(&Hook::PostInstallCmd));
    assert!(PluginCapability::Command.supported_hooks().is_none());
    assert_eq!(PluginCapability::Download.supported_hooks(), Some(vec![Hook::PreFileDownload]));
}

#[test]
fn metadata_from_info() {
    let info = PluginInfo::builder("a/b", "2.0.0").api_version("^2.0").build();
    let meta = PluginMetadata::from_info(&info);
    assert_eq!(meta.name, "a/b");
    assert_eq!(meta.plugin_api_version, Some("^2.0".to_string()));
    assert!(meta.class.is_none() && meta.authors.is_empty());
}

#[test]
fn api_version_compatibility() {
    let compatible = PluginMetadata {
        name: "test".into(),
        version: "1.0.0".into(),
        plugin_api_version: Some("^2.0.0".into()),
        ..Default::default()
    };
    assert!(is_api_compatible(&compatible, PLUGIN_API_VERSION));

    let incompatible = PluginMetadata {
        name: "test".into(),
        version: "1.0.0".into(),
        plugin_api_version: Some("^3.0.0".into()),
        ..Default::default()
    };
    assert!(!is_api_compatible(&incompatible, PLUGIN_API_VERSION));

    let invalid = PluginMetadata { plugin_api_version: Some("not a req".into()), ..Default::default() };
    assert!(!is_api_compatible(&invalid, PLUGIN_API_VERSION));
    assert!(is_api_compatible(&PluginMetadata::default(), PLUGIN_API_VERSION));
}

#[test]
fn plugin_manager_config_defaults() {
    let config = PluginManagerConfig::default();

    assert!(config.plugins_enabled);
    assert!(!config.hot_reload);
    assert_eq!(config.default_timeout, Duration::from_secs(30));
    assert_eq!(config.max_concurrent, 20);
}

#[test]
fn plugin_manager_config_builder() {
    let config = PluginManagerConfig::new()
        .with_hot_reload(true)
        .with_timeout(Duration::from_secs(60))
        .with_max_concurrent(10);

    assert!(config.hot_reload);
    assert_eq!(config.default_timeout, Duration::from_secs(60));
    assert_eq!(config.max_concurrent, 10);
}

#[test]
fn disabled_plugins_check() {
    let config = PluginManagerConfig::new()
        .with_disabled_plugins(vec!["plugin-a".to_string(), "plugin-b".to_string()]);

    assert!(config.is_plugin_disabled("plugin-a"));
    assert!(config.is_plugin_disabled("plugin-b"));
    assert!(!config.is_plugin_disabled("plugin-c"));
}

#[test]
fn disable_all_and_environment() {
    let mut config = PluginManagerConfig::new();
    config.disable_all();
    assert!(!config.plugins_enabled);

    let env = EnvironmentConfig::from_values(Some("TRUE"), Some("45"), Some("x"), Some("0"));
    assert!(env.plugins_disabled);
    assert_eq!(env.timeout, Some(Duration::from_secs(45)));
    assert_eq!(env.max_concurrent, None);
    assert!(!env.hot_reload);
    let mut config = PluginManagerConfig::new();
    env.apply_to(&mut config);
    assert!(!config.plugins_enabled);
    assert_eq!(config.default_timeout, Duration::from_secs(45));
    assert_eq!(config.max_concurrent, 20);
}

#[test]
fn message_priority() {
    assert!(MessagePriority::Critical > MessagePriority::High);
    assert!(MessagePriority::High > MessagePriority::Normal);
    assert!(MessagePriority::Normal > MessagePriority::Low);
    assert!(MessagePriority::High.is_above(&MessagePriority::Low));
}

#[test]
fn topic_matching() {
    assert!(topic_matches("events.test", "*"));
    assert!(topic_matches("events.test", ""));
    assert!(topic_matches("events.test", "events.*"));
    assert!(topic_matches("events.test", "events.test"));
    assert!(!topic_matches("events.test", "other.*"));
}

#[test]
fn event_message_creation() {
    let msg = EventMessage::new(1, "plugin-a", "test.topic", MessagePayload::Empty);
    assert_eq!(msg.source, "plugin-a");
    assert_eq!(msg.topic, "test.topic");
    assert!(msg.is_broadcast());
    assert!(!msg.is_response());
}

#[test]
fn direct_message() {
    let msg = EventMessage::direct(2, "plugin-a", "plugin-b", "direct.message", MessagePayload::Text("hello".into()));
    assert!(!msg.is_broadcast());
    assert!(msg.is_for("plugin-b"));
    assert!(!msg.is_for("plugin-c"));
    assert_eq!(msg.payload.as_text(), Some("hello"));
}

#[test]
fn response_message() {
    let original = EventMessage::new(7, "plugin-a", "request", MessagePayload::Empty);
    let response = EventMessage::response(&original, 8, "plugin-b", MessagePayload::Text("ok".into()));

    assert!(response.is_response());
    assert_eq!(response.correlation_id, Some(original.id));
    assert_eq!(response.target, Some("plugin-a".to_string()));
    assert_eq!(response.topic, "request.response");
}

#[test]
fn delivery_rules() {
    let msg = EventMessage::new(1, "plugin-a", "events.test", MessagePayload::Empty);
    assert!(should_deliver(&msg, "plugin-b", None));
    assert!(!should_deliver(&msg, "plugin-a", None));
    assert!(should_deliver(&msg, "plugin-b", Some("events.*")));
    assert!(!should_deliver(&msg, "plugin-c", Some("other.*")));
    let direct = EventMessage::direct(2, "plugin-a", "plugin-b", "direct", MessagePayload::Empty);
    assert!(!should_deliver(&direct, "plugin-c", None));
}

#[test]
fn bus_statistics_and_history() {
    let mut stats = EventBusStats::default();
    stats.record_subscribe();
    stats.record_publish(2);
    stats.record_publish(0);
    assert_eq!(stats.messages_published, 2);
    assert_eq!(stats.messages_delivered, 2);
    assert_eq!(stats.messages_dropped, 1);
    assert_eq!(stats.active_subscribers, 1);
    let mut history: Vec<u64> = vec![1, 2, 3];
    push_history(&mut history, 4, 3);
    assert_eq!(history, vec![2, 3, 4]);
    push_history(&mut history, 5, 10);
    assert_eq!(history, vec![2, 3, 4, 5]);
}

#[test]
fn library_extension_test() {
    let ext = library_extension(&Os::Linux);
    assert!(!ext.is_empty());
    assert_eq!(ext, "so");
    assert_eq!(library_extension(&Os::MacOs), "dylib");
    assert_eq!(library_extension(&Os::Windows), "dll");
}

#[test]
fn event_bus_subscribe_publish() {
    let mut bus = EventBus::new(100);

    let sub1 = bus.subscribe_filtered("plugin-a", None);
    let sub2 = bus.subscribe_filtered("plugin-b", None);

    bus.broadcast(1, "plugin-c", "test", MessagePayload::Empty).unwrap();

    let msg1 = bus.try_recv(&sub1);
    let msg2 = bus.try_recv(&sub2);

    assert!(msg1.is_some());
    assert!(msg2.is_some());
}

#[test]
fn event_bus_topic_filter() {
    let mut bus = EventBus::new(100);

    let sub1 = bus.subscribe_to_topic("plugin-a", "events.*");
    let sub2 = bus.subscribe_to_topic("plugin-b", "other.*");

    bus.broadcast(1, "plugin-c", "events.test", MessagePayload::Empty).unwrap();

    assert!(bus.try_recv(&sub1).is_some());
    assert!(bus.try_recv(&sub2).is_none());
}

#[test]
fn event_bus_direct_message() {
    let mut bus = EventBus::new(100);

    let sub1 = bus.subscribe_filtered("plugin-a", None);
    let sub2 = bus.subscribe_filtered("plugin-b", None);

    bus.send_direct(1, "plugin-c", "plugin-a", "direct", MessagePayload::Empty).unwrap();

    assert!(bus.try_recv(&sub1).is_some());
    assert!(bus.try_recv(&sub2).is_none());
}

#[test]
fn event_bus_no_self_delivery() {
    let mut bus = EventBus::new(100);

    let sub = bus.subscribe_filtered("plugin-a", None);

    bus.broadcast(1, "plugin-a", "test", MessagePayload::Empty).unwrap();

    assert!(bus.try_recv(&sub).is_none());
}

#[test]
fn event_bus_stats() {
    let mut bus = EventBus::new(100);

    let _sub = bus.subscribe_filtered("plugin-a", None);
    bus.broadcast(1, "plugin-b", "test", MessagePayload::Empty).unwrap();

    assert_eq!(bus.stats().messages_published, 1);
    assert_eq!(bus.stats().messages_delivered, 1);
    assert_eq!(bus.stats().active_subscribers, 1);
}

#[test]
fn event_bus_queue_order_and_capacity() {
    let mut bus = EventBus::new(2);
    let sub = bus.subscribe_filtered("plugin-a", None);
    assert_eq!(sub.id, 1);
    bus.broadcast(1, "plugin-b", "t", MessagePayload::Text("one".into())).unwrap();
    bus.broadcast(2, "plugin-b", "t", MessagePayload::Text("two".into())).unwrap();
    bus.broadcast(3, "plugin-b", "t", MessagePayload::Text("three".into())).unwrap();
    assert_eq!(bus.stats().messages_published, 3);
    assert_eq!(bus.stats().messages_delivered, 2);
    assert_eq!(bus.stats().messages_dropped, 1);
    let first = bus.try_recv(&sub).unwrap();
    assert_eq!(first.id, 1);
    assert_eq!(first.payload.as_text(), Some("one"));
    let rest = bus.drain(&sub);
    assert_eq!(rest.len(), 1);
    assert_eq!(rest[0].id, 2);
    assert!(bus.try_recv(&sub).is_none());
    assert_eq!(bus.history().len(), 3);
}

#[test]
fn event_bus_unsubscribe_and_clear() {
    let mut bus = EventBus::default();
    let a = bus.subscribe_filtered("plugin-a", None);
    let b = bus.subscribe();
    assert_ne!(a.id, b.id);
    assert!(a.is_active());
    assert_eq!(bus.subscriber_count(), 2);
    bus.unsubscribe(a.id);
    assert_eq!(bus.subscriber_count(), 1);
    assert_eq!(bus.stats().active_subscribers, 1);
    bus.unsubscribe(a.id);
    assert_eq!(bus.subscriber_count(), 1);
    bus.broadcast(5, "plugin-c", "x", MessagePayload::Empty).unwrap();
    assert!(bus.try_recv(&a).is_none());
    assert!(bus.try_recv(&b).is_some());
    bus.clear();
    assert_eq!(bus.subscriber_count(), 0);
    assert_eq!(bus.stats().active_subscribers, 0);
}

#[test]
fn event_bus_history_is_bounded() {
    let mut bus = EventBus::new(10);
    let n = HISTORY_LIMIT as u64 + 5;
    for i in 0..n {
        bus.broadcast(i, "p", "t", MessagePayload::Empty).unwrap();
    }
    let h = bus.history();
    assert_eq!(h.len(), HISTORY_LIMIT);
    assert_eq!(h[0].id, 5);
    assert_eq!(h[HISTORY_LIMIT - 1].id, n - 1);
    assert_eq!(bus.stats().messages_dropped, n);
}

#[test]
fn plugin_api_paths_and_messages() {
    let mut api = PluginApi::new("/app".to_string(), "/app/vendor".to_string(), "/home/u/.composer".to_string(), EventBus::new(10));
    assert_eq!(api.project_root(), "/app");
    assert_eq!(api.vendor_dir(), "/app/vendor");
    assert_eq!(api.composer_home(), "/home/u/.composer");
    let sub = api.subscribe();
    let msg = EventMessage::new(9, "plugin-x", "hello", MessagePayload::KeyValue(vec![("k".to_string(), "v".to_string())]));
    api.send_message(msg).unwrap();
    assert_eq!(api.event_bus().stats().messages_delivered, 1);
    assert_eq!(sub.id, 1);
}

#[test]
fn plugin_config_options() {
    let mut config = PluginConfig::new();

    config.set("string_opt", ConfigValue::Str("value".to_string()));
    config.set("bool_opt", ConfigValue::Bool(true));
    config.set("int_opt", ConfigValue::Int(42));

    assert_eq!(config.get_str("string_opt"), Some("value"));
    assert_eq!(config.get_bool("bool_opt"), Some(true));
    assert_eq!(config.get_i64("int_opt"), Some(42));
}

#[test]
fn plugin_config_merge() {
    let mut base = PluginConfig::new();
    base.set("opt1", ConfigValue::Str("base".to_string()));
    base.set("opt2", ConfigValue::Str("base".to_string()));

    let mut override_config = PluginConfig::new();
    override_config.set("opt2", ConfigValue::Str("override".to_string()));
    override_config.set("opt3", ConfigValue::Str("new".to_string()));

    base.merge(&override_config);

    assert_eq!(base.get_str("opt1"), Some("base"));
    assert_eq!(base.get_str("opt2"), Some("override"));
    assert_eq!(base.get_str("opt3"), Some("new"));
}

#[test]
fn composer_plugin_config_allowed() {
    let config = ComposerPluginConfig {
        allowed: Some(vec![("vendor/allowed".to_string(), true), ("vendor/denied".to_string(), false)]),
        ..Default::default()
    };

    assert!(config.is_plugin_allowed("vendor/allowed"));
    assert!(!config.is_plugin_allowed("vendor/denied"));
    assert!(!config.is_plugin_allowed("vendor/unknown"));
}

#[test]
fn composer_plugin_config_disabled() {
    let config = ComposerPluginConfig { disabled: vec!["vendor/disabled".to_string()], ..Default::default() };

    assert!(!config.is_plugin_allowed("vendor/disabled"));
    assert!(config.is_plugin_allowed("vendor/other"));
}

#[test]
fn plugin_config_values_and_lookup() {
    let mut config = PluginConfig::default();
    assert!(!config.enabled);
    config.set("paths", ConfigValue::Array(vec![
        ArrayElement::Str("src".to_string()),
        ArrayElement::Json("3".to_string()),
        ArrayElement::Str("lib".to_string()),
    ]));
    config.set("big", ConfigValue::Number("18446744073709551615".to_string()));
    config.set("n", ConfigValue::Int(1));
    config.set("n", ConfigValue::Int(2));
    assert_eq!(config.options.len(), 3);
    assert_eq!(config.get_str_array("paths"), Some(vec!["src", "lib"]));
    assert_eq!(config.get_i64("big"), None);
    assert_eq!(config.get_i64("n"), Some(2));
    assert_eq!(config.get_str("n"), None);
    assert!(config.get("missing").is_none());
    let mut other = PluginConfig::new();
    other.timeout = Some(Duration::from_secs(5));
    config.merge(&other);
    assert_eq!(config.timeout, Some(Duration::from_secs(5)));
    let composer = ComposerPluginConfig { plugins: vec![("acme/p".to_string(), config)], ..Default::default() };
    assert_eq!(composer.get_plugin_config("acme/p").and_then(|c| c.get_i64("n")), Some(2));
    assert!(composer.get_plugin_config("acme/q").is_none());
}

#[test]
fn discovery_creation() {
    let discovery = PluginDiscovery::new();
    assert!(discovery.all().is_empty());
}

#[test]
fn find_by_name() {
    let mut discovery = PluginDiscovery::new();

    let metadata = PluginMetadata { name: "test/plugin".into(), version: "1.0.0".into(), ..Default::default() };

    discovery.record("/test", metadata);

    let found = discovery.find_by_name("test/plugin");
    assert!(found.is_some());
    assert_eq!(found.unwrap().name, "test/plugin");

    let not_found = discovery.find_by_name("other/plugin");
    assert!(not_found.is_none());
}

#[test]
fn parse_composer_json_non_plugin() {
    let composer = ComposerPackage {
        name: Some("vendor/library".into()),
        version: Some("1.0.0".into()),
        package_type: Some("library".into()),
        ..Default::default()
    };
    assert!(plugin_from_package(&composer, "/tmp/x/composer.json", &Os::Linux).is_none());
    assert!(!is_plugin_package_type(None));
    assert!(is_plugin_package_type(Some("libretto-plugin")));
}

#[test]
fn scan_with_plugin() {
    let composer = ComposerPackage {
        name: Some("vendor-name/plugin-name".into()),
        version: Some("1.0.0".into()),
        package_type: Some("composer-plugin".into()),
        description: Some("A test plugin".into()),
        extra: Some(ComposerExtra {
            class: Some("VendorName\\PluginName\\Plugin".into()),
            plugin_api_version: Some("^2.0".into()),
            ..Default::default()
        }),
        ..Default::default()
    };
    let path = "/vendor/vendor-name/plugin-name/composer.json";
    let plugin = plugin_from_package(&composer, path, &Os::Linux).unwrap();
    assert_eq!(plugin.name, "vendor-name/plugin-name");
    assert_eq!(plugin.version, "1.0.0");
    assert_eq!(plugin.class, Some("VendorName\\PluginName\\Plugin".into()));
    assert_eq!(plugin.path.as_deref(), Some("/vendor/vendor-name/plugin-name"));
}

#[test]
fn metadata_defaults_and_capabilities() {
    let composer = ComposerPackage {
        package_type: Some("composer-plugin".into()),
        authors: Some(vec![ComposerAuthor { name: None, email: Some("a@b.c".into()), homepage: None }]),
        extra: Some(ComposerExtra {
            capabilities: Some(vec!["event".into(), "bogus".into(), "script".into()]),
            config: Some(vec![("level".into(), ConfigValue::Int(3))]),
            require_libretto: Some(">=1.0".into()),
            ..Default::default()
        }),
        ..Default::default()
    };
    let m = extract_metadata(&composer, "composer.json", &Os::Linux);
    assert_eq!(m.name, "unknown");
    assert_eq!(m.version, "0.0.0");
    assert_eq!(m.description, "");
    assert_eq!(m.capabilities, vec![PluginCapability::Event, PluginCapability::Script]);
    assert_eq!(m.authors.len(), 1);
    assert_eq!(m.authors[0].name, "");
    assert_eq!(m.authors[0].email.as_deref(), Some("a@b.c"));
    let cfg = m.config.unwrap();
    assert!(cfg.enabled);
    assert_eq!(cfg.get_i64("level"), Some(3));
    assert_eq!(m.require_libretto.as_deref(), Some(">=1.0"));
    assert_eq!(m.path.as_deref(), Some(""));
    assert_eq!(capability_from_name("download"), Some(PluginCapability::Download));
    assert_eq!(capability_from_name("Download"), None);
    assert_eq!(installed_package_path("/app/vendor", Some("acme/tool"), &Os::Linux), "/app/vendor/acme/tool/composer.json");
    assert_eq!(installed_package_path("/app/vendor", None, &Os::Linux), "/app/vendor/unknown/composer.json");
}

#[test]
fn discovery_registry() {
    let mut d = PluginDiscovery::default();
    d.record("/a/composer.json", PluginMetadata { name: "x/one".into(), ..Default::default() });
    d.record("/b/composer.json", PluginMetadata { name: "x/two".into(), ..Default::default() });
    d.record("/a/composer.json", PluginMetadata { name: "x/three".into(), ..Default::default() });
    assert_eq!(d.all().len(), 2);
    assert_eq!(d.get("/a/composer.json").unwrap().name, "x/three");
    assert!(d.get("/c/composer.json").is_none());
    assert!(d.is_discovered("x/two"));
    assert!(!d.is_discovered("x/one"));
    d.clear_cache();
    assert!(d.all().is_empty());
}

#[test]
fn error_display() {
    let err = PluginError::NotFound("test-plugin".into());
    assert!(err.to_string().contains("test-plugin"));
}

#[test]
fn error_helpers() {
    let err = PluginError::timeout("test", 30);
    assert!(err.is_timeout());
    assert!(err.is_recoverable());

    let err = PluginError::sandbox_violation("test", "file access");
    assert!(err.is_sandbox_violation());
    assert!(!err.is_recoverable());
}

#[test]
fn event_context_builder() {
    let ctx = EventContext::new().with_operation("install").with_dev_mode(true).with_data("key", "value");

    assert_eq!(ctx.operation, Some("install".into()));
    assert!(ctx.dev_mode);
    assert_eq!(ctx.get_data("key"), Some("value"));
}

#[test]
fn event_context_fields() {
    let ctx = EventContext::default()
        .with_packages(vec!["acme/a".to_string()])
        .with_project_root("/app")
        .with_vendor_dir("/app/vendor")
        .with_verbose(true)
        .with_url("https://x.test")
        .with_url("https://y.test")
        .with_data("k", "1")
        .with_data("k", "2");
    assert_eq!(ctx.packages, vec!["acme/a".to_string()]);
    assert_eq!(ctx.project_root.as_deref(), Some("/app"));
    assert_eq!(ctx.vendor_dir.as_deref(), Some("/app/vendor"));
    assert!(ctx.verbose);
    assert_eq!(ctx.urls.len(), 2);
    assert_eq!(ctx.data.len(), 1);
    assert_eq!(ctx.get_data("k"), Some("2"));
    assert_eq!(ctx.get_data("missing"), None);
}

#[test]
fn native_plugin_rules() {
    assert!(check_abi_version(None).is_ok());
    assert!(check_abi_version(Some(PLUGIN_ABI_VERSION)).is_ok());
    match check_abi_version(Some(7)) {
        Err(PluginError::ApiVersionMismatch { required, found }) => {
            assert_eq!(required, "1");
            assert_eq!(found, "7");
        }
        _ => panic!("expected a version mismatch"),
    }
    let err = event_result_from_code(-3);
    assert!(!err.continue_processing);
    assert_eq!(err.error.as_deref(), Some("plugin returned error code: -3"));
    assert!(!event_result_from_code(1).continue_processing);
    assert!(event_result_from_code(1).error.is_none());
    assert!(event_result_from_code(0).continue_processing);
    assert!(event_result_from_code(5).continue_processing);
    assert_eq!(
        library_candidates("/plugins/p", &Os::Linux),
        vec!["/plugins/p/plugin.so".to_string(), "/plugins/p/libplugin.so".to_string(), "/plugins/p/lib.so".to_string()]
    );
    assert_eq!(library_candidates("C:\\p", &Os::Windows)[2], "C:\\p\\lib.dll");
}

#[test]
fn payload_json_source() {
    let json = MessagePayload::Json("{\"a\":1}".to_string());
    assert_eq!(json.json_source().unwrap(), "{\"a\":1}");
    let text = MessagePayload::Text("[1,2]".to_string());
    assert_eq!(text.json_source().unwrap(), "[1,2]");
    let err = MessagePayload::Binary(vec![1]).json_source().unwrap_err();
    assert!(matches!(err, PluginError::ChannelReceive(ref m) if m == "payload is not JSON"));
}

#[test]
fn plugin_info_from_ffi_fields() {
    let info = PluginInfo::from_ffi_fields(Some("native/x".to_string()), None, None, Some("2.6.0".to_string()), 0x03, -5);
    assert_eq!(info.name, "native/x");
    assert_eq!(info.version, "");
    assert_eq!(info.description, "");
    assert_eq!(info.api_version.as_deref(), Some("2.6.0"));
    assert_eq!(info.capabilities, vec![PluginCapability::Install, PluginCapability::Resolve]);
    assert_eq!(info.priority, Some(-5));
}

#[test]
fn bitmask_keeps_the_nine_capability_bits() {
    for mask in [0u32, 0x1, 0x155, 0x1FF, 0xFFFF_FFFF, 0x8000_0203] {
        let caps = capabilities_from_bitmask(mask);
        assert_eq!(capabilities_to_bitmask(&caps), mask & 0x1FF);
    }
    let doubled = vec![PluginCapability::Script, PluginCapability::Install, PluginCapability::Script];
    let back = capabilities_from_bitmask(capabilities_to_bitmask(&doubled));
    assert_eq!(back, vec![PluginCapability::Install, PluginCapability::Script]);
}

#[test]
fn message_timestamps_follow_creation() {
    let first = EventMessage::new(1, "a", "t", MessagePayload::Empty);
    let second = EventMessage::new(2, "a", "t", MessagePayload::Empty);
    assert!(second.timestamp >= first.timestamp);
}
