use plugin_permissions::capability::{FileAccessLevel, Permission, SystemControl};
use plugin_permissions::manager::PluginManager;
use plugin_permissions::manifest::{summary, validate_fields, PluginManifest};
use plugin_permissions::plugin_id::PluginId;
use serde_json::Value;

fn file(path: &str) -> Permission {
    Permission::FileSystem { path: path.to_string(), access_level: FileAccessLevel::ReadOnly }
}

fn named(name: &str) -> PluginManifest {
    PluginManifest::with_id(PluginId::from_u128(5), name.to_string())
}

#[test]
fn new_manifest_has_defaults() {
    let manifest = named("clock");
    assert_eq!(*manifest.id(), PluginId::from_u128(5));
    assert_eq!(manifest.name(), "clock");
    assert_eq!(manifest.version(), "1.0.0");
    assert_eq!(manifest.author(), "");
    assert_eq!(manifest.description(), "");
    assert_eq!(manifest.entry_point(), "");
    assert_eq!(manifest.api_version(), "1.0");
    assert!(manifest.permissions().is_empty());
    assert_eq!(manifest.validate(), Ok(()));
}

#[test]
fn new_manifests_get_random_version_four_identifiers() {
    let a = PluginManifest::new("a".to_string());
    let b = PluginManifest::new("b".to_string());
    assert_ne!(a.id(), b.id());
    for manifest in [&a, &b] {
        let value = manifest.id().as_u128();
        assert_eq!((value >> 76) & 0xf, 4);
        assert_eq!((value >> 62) & 0x3, 2);
        assert_eq!(uuid::Uuid::from_u128(value).get_version_num(), 4);
    }
    assert_eq!(a.name(), "a");
    assert_eq!(a.version(), "1.0.0");
}

#[test]
fn setters_change_one_field() {
    let mut manifest = named("clock");
    manifest.set_author("Ada".to_string());
    manifest.set_description("Shows the time".to_string());
    manifest.set_api_version("2.1".to_string());
    assert_eq!(manifest.name(), "clock");
    assert_eq!(manifest.version(), "1.0.0");
    assert_eq!(manifest.author(), "Ada");
    assert_eq!(manifest.description(), "Shows the time");
    assert_eq!(manifest.api_version(), "2.1");
    assert_eq!(manifest.entry_point(), "");
}

#[test]
fn entry_point_must_exist() {
    let mut manifest = named("clock");
    assert_eq!(
        manifest.set_entry_point("/plugins/clock.wasm".to_string(), false),
        Err("Entry point file does not exist".to_string())
    );
    assert_eq!(manifest.entry_point(), "");
    assert_eq!(manifest.set_entry_point("/plugins/clock.wasm".to_string(), true), Ok(()));
    assert_eq!(manifest.entry_point(), "/plugins/clock.wasm");
    assert_eq!(
        manifest.set_entry_point("/plugins/other.wasm".to_string(), false),
        Err("Entry point file does not exist".to_string())
    );
    assert_eq!(manifest.entry_point(), "/plugins/clock.wasm");
}

#[test]
fn permissions_are_declared_once() {
    let mut manifest = named("clock");
    assert!(!manifest.has_permission(&file("/tmp/a")));
    assert_eq!(manifest.add_permission(file("/tmp/a")), Ok(()));
    assert_eq!(manifest.add_permission(file("/tmp/b")), Ok(()));
    assert_eq!(
        manifest.add_permission(file("/tmp/a")),
        Err("Permission already exists".to_string())
    );
    assert!(manifest.has_permission(&file("/tmp/a")));
    assert!(manifest.has_permission(&file("/tmp/b")));
    assert!(!manifest.has_permission(&file("/tmp/c")));
    assert_eq!(manifest.permissions(), &[file("/tmp/a"), file("/tmp/b")]);
}

#[test]
fn permissions_differing_only_in_parameters_are_one_capability() {
    let mut manifest = named("clock");
    let first = Permission::System { control: SystemControl::HardwareInfo, params: Value::Null };
    let second =
        Permission::System { control: SystemControl::HardwareInfo, params: Value::Bool(true) };
    assert_eq!(manifest.add_permission(first.clone()), Ok(()));
    assert_eq!(
        manifest.add_permission(second.clone()),
        Err("Permission already exists".to_string())
    );
    assert!(manifest.has_permission(&second));
    assert_eq!(manifest.permissions(), &[first]);
}

#[test]
fn remove_permission_takes_out_the_named_one() {
    let mut manifest = named("clock");
    manifest.add_permission(file("/tmp/a")).unwrap();
    manifest.add_permission(file("/tmp/b")).unwrap();
    manifest.add_permission(file("/tmp/c")).unwrap();
    assert!(!manifest.remove_permission(&file("/tmp/d")));
    assert_eq!(manifest.permissions().len(), 3);
    assert!(manifest.remove_permission(&file("/tmp/b")));
    assert_eq!(manifest.permissions(), &[file("/tmp/a"), file("/tmp/c")]);
    assert!(!manifest.remove_permission(&file("/tmp/b")));
    assert!(manifest.remove_permission(&file("/tmp/a")));
    assert!(manifest.remove_permission(&file("/tmp/c")));
    assert!(manifest.permissions().is_empty());
    assert_eq!(manifest.add_permission(file("/tmp/b")), Ok(()));
}

#[test]
fn validate_reports_the_first_fault() {
    assert_eq!(named("").validate(), Err("Plugin name cannot be empty".to_string()));
    assert_eq!(named(" \t\n ").validate(), Err("Plugin name cannot be empty".to_string()));
    assert_eq!(named("\u{a0}\u{3000}").validate(), Err("Plugin name cannot be empty".to_string()));
    assert_eq!(named("  clock  ").validate(), Ok(()));
    let mut manifest = named("clock");
    manifest.set_api_version("   ".to_string());
    assert_eq!(manifest.validate(), Err("API version cannot be empty".to_string()));
    let mut manifest = named(" ");
    manifest.set_api_version(String::new());
    assert_eq!(manifest.validate(), Err("Plugin name cannot be empty".to_string()));
}

#[test]
fn validate_fields_checks_in_order() {
    assert_eq!(
        validate_fields("", "", "", ""),
        Err("Plugin name cannot be empty".to_string())
    );
    assert_eq!(
        validate_fields("clock", "", "", ""),
        Err("Plugin version cannot be empty".to_string())
    );
    assert_eq!(
        validate_fields("clock", "beta", "", "beta"),
        Err("API version cannot be empty".to_string())
    );
    assert_eq!(
        validate_fields("clock", "beta", "1.0", "beta"),
        Err("Version must contain at least one number".to_string())
    );
    assert_eq!(
        validate_fields("clock", "beta", "1.0", "\u{663}"),
        Err("Version must contain at least one number".to_string())
    );
    assert_eq!(validate_fields("clock", "beta", "x", "beta7"), Ok(()));
    assert_eq!(validate_fields("clock", "0", "x", "0"), Ok(()));
    assert_eq!(validate_fields("clock", "v9", "x", " v9 "), Ok(()));
}

#[test]
fn display_info_has_four_lines() {
    let mut manifest =
        PluginManifest::with_id(PluginId::from_u128(0xa1a2a3a4b1b2c1c2d1d2d3d4d5d6d7d8), "clock".to_string());
    manifest.set_author("Ada".to_string());
    manifest.set_description("Shows the time".to_string());
    manifest.add_permission(file("/tmp/a")).unwrap();
    manifest.add_permission(file("/tmp/b")).unwrap();
    assert_eq!(
        manifest.display_info(),
        "clock v1.0.0 (ID: a1a2a3a4-b1b2-c1c2-d1d2-d3d4d5d6d7d8)\nAuthor: Ada\nDescription: Shows \
         the time\nPermissions: 2"
    );
}

#[test]
fn summary_writes_the_count_in_decimal() {
    assert_eq!(
        summary("n", "v", "i", "a", "d", 0),
        "n vv (ID: i)\nAuthor: a\nDescription: d\nPermissions: 0"
    );
    assert_eq!(
        summary("", "", "", "", "", 1234567890),
        " v (ID: )\nAuthor: \nDescription: \nPermissions: 1234567890"
    );
}

#[test]
fn new_manager_knows_no_plugin() {
    let manager = PluginManager::new();
    assert!(manager.list_plugins().is_empty());
    assert!(manager.permission_checker().get_pending_requests().is_empty());
    assert_eq!(
        manager.permission_checker().constraints().security_level(),
        plugin_permissions::capability::SecurityLevel::Medium
    );
}

#[test]
fn manager_lists_names_in_order_of_arrival() {
    let mut manager = PluginManager::new();
    let clock = manager.add_plugin("clock".to_string());
    let notes = manager.add_plugin("notes".to_string());
    assert_ne!(clock, notes);
    manager.add_plugin("clock".to_string());
    assert_eq!(manager.list_plugins(), vec!["clock", "notes", "clock"]);
}

#[test]
fn manager_replaces_the_manifest_of_a_known_plugin() {
    let mut manager = PluginManager::new();
    manager.add_manifest(PluginManifest::with_id(PluginId::from_u128(1), "one".to_string()));
    manager.add_manifest(PluginManifest::with_id(PluginId::from_u128(2), "two".to_string()));
    manager.add_manifest(PluginManifest::with_id(PluginId::from_u128(1), "uno".to_string()));
    assert_eq!(manager.list_plugins(), vec!["uno", "two"]);
}
