use plugin_permissions::capability::{
    FileAccessLevel, NetworkAccessLevel, Permission, PermissionStatus, SecurityLevel, SystemControl,
};
use plugin_permissions::constraints::{domains_pass, SystemConstraints};
use plugin_permissions::plugin_id::PluginId;
use plugin_permissions::policy::PluginPolicy;
use serde_json::Value;

fn file(path: &str, access_level: FileAccessLevel) -> Permission {
    Permission::FileSystem { path: path.to_string(), access_level }
}

fn network(access_level: NetworkAccessLevel, domains: &[&str]) -> Permission {
    Permission::Network { access_level, domains: domains.iter().map(|d| d.to_string()).collect() }
}

fn texts(items: &[&str]) -> Vec<String> {
    items.iter().map(|t| t.to_string()).collect()
}

#[test]
fn new_policy_is_empty_and_fails_closed() {
    let policy = PluginPolicy::new(PluginId::from_u128(3));
    assert_eq!(policy.plugin_id(), PluginId::from_u128(3));
    assert_eq!(policy.len(), 0);
    assert!(policy.permission_iter().is_empty());
    assert!(policy.pending_requests().is_empty());
    let permission = file("/tmp/a", FileAccessLevel::ReadOnly);
    assert!(!policy.allowed(&permission));
    assert_eq!(policy.get_status(&permission), None);
}

#[test]
fn allowed_only_when_granted() {
    let mut policy = PluginPolicy::new(PluginId::from_u128(3));
    let permission = file("/tmp/a", FileAccessLevel::ReadOnly);
    for status in [
        PermissionStatus::Denied,
        PermissionStatus::NotDecided,
        PermissionStatus::SystemDenied,
    ] {
        policy.update_status(permission.clone(), status);
        assert_eq!(policy.get_status(&permission), Some(status));
        assert!(!policy.allowed(&permission));
    }
    policy.update_status(permission.clone(), PermissionStatus::Granted);
    assert_eq!(policy.get_status(&permission), Some(PermissionStatus::Granted));
    assert!(policy.allowed(&permission));
    assert_eq!(policy.len(), 1);
}

#[test]
fn update_status_is_an_idempotent_upsert() {
    let mut policy = PluginPolicy::new(PluginId::from_u128(3));
    let a = file("/tmp/a", FileAccessLevel::ReadOnly);
    let b = network(NetworkAccessLevel::LocalOnly, &[]);
    policy.update_status(a.clone(), PermissionStatus::Granted);
    policy.update_status(b.clone(), PermissionStatus::NotDecided);
    let once = policy.permission_iter();
    policy.update_status(b.clone(), PermissionStatus::NotDecided);
    assert_eq!(policy.permission_iter(), once);
    assert_eq!(
        once,
        vec![(a.clone(), PermissionStatus::Granted), (b.clone(), PermissionStatus::NotDecided)]
    );
    policy.update_status(a.clone(), PermissionStatus::Denied);
    assert_eq!(
        policy.permission_iter(),
        vec![(a, PermissionStatus::Denied), (b, PermissionStatus::NotDecided)]
    );
}

#[test]
fn update_keeps_the_first_declared_parameters() {
    let mut policy = PluginPolicy::new(PluginId::from_u128(3));
    let first = Permission::Custom { id: "sync".to_string(), params: Value::Bool(true) };
    let second = Permission::Custom { id: "sync".to_string(), params: Value::Null };
    policy.update_status(first.clone(), PermissionStatus::NotDecided);
    policy.update_status(second.clone(), PermissionStatus::Granted);
    assert_eq!(policy.permission_iter(), vec![(first, PermissionStatus::Granted)]);
    assert!(policy.allowed(&second));
}

#[test]
fn pending_requests_of_one_policy() {
    let plugin = PluginId::from_u128(11);
    let mut policy = PluginPolicy::new(plugin);
    let a = file("/tmp/a", FileAccessLevel::ReadOnly);
    let b = file("/tmp/b", FileAccessLevel::ReadOnly);
    let c = file("/tmp/c", FileAccessLevel::ReadOnly);
    policy.update_status(a.clone(), PermissionStatus::NotDecided);
    policy.update_status(b, PermissionStatus::Granted);
    policy.update_status(c.clone(), PermissionStatus::NotDecided);
    assert_eq!(policy.pending_requests(), vec![(plugin, a), (plugin, c)]);
}

#[test]
fn same_capability_compares_kind_and_primary_fields() {
    let a = file("/tmp/a", FileAccessLevel::ReadOnly);
    assert!(a.same_capability(&file("/tmp/a", FileAccessLevel::ReadOnly)));
    assert!(!a.same_capability(&file("/tmp/a", FileAccessLevel::ReadWrite)));
    assert!(!a.same_capability(&file("/tmp/b", FileAccessLevel::ReadOnly)));
    assert!(!a.same_capability(&Permission::Custom {
        id: "/tmp/a".to_string(),
        params: Value::Null,
    }));
    let n = network(NetworkAccessLevel::SpecificDomains, &["a.org", "b.org"]);
    assert!(n.same_capability(&network(NetworkAccessLevel::SpecificDomains, &["a.org", "b.org"])));
    assert!(!n.same_capability(&network(NetworkAccessLevel::SpecificDomains, &["b.org", "a.org"])));
    assert!(!n.same_capability(&network(NetworkAccessLevel::SpecificDomains, &["a.org"])));
    assert!(!n.same_capability(&network(NetworkAccessLevel::LocalOnly, &["a.org", "b.org"])));
    let s = Permission::System { control: SystemControl::HardwareInfo, params: Value::Null };
    assert!(s.same_capability(&Permission::System {
        control: SystemControl::HardwareInfo,
        params: Value::Bool(false),
    }));
    assert!(!s.same_capability(&Permission::System {
        control: SystemControl::WindowControl,
        params: Value::Null,
    }));
    let audio = Permission::Audio { microphone_access: true, speaker_access: false };
    assert!(audio.same_capability(&Permission::Audio {
        microphone_access: true,
        speaker_access: false,
    }));
    assert!(!audio.same_capability(&Permission::Audio {
        microphone_access: false,
        speaker_access: true,
    }));
    assert!(!audio.same_capability(&Permission::Video {
        camera_access: true,
        screen_recording_access: false,
    }));
    let video = Permission::Video { camera_access: true, screen_recording_access: true };
    assert!(video.same_capability(&video.clone()));
    assert!(!video.same_capability(&Permission::Video {
        camera_access: true,
        screen_recording_access: false,
    }));
}

#[test]
fn duplicate_is_an_equal_copy() {
    let all = vec![
        file("/tmp/a", FileAccessLevel::Execute),
        network(NetworkAccessLevel::FullInternet, &["a.org", "b.org"]),
        Permission::System {
            control: SystemControl::NotificationSend,
            params: Value::String("quiet".to_string()),
        },
        Permission::Audio { microphone_access: false, speaker_access: true },
        Permission::Video { camera_access: false, screen_recording_access: true },
        Permission::Custom { id: "sync".to_string(), params: Value::Array(vec![Value::Null]) },
    ];
    for permission in &all {
        assert_eq!(&permission.duplicate(), permission);
    }
}

#[test]
fn new_constraints_deny_nothing() {
    let constraints = SystemConstraints::new(SecurityLevel::Paranoid);
    assert_eq!(constraints.security_level(), SecurityLevel::Paranoid);
    let shadow = file("/etc/shadow", FileAccessLevel::Full);
    assert!(!constraints.is_dangerous(&shadow));
    assert!(constraints.passes(&shadow));
    assert!(constraints.passes(&network(NetworkAccessLevel::FullInternet, &["evil.example"])));
}

#[test]
fn denied_paths_and_domains_are_substrings() {
    let mut constraints = SystemConstraints::new(SecurityLevel::Low);
    constraints.add_denied_path("/etc".to_string());
    constraints.add_denied_path("secret".to_string());
    constraints.add_denied_domain("tracker".to_string());
    assert!(constraints.is_dangerous(&file("/etc/shadow", FileAccessLevel::ReadOnly)));
    assert!(constraints.is_dangerous(&file("/home/me/secrets.txt", FileAccessLevel::ReadOnly)));
    assert!(constraints.is_dangerous(&file("/mnt/etc", FileAccessLevel::ReadOnly)));
    assert!(!constraints.is_dangerous(&file("/et/c", FileAccessLevel::ReadOnly)));
    assert!(!constraints.is_dangerous(&file("/ETC/shadow", FileAccessLevel::ReadOnly)));
    assert!(!constraints.passes(&file("/etc/shadow", FileAccessLevel::ReadOnly)));
    assert!(constraints.passes(&file("/usr/bin", FileAccessLevel::Execute)));
    assert!(!constraints.passes(&network(
        NetworkAccessLevel::LocalOnly,
        &["a.org", "ads.tracker.net"],
    )));
    assert!(constraints.passes(&network(NetworkAccessLevel::LocalOnly, &["a.org", "/etc"])));
    assert!(!constraints.is_dangerous(&network(NetworkAccessLevel::LocalOnly, &["tracker"])));
    assert!(constraints.is_dangerous(&network(NetworkAccessLevel::FullInternet, &[])));
}

#[test]
fn domains_pass_checks_every_domain_against_every_denied_text() {
    assert!(domains_pass(&texts(&[]), &texts(&["x"])));
    assert!(domains_pass(&texts(&["a.org", "b.org"]), &texts(&[])));
    assert!(domains_pass(&texts(&["a.org", "b.org"]), &texts(&["c", "net"])));
    assert!(!domains_pass(&texts(&["a.org", "b.org"]), &texts(&["c", "b.o"])));
    assert!(!domains_pass(&texts(&["a.org"]), &texts(&[""])));
}
