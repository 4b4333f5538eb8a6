use plugin_permissions::capability::{
    FileAccessLevel, NetworkAccessLevel, Permission, PermissionStatus, SecurityLevel, SystemControl,
};
use plugin_permissions::checker::PermissionChecker;
use plugin_permissions::decision::{CheckContext, CheckResult, Decision, Denial};
use plugin_permissions::plugin_id::PluginId;
use serde_json::Value;

fn shadow() -> Permission {
    Permission::FileSystem { path: "/etc/shadow".to_string(), access_level: FileAccessLevel::ReadOnly }
}

fn notes() -> Permission {
    Permission::FileSystem {
        path: "/home/user/notes.txt".to_string(),
        access_level: FileAccessLevel::ReadWrite,
    }
}

fn internet() -> Permission {
    Permission::Network {
        access_level: NetworkAccessLevel::FullInternet,
        domains: vec!["example.com".to_string()],
    }
}

fn local(domains: &[&str]) -> Permission {
    Permission::Network {
        access_level: NetworkAccessLevel::SpecificDomains,
        domains: domains.iter().map(|d| d.to_string()).collect(),
    }
}

fn system(control: SystemControl) -> Permission {
    Permission::System { control, params: Value::Null }
}

fn audio() -> Permission {
    Permission::Audio { microphone_access: true, speaker_access: false }
}

fn denied(reason: &str) -> CheckResult {
    CheckResult::Denied(reason.to_string())
}

fn id(n: u128) -> PluginId {
    PluginId::from_u128(n)
}

fn guarded() -> PermissionChecker {
    let mut checker = PermissionChecker::new(SecurityLevel::Medium);
    checker.add_denied_path("/etc".to_string());
    checker.add_denied_domain("evil".to_string());
    checker
}

#[test]
fn new_checker_is_empty() {
    let checker = PermissionChecker::new(SecurityLevel::High);
    assert_eq!(checker.constraints().security_level(), SecurityLevel::High);
    assert!(checker.get_pending_requests().is_empty());
    assert_eq!(checker.logger().len(), 0);
    assert!(!checker.is_registered(&id(1)));
}

#[test]
fn dangerous_capabilities_start_undecided() {
    let mut checker = guarded();
    let declared = vec![
        shadow(),
        notes(),
        internet(),
        local(&["example.com"]),
        system(SystemControl::PowerManagement),
        system(SystemControl::ClipboardAccess),
        audio(),
        Permission::Video { camera_access: true, screen_recording_access: true },
        Permission::Custom { id: "telemetry".to_string(), params: Value::Bool(true) },
    ];
    assert_eq!(checker.register_plugin(id(1), declared.clone()), Ok(()));
    for permission in &declared {
        let expected = if checker.is_dangerous_permission(permission) {
            PermissionStatus::NotDecided
        } else {
            PermissionStatus::Granted
        };
        assert_eq!(checker.status(&id(1), permission), Some(expected));
    }
    assert_eq!(checker.status(&id(1), &shadow()), Some(PermissionStatus::NotDecided));
    assert_eq!(checker.status(&id(1), &notes()), Some(PermissionStatus::Granted));
    assert_eq!(checker.status(&id(1), &internet()), Some(PermissionStatus::NotDecided));
    assert_eq!(checker.status(&id(1), &local(&["example.com"])), Some(PermissionStatus::Granted));
    assert_eq!(
        checker.status(&id(1), &system(SystemControl::PowerManagement)),
        Some(PermissionStatus::NotDecided)
    );
    assert_eq!(
        checker.status(&id(1), &system(SystemControl::ClipboardAccess)),
        Some(PermissionStatus::Granted)
    );
    assert_eq!(checker.status(&id(1), &audio()), Some(PermissionStatus::Granted));
}

#[test]
fn classification_of_each_kind() {
    let checker = guarded();
    assert!(checker.is_dangerous_permission(&shadow()));
    assert!(!checker.is_dangerous_permission(&notes()));
    assert!(checker.is_dangerous_permission(&internet()));
    assert!(!checker.is_dangerous_permission(&local(&["evil.example"])));
    assert!(!checker.is_dangerous_permission(&Permission::Network {
        access_level: NetworkAccessLevel::LocalOnly,
        domains: vec![],
    }));
    assert!(checker.is_dangerous_permission(&system(SystemControl::PowerManagement)));
    for control in [
        SystemControl::ProcessManagement,
        SystemControl::WindowControl,
        SystemControl::HardwareInfo,
        SystemControl::ClipboardAccess,
        SystemControl::NotificationSend,
    ] {
        assert!(!checker.is_dangerous_permission(&system(control)));
    }
    assert!(!checker.is_dangerous_permission(&audio()));
    assert!(!checker.is_dangerous_permission(&Permission::Video {
        camera_access: false,
        screen_recording_access: true,
    }));
    assert!(!checker.is_dangerous_permission(&Permission::Custom {
        id: "/etc".to_string(),
        params: Value::Null,
    }));
}

#[test]
fn denied_path_is_matched_anywhere_in_the_path() {
    let mut checker = PermissionChecker::new(SecurityLevel::Low);
    let inside = Permission::FileSystem {
        path: "/home/etc/file".to_string(),
        access_level: FileAccessLevel::Full,
    };
    assert!(!checker.is_dangerous_permission(&inside));
    checker.add_denied_path("etc".to_string());
    assert!(checker.is_dangerous_permission(&inside));
    assert!(!checker.passes_system_constraints(&inside));
    let other = Permission::FileSystem {
        path: "/home/ect/file".to_string(),
        access_level: FileAccessLevel::Full,
    };
    assert!(!checker.is_dangerous_permission(&other));
    assert!(checker.passes_system_constraints(&other));
}

#[test]
fn empty_denied_text_matches_every_path() {
    let mut checker = PermissionChecker::new(SecurityLevel::Low);
    checker.add_denied_path(String::new());
    assert!(checker.is_dangerous_permission(&notes()));
    assert!(!checker.passes_system_constraints(&notes()));
    let nowhere =
        Permission::FileSystem { path: String::new(), access_level: FileAccessLevel::ReadOnly };
    assert!(checker.is_dangerous_permission(&nowhere));
}

#[test]
fn constraints_gate_paths_and_every_domain() {
    let checker = guarded();
    assert!(!checker.passes_system_constraints(&shadow()));
    assert!(checker.passes_system_constraints(&notes()));
    assert!(checker.passes_system_constraints(&local(&["example.com", "rust-lang.org"])));
    assert!(!checker.passes_system_constraints(&local(&["example.com", "cdn.evil.net"])));
    assert!(!checker.passes_system_constraints(&local(&["evil"])));
    assert!(checker.passes_system_constraints(&local(&[])));
    assert!(checker.passes_system_constraints(&system(SystemControl::PowerManagement)));
    assert!(checker.passes_system_constraints(&audio()));
    assert!(checker.passes_system_constraints(&Permission::Custom {
        id: "evil".to_string(),
        params: Value::Null,
    }));
}

#[test]
fn denied_path_leaves_capability_undecided_and_check_denies_by_policy() {
    let mut checker = guarded();
    assert_eq!(checker.register_plugin(id(7), vec![shadow()]), Ok(()));
    assert_eq!(checker.status(&id(7), &shadow()), Some(PermissionStatus::NotDecided));
    assert_eq!(checker.check(&id(7), &shadow(), None, true), denied("denied by policy"));
}

#[test]
fn granting_a_denied_path_still_meets_the_system_gate() {
    let mut checker = guarded();
    checker.register_plugin(id(7), vec![shadow()]).unwrap();
    assert_eq!(checker.update_user_decision(&id(7), &shadow(), true), Ok(()));
    assert_eq!(checker.status(&id(7), &shadow()), Some(PermissionStatus::Granted));
    assert_eq!(checker.check(&id(7), &shadow(), None, true), denied("denied by system"));
}

#[test]
fn user_grant_makes_check_pass_without_context() {
    let mut checker = PermissionChecker::new(SecurityLevel::Medium);
    checker.register_plugin(id(7), vec![internet()]).unwrap();
    assert_eq!(checker.check(&id(7), &internet(), None, true), denied("denied by policy"));
    assert_eq!(checker.update_user_decision(&id(7), &internet(), true), Ok(()));
    assert_eq!(checker.status(&id(7), &internet()), Some(PermissionStatus::Granted));
    assert_eq!(checker.check(&id(7), &internet(), None, true), CheckResult::Granted);
    assert_eq!(checker.check(&id(7), &internet(), None, false), CheckResult::Granted);
}

#[test]
fn missing_file_is_denied_by_context() {
    let mut checker = PermissionChecker::new(SecurityLevel::Medium);
    checker.register_plugin(id(7), vec![notes()]).unwrap();
    let context = CheckContext::default();
    assert_eq!(checker.check(&id(7), &notes(), Some(&context), true), CheckResult::Granted);
    assert_eq!(
        checker.check(&id(7), &notes(), Some(&context), false),
        denied("file does not exist")
    );
    assert_eq!(checker.check(&id(7), &notes(), None, false), CheckResult::Granted);
}

#[test]
fn full_internet_is_pending_after_registration() {
    let mut checker = PermissionChecker::new(SecurityLevel::Medium);
    checker.register_plugin(id(9), vec![internet()]).unwrap();
    assert_eq!(checker.status(&id(9), &internet()), Some(PermissionStatus::NotDecided));
    assert_eq!(checker.get_pending_requests(), vec![(id(9), internet())]);
}

#[test]
fn unknown_plugin_is_not_found() {
    let mut checker = guarded();
    checker.register_plugin(id(1), vec![audio()]).unwrap();
    let context = CheckContext::default();
    for permission in [shadow(), notes(), internet(), audio(), system(SystemControl::HardwareInfo)] {
        assert_eq!(checker.check(&id(2), &permission, None, true), denied("plugin not found"));
        assert_eq!(
            checker.check(&id(2), &permission, Some(&context), false),
            denied("plugin not found")
        );
    }
}

#[test]
fn decision_on_undeclared_capability_fails_and_changes_nothing() {
    let mut checker = guarded();
    checker.register_plugin(id(1), vec![shadow(), audio()]).unwrap();
    let lines = checker.logger().len();
    assert_eq!(
        checker.update_user_decision(&id(1), &internet(), true),
        Err("capability not declared".to_string())
    );
    assert_eq!(checker.status(&id(1), &internet()), None);
    assert_eq!(checker.status(&id(1), &shadow()), Some(PermissionStatus::NotDecided));
    assert_eq!(checker.status(&id(1), &audio()), Some(PermissionStatus::Granted));
    assert_eq!(checker.get_pending_requests(), vec![(id(1), shadow())]);
    assert_eq!(checker.logger().len(), lines);
    assert_eq!(checker.check(&id(1), &internet(), None, true), denied("denied by policy"));
}

#[test]
fn decision_for_unknown_plugin_fails() {
    let mut checker = guarded();
    checker.register_plugin(id(1), vec![shadow()]).unwrap();
    assert_eq!(
        checker.update_user_decision(&id(2), &shadow(), true),
        Err("plugin not found".to_string())
    );
    assert!(!checker.is_registered(&id(2)));
    assert_eq!(checker.status(&id(1), &shadow()), Some(PermissionStatus::NotDecided));
}

#[test]
fn check_is_repeatable() {
    let mut checker = guarded();
    checker
        .register_plugin(id(1), vec![shadow(), notes(), system(SystemControl::PowerManagement)])
        .unwrap();
    let context =
        CheckContext { is_screen_locked: true, battery_level: Some(5), network_available: false };
    for permission in [shadow(), notes(), internet(), system(SystemControl::PowerManagement)] {
        for context in [None, Some(&context)] {
            for found in [true, false] {
                let first = checker.check(&id(1), &permission, context, found);
                let second = checker.check(&id(1), &permission, context, found);
                assert_eq!(first, second);
                assert_eq!(checker.decide(&id(1), &permission, context, found).to_result(), first);
            }
        }
    }
}

#[test]
fn decision_changes_only_its_entry() {
    let mut checker = guarded();
    checker
        .register_plugin(id(1), vec![shadow(), internet(), notes(), audio()])
        .unwrap();
    checker.register_plugin(id(2), vec![shadow(), internet()]).unwrap();
    assert_eq!(checker.update_user_decision(&id(1), &internet(), false), Ok(()));
    assert_eq!(checker.status(&id(1), &internet()), Some(PermissionStatus::Denied));
    assert_eq!(checker.status(&id(1), &shadow()), Some(PermissionStatus::NotDecided));
    assert_eq!(checker.status(&id(1), &notes()), Some(PermissionStatus::Granted));
    assert_eq!(checker.status(&id(1), &audio()), Some(PermissionStatus::Granted));
    assert_eq!(checker.status(&id(2), &shadow()), Some(PermissionStatus::NotDecided));
    assert_eq!(checker.status(&id(2), &internet()), Some(PermissionStatus::NotDecided));
    assert_eq!(
        checker.get_pending_requests(),
        vec![(id(1), shadow()), (id(2), shadow()), (id(2), internet())]
    );
}

#[test]
fn decisions_can_be_revoked() {
    let mut checker = PermissionChecker::new(SecurityLevel::Medium);
    checker.register_plugin(id(1), vec![audio(), internet()]).unwrap();
    assert_eq!(checker.check(&id(1), &audio(), None, true), CheckResult::Granted);
    assert_eq!(checker.update_user_decision(&id(1), &audio(), false), Ok(()));
    assert_eq!(checker.status(&id(1), &audio()), Some(PermissionStatus::Denied));
    assert_eq!(checker.check(&id(1), &audio(), None, true), denied("denied by policy"));
    assert_eq!(checker.update_user_decision(&id(1), &audio(), true), Ok(()));
    assert_eq!(checker.check(&id(1), &audio(), None, true), CheckResult::Granted);
    assert_eq!(checker.update_user_decision(&id(1), &internet(), true), Ok(()));
    assert_eq!(checker.update_user_decision(&id(1), &internet(), false), Ok(()));
    assert_eq!(checker.status(&id(1), &internet()), Some(PermissionStatus::Denied));
}

#[test]
fn undeclared_capability_is_denied_by_policy_whatever_else_holds() {
    let mut checker = guarded();
    checker.register_plugin(id(1), vec![audio()]).unwrap();
    let bad =
        CheckContext { is_screen_locked: true, battery_level: Some(0), network_available: false };
    let good = CheckContext::default();
    for permission in [
        shadow(),
        notes(),
        internet(),
        local(&["evil.example"]),
        system(SystemControl::PowerManagement),
        system(SystemControl::ClipboardAccess),
    ] {
        for context in [None, Some(&bad), Some(&good)] {
            for found in [true, false] {
                assert_eq!(
                    checker.check(&id(1), &permission, context, found),
                    denied("denied by policy")
                );
            }
        }
    }
}

#[test]
fn pending_requests_are_exactly_the_undecided_entries() {
    let mut checker = guarded();
    assert!(checker.get_pending_requests().is_empty());
    checker.register_plugin(id(1), vec![notes(), audio()]).unwrap();
    assert!(checker.get_pending_requests().is_empty());
    checker
        .register_plugin(id(2), vec![internet(), notes(), system(SystemControl::PowerManagement)])
        .unwrap();
    checker.register_plugin(id(3), vec![shadow()]).unwrap();
    assert_eq!(
        checker.get_pending_requests(),
        vec![
            (id(2), internet()),
            (id(2), system(SystemControl::PowerManagement)),
            (id(3), shadow()),
        ]
    );
    checker.update_user_decision(&id(2), &internet(), true).unwrap();
    checker.update_user_decision(&id(3), &shadow(), false).unwrap();
    assert_eq!(
        checker.get_pending_requests(),
        vec![(id(2), system(SystemControl::PowerManagement))]
    );
    checker.update_user_decision(&id(2), &system(SystemControl::PowerManagement), false).unwrap();
    assert!(checker.get_pending_requests().is_empty());
}

#[test]
fn policy_layer_reports_before_system_and_context() {
    let mut checker = guarded();
    checker.register_plugin(id(1), vec![shadow(), local(&["evil.example"])]).unwrap();
    let bad =
        CheckContext { is_screen_locked: true, battery_level: Some(0), network_available: false };
    assert_eq!(
        checker.check(&id(1), &shadow(), Some(&bad), false),
        denied("denied by policy")
    );
    checker.update_user_decision(&id(1), &shadow(), true).unwrap();
    assert_eq!(
        checker.check(&id(1), &shadow(), Some(&bad), false),
        denied("denied by system")
    );
    assert_eq!(
        checker.check(&id(1), &local(&["evil.example"]), Some(&bad), true),
        denied("denied by system")
    );
    checker.update_user_decision(&id(1), &local(&["evil.example"]), false).unwrap();
    assert_eq!(
        checker.check(&id(1), &local(&["evil.example"]), Some(&bad), true),
        denied("denied by policy")
    );
}

#[test]
fn network_needs_connectivity() {
    let mut checker = PermissionChecker::new(SecurityLevel::Medium);
    checker.register_plugin(id(1), vec![local(&["example.com"])]).unwrap();
    let offline = CheckContext { network_available: false, ..CheckContext::default() };
    let online = CheckContext::default();
    let permission = local(&["example.com"]);
    assert_eq!(
        checker.check(&id(1), &permission, Some(&offline), true),
        denied("network unavailable")
    );
    assert_eq!(checker.check(&id(1), &permission, Some(&online), false), CheckResult::Granted);
    assert_eq!(checker.check(&id(1), &permission, None, true), CheckResult::Granted);
}

#[test]
fn power_management_needs_battery() {
    let mut checker = PermissionChecker::new(SecurityLevel::Medium);
    let power = system(SystemControl::PowerManagement);
    checker.register_plugin(id(1), vec![power.clone()]).unwrap();
    checker.update_user_decision(&id(1), &power, true).unwrap();
    let at = |level: Option<u8>| CheckContext { battery_level: level, ..CheckContext::default() };
    assert_eq!(checker.check(&id(1), &power, Some(&at(Some(0))), true), denied("battery too low"));
    assert_eq!(checker.check(&id(1), &power, Some(&at(Some(9))), true), denied("battery too low"));
    assert_eq!(checker.check(&id(1), &power, Some(&at(Some(10))), true), CheckResult::Granted);
    assert_eq!(checker.check(&id(1), &power, Some(&at(Some(100))), true), CheckResult::Granted);
    assert_eq!(checker.check(&id(1), &power, Some(&at(Some(255))), true), CheckResult::Granted);
    assert_eq!(checker.check(&id(1), &power, Some(&at(None)), true), CheckResult::Granted);
    let locked = CheckContext { is_screen_locked: true, ..CheckContext::default() };
    assert_eq!(checker.check(&id(1), &power, Some(&locked), true), CheckResult::Granted);
}

#[test]
fn clipboard_needs_unlocked_screen() {
    let mut checker = PermissionChecker::new(SecurityLevel::Medium);
    let clipboard = system(SystemControl::ClipboardAccess);
    let window = system(SystemControl::WindowControl);
    checker.register_plugin(id(1), vec![clipboard.clone(), window.clone()]).unwrap();
    let locked = CheckContext {
        is_screen_locked: true,
        battery_level: Some(1),
        network_available: false,
    };
    assert_eq!(
        checker.check(&id(1), &clipboard, Some(&locked), true),
        denied("Cannot access clipboard when screen is locked")
    );
    assert_eq!(
        checker.check(&id(1), &clipboard, Some(&CheckContext::default()), true),
        CheckResult::Granted
    );
    assert_eq!(checker.check(&id(1), &window, Some(&locked), false), CheckResult::Granted);
}

#[test]
fn other_kinds_pass_any_context() {
    let mut checker = guarded();
    let video = Permission::Video { camera_access: true, screen_recording_access: false };
    let custom = Permission::Custom { id: "telemetry".to_string(), params: Value::Null };
    checker.register_plugin(id(1), vec![audio(), video.clone(), custom.clone()]).unwrap();
    let bad =
        CheckContext { is_screen_locked: true, battery_level: Some(0), network_available: false };
    for permission in [audio(), video, custom] {
        assert_eq!(checker.check(&id(1), &permission, Some(&bad), false), CheckResult::Granted);
        assert_eq!(checker.check_context(&permission, &bad, false), Ok(()));
    }
}

#[test]
fn context_layer_alone() {
    let checker = PermissionChecker::new(SecurityLevel::Medium);
    let bad =
        CheckContext { is_screen_locked: true, battery_level: Some(9), network_available: false };
    assert_eq!(checker.check_context(&notes(), &bad, false), Err(Denial::FileMissing));
    assert_eq!(checker.check_context(&notes(), &bad, true), Ok(()));
    assert_eq!(checker.check_context(&internet(), &bad, true), Err(Denial::NetworkUnavailable));
    assert_eq!(
        checker.check_context(&system(SystemControl::PowerManagement), &bad, true),
        Err(Denial::BatteryLow)
    );
    assert_eq!(
        checker.check_context(&system(SystemControl::ClipboardAccess), &bad, true),
        Err(Denial::ScreenLocked)
    );
    assert_eq!(checker.check_context(&system(SystemControl::HardwareInfo), &bad, true), Ok(()));
}

#[test]
fn decide_names_the_denial() {
    let mut checker = guarded();
    checker.register_plugin(id(1), vec![shadow(), notes()]).unwrap();
    let context = CheckContext::default();
    assert_eq!(
        checker.decide(&id(2), &notes(), None, true),
        Decision::Denied(Denial::PluginNotFound)
    );
    assert_eq!(checker.decide(&id(1), &shadow(), None, true), Decision::Denied(Denial::Policy));
    assert_eq!(checker.decide(&id(1), &notes(), None, true), Decision::Granted);
    assert_eq!(
        checker.decide(&id(1), &notes(), Some(&context), false),
        Decision::Denied(Denial::FileMissing)
    );
    assert_eq!(checker.logger().len(), 1);
}

#[test]
fn probe_is_needed_only_for_allowed_files_with_context() {
    let mut checker = guarded();
    checker.register_plugin(id(1), vec![shadow(), notes(), audio()]).unwrap();
    let context = CheckContext::default();
    assert!(checker.needs_path_probe(&id(1), &notes(), Some(&context)));
    assert!(!checker.needs_path_probe(&id(1), &notes(), None));
    assert!(!checker.needs_path_probe(&id(1), &shadow(), Some(&context)));
    assert!(!checker.needs_path_probe(&id(1), &audio(), Some(&context)));
    assert!(!checker.needs_path_probe(&id(2), &notes(), Some(&context)));
    checker.update_user_decision(&id(1), &shadow(), true).unwrap();
    assert!(!checker.needs_path_probe(&id(1), &shadow(), Some(&context)));
    let unknown = Permission::FileSystem {
        path: "/tmp/x".to_string(),
        access_level: FileAccessLevel::ReadOnly,
    };
    assert!(!checker.needs_path_probe(&id(1), &unknown, Some(&context)));
}

#[test]
fn registering_again_resets_the_policy() {
    let mut checker = PermissionChecker::new(SecurityLevel::Medium);
    checker.register_plugin(id(1), vec![internet(), audio()]).unwrap();
    checker.register_plugin(id(2), vec![internet()]).unwrap();
    checker.update_user_decision(&id(1), &internet(), true).unwrap();
    checker.update_user_decision(&id(2), &internet(), true).unwrap();
    checker.register_plugin(id(1), vec![internet(), notes()]).unwrap();
    assert_eq!(checker.status(&id(1), &internet()), Some(PermissionStatus::NotDecided));
    assert_eq!(checker.status(&id(1), &notes()), Some(PermissionStatus::Granted));
    assert_eq!(checker.status(&id(1), &audio()), None);
    assert_eq!(checker.status(&id(2), &internet()), Some(PermissionStatus::Granted));
    assert_eq!(checker.get_pending_requests(), vec![(id(1), internet())]);
}

#[test]
fn capability_declared_twice_keeps_one_entry() {
    let mut checker = PermissionChecker::new(SecurityLevel::Medium);
    checker.register_plugin(id(1), vec![internet(), audio(), internet()]).unwrap();
    assert_eq!(checker.get_pending_requests(), vec![(id(1), internet())]);
}

#[test]
fn parameters_take_no_part_in_identity() {
    let mut checker = PermissionChecker::new(SecurityLevel::Medium);
    let first = Permission::System {
        control: SystemControl::PowerManagement,
        params: Value::String("suspend".to_string()),
    };
    let second = Permission::System {
        control: SystemControl::PowerManagement,
        params: Value::String("reboot".to_string()),
    };
    checker.register_plugin(id(1), vec![first.clone(), second.clone()]).unwrap();
    assert_eq!(checker.get_pending_requests(), vec![(id(1), first.clone())]);
    assert_eq!(checker.update_user_decision(&id(1), &second, true), Ok(()));
    assert_eq!(checker.status(&id(1), &first), Some(PermissionStatus::Granted));
    assert_eq!(checker.check(&id(1), &first, None, true), CheckResult::Granted);
    let one = Permission::Custom { id: "sync".to_string(), params: Value::Bool(true) };
    let two = Permission::Custom { id: "sync".to_string(), params: Value::Bool(false) };
    let other = Permission::Custom { id: "sink".to_string(), params: Value::Bool(true) };
    checker.register_plugin(id(2), vec![one]).unwrap();
    assert_eq!(checker.check(&id(2), &two, None, true), CheckResult::Granted);
    assert_eq!(checker.check(&id(2), &other, None, true), denied("denied by policy"));
}

#[test]
fn pending_request_keeps_declared_parameters() {
    let mut checker = PermissionChecker::new(SecurityLevel::Medium);
    let power = Permission::System {
        control: SystemControl::PowerManagement,
        params: Value::Array(vec![Value::String("suspend".to_string()), Value::Bool(true)]),
    };
    checker.register_plugin(id(1), vec![power.clone()]).unwrap();
    let waiting = checker.get_pending_requests();
    assert_eq!(waiting.len(), 1);
    assert_eq!(waiting[0].1, power);
    assert_ne!(waiting[0].1, system(SystemControl::PowerManagement));
}

#[test]
fn access_level_and_domains_are_part_of_identity() {
    let mut checker = PermissionChecker::new(SecurityLevel::Medium);
    checker.register_plugin(id(1), vec![notes(), local(&["a.org", "b.org"])]).unwrap();
    let read_only = Permission::FileSystem {
        path: "/home/user/notes.txt".to_string(),
        access_level: FileAccessLevel::ReadOnly,
    };
    assert_eq!(checker.status(&id(1), &read_only), None);
    assert_eq!(checker.status(&id(1), &local(&["b.org", "a.org"])), None);
    assert_eq!(checker.status(&id(1), &local(&["a.org"])), None);
    assert_eq!(
        checker.status(&id(1), &local(&["a.org", "b.org"])),
        Some(PermissionStatus::Granted)
    );
}

#[test]
fn unregistering_removes_the_policy() {
    let mut checker = PermissionChecker::new(SecurityLevel::Medium);
    checker.register_plugin(id(1), vec![internet()]).unwrap();
    checker.register_plugin(id(2), vec![internet(), audio()]).unwrap();
    assert!(checker.unregister_plugin(&id(1)));
    assert!(!checker.unregister_plugin(&id(1)));
    assert!(!checker.is_registered(&id(1)));
    assert!(checker.is_registered(&id(2)));
    assert_eq!(checker.check(&id(1), &internet(), None, true), denied("plugin not found"));
    assert_eq!(checker.check(&id(2), &audio(), None, true), CheckResult::Granted);
    assert_eq!(checker.get_pending_requests(), vec![(id(2), internet())]);
}

#[test]
fn later_denied_path_is_seen_by_later_checks() {
    let mut checker = PermissionChecker::new(SecurityLevel::Medium);
    checker.register_plugin(id(1), vec![notes()]).unwrap();
    assert_eq!(checker.check(&id(1), &notes(), None, true), CheckResult::Granted);
    checker.add_denied_path("/home/user".to_string());
    assert_eq!(checker.status(&id(1), &notes()), Some(PermissionStatus::Granted));
    assert_eq!(checker.check(&id(1), &notes(), None, true), denied("denied by system"));
}

#[test]
fn request_for_approval_is_never_decided_here() {
    let mut checker = PermissionChecker::new(SecurityLevel::Medium);
    checker.register_plugin(id(1), vec![audio()]).unwrap();
    assert_eq!(checker.request_user_approval(&id(1), &audio()), PermissionStatus::NotDecided);
    assert_eq!(checker.request_user_approval(&id(2), &internet()), PermissionStatus::NotDecided);
}

#[test]
fn every_step_is_written_to_the_log() {
    let mut checker = guarded();
    let plugin = id(0x67e5504410b1426f9247bb680e5fe0c8);
    checker.register_plugin(plugin, vec![shadow(), local(&["a.org", "b.org"])]).unwrap();
    checker.check(&plugin, &shadow(), None, true);
    checker.update_user_decision(&plugin, &shadow(), true).unwrap();
    checker.check(&plugin, &local(&["a.org", "b.org"]), None, true);
    checker.update_user_decision(&plugin, &local(&["a.org", "b.org"]), false).unwrap();
    checker.check(&id(1), &audio(), None, true);
    checker.unregister_plugin(&plugin);
    let expected = vec![
        "plugin 67e55044-10b1-426f-9247-bb680e5fe0c8 registered".to_string(),
        "plugin 67e55044-10b1-426f-9247-bb680e5fe0c8 check FileSystem(/etc/shadow, ReadOnly): \
         denied by policy"
            .to_string(),
        "plugin 67e55044-10b1-426f-9247-bb680e5fe0c8 user granted FileSystem(/etc/shadow, ReadOnly)"
            .to_string(),
        "plugin 67e55044-10b1-426f-9247-bb680e5fe0c8 check Network(SpecificDomains, [a.org, \
         b.org]): granted"
            .to_string(),
        "plugin 67e55044-10b1-426f-9247-bb680e5fe0c8 user denied Network(SpecificDomains, [a.org, \
         b.org])"
            .to_string(),
        "plugin 00000000-0000-0000-0000-000000000001 check Audio(microphone: true, speaker: \
         false): plugin not found"
            .to_string(),
        "plugin 67e55044-10b1-426f-9247-bb680e5fe0c8 unregistered".to_string(),
    ];
    assert_eq!(checker.logger().messages(), &expected);
}
