//! The wording of the audit log: one line for each registration, each check
//! and each user decision, naming the plugin and the capability.

use vstd::prelude::*;
use vstd::string::StringExecFns;
use crate::capability::{
    CapabilityKey, FileAccessLevel, NetworkAccessLevel, Permission, SystemControl,
};
use crate::decision::Decision;

verus! {

pub open spec fn file_level_name(level: FileAccessLevel) -> Seq<char> {
    match level {
        FileAccessLevel::ReadOnly => "ReadOnly"@,
        FileAccessLevel::ReadWrite => "ReadWrite"@,
        FileAccessLevel::Execute => "Execute"@,
        FileAccessLevel::Full => "Full"@,
    }
}

pub open spec fn network_level_name(level: NetworkAccessLevel) -> Seq<char> {
    match level {
        NetworkAccessLevel::LocalOnly => "LocalOnly"@,
        NetworkAccessLevel::SpecificDomains => "SpecificDomains"@,
        NetworkAccessLevel::FullInternet => "FullInternet"@,
    }
}

pub open spec fn control_name(control: SystemControl) -> Seq<char> {
    match control {
        SystemControl::ProcessManagement => "ProcessManagement"@,
        SystemControl::WindowControl => "WindowControl"@,
        SystemControl::PowerManagement => "PowerManagement"@,
        SystemControl::HardwareInfo => "HardwareInfo"@,
        SystemControl::ClipboardAccess => "ClipboardAccess"@,
        SystemControl::NotificationSend => "NotificationSend"@,
    }
}

pub open spec fn flag_text(flag: bool) -> Seq<char> {
    if flag {
        "true"@
    } else {
        "false"@
    }
}

/// The texts in order, with a comma and a space between neighbours.
pub open spec fn joined(texts: Seq<Seq<char>>) -> Seq<char>
    decreases texts.len(),
{
    if texts.len() == 0 {
        Seq::empty()
    } else if texts.len() == 1 {
        texts[0]
    } else {
        joined(texts.drop_last()) + ", "@ + texts.last()
    }
}

/// How the log names a capability: its kind and its primary fields.
pub open spec fn label_text(key: CapabilityKey) -> Seq<char> {
    match key {
        CapabilityKey::FileSystem { path, access_level } => "FileSystem("@ + path + ", "@
            + file_level_name(access_level) + ")"@,
        CapabilityKey::Network { access_level, domains } => "Network("@ + network_level_name(
            access_level,
        ) + ", ["@ + joined(domains) + "])"@,
        CapabilityKey::System { control } => "System("@ + control_name(control) + ")"@,
        CapabilityKey::Audio { microphone_access, speaker_access } => "Audio(microphone: "@
            + flag_text(microphone_access) + ", speaker: "@ + flag_text(speaker_access) + ")"@,
        CapabilityKey::Video { camera_access, screen_recording_access } => "Video(camera: "@
            + flag_text(camera_access) + ", screen_recording: "@ + flag_text(
            screen_recording_access,
        ) + ")"@,
        CapabilityKey::Custom { id } => "Custom("@ + id + ")"@,
    }
}

/// How the log words the outcome of a check.
pub open spec fn outcome_text(decision: Decision) -> Seq<char> {
    match decision {
        Decision::Granted => "granted"@,
        Decision::Denied(denial) => denial.reason_text(),
    }
}

/// The line written when the plugin with this identifier is registered.
pub open spec fn registered_line(plugin: Seq<char>) -> Seq<char> {
    "plugin "@ + plugin + " registered"@
}

/// The line written when the plugin with this identifier is unregistered.
pub open spec fn unregistered_line(plugin: Seq<char>) -> Seq<char> {
    "plugin "@ + plugin + " unregistered"@
}

/// The line written for a check: who asked for what, and the outcome.
pub open spec fn check_line(plugin: Seq<char>, key: CapabilityKey, decision: Decision) -> Seq<
    char,
> {
    "plugin "@ + plugin + " check "@ + label_text(key) + ": "@ + outcome_text(decision)
}

/// The line written when the user decides on a declared capability.
pub open spec fn decision_line(plugin: Seq<char>, key: CapabilityKey, granted: bool) -> Seq<char> {
    "plugin "@ + plugin + (if granted {
        " user granted "@
    } else {
        " user denied "@
    }) + label_text(key)
}

fn file_level_str(level: FileAccessLevel) -> (name: &'static str)
    ensures
        name@ == file_level_name(level),
{
    match level {
        FileAccessLevel::ReadOnly => "ReadOnly",
        FileAccessLevel::ReadWrite => "ReadWrite",
        FileAccessLevel::Execute => "Execute",
        FileAccessLevel::Full => "Full",
    }
}

fn network_level_str(level: NetworkAccessLevel) -> (name: &'static str)
    ensures
        name@ == network_level_name(level),
{
    match level {
        NetworkAccessLevel::LocalOnly => "LocalOnly",
        NetworkAccessLevel::SpecificDomains => "SpecificDomains",
        NetworkAccessLevel::FullInternet => "FullInternet",
    }
}

fn control_str(control: SystemControl) -> (name: &'static str)
    ensures
        name@ == control_name(control),
{
    match control {
        SystemControl::ProcessManagement => "ProcessManagement",
        SystemControl::WindowControl => "WindowControl",
        SystemControl::PowerManagement => "PowerManagement",
        SystemControl::HardwareInfo => "HardwareInfo",
        SystemControl::ClipboardAccess => "ClipboardAccess",
        SystemControl::NotificationSend => "NotificationSend",
    }
}

fn flag_str(flag: bool) -> (name: &'static str)
    ensures
        name@ == flag_text(flag),
{
    if flag {
        "true"
    } else {
        "false"
    }
}

/// The texts in order, with a comma and a space between neighbours.
pub fn join_texts(texts: &Vec<String>) -> (line: String)
    ensures
        line@ == joined(texts.deep_view()),
{
    let mut line = String::new();
    let mut k: usize = 0;
    while k < texts.len()
        invariant
            k <= texts.len(),
            line@ == joined(texts.deep_view().take(k as int)),
        decreases texts.len() - k,
    {
        proof {
            let all = texts.deep_view();
            assert(all.take(k as int + 1).drop_last() =~= all.take(k as int));
            assert(all.take(k as int + 1).last() == texts@[k as int]@);
            if k == 0 {
                assert(Seq::<char>::empty() + texts@[0]@ =~= texts@[0]@);
            }
        }
        if k > 0 {
            line.append(", ");
        }
        line.append(texts[k].as_str());
        k += 1;
    }
    assert(texts.deep_view().take(k as int) =~= texts.deep_view());
    line
}

/// How the log names `permission`.
pub fn label(permission: &Permission) -> (text: String)
    ensures
        text@ == label_text(permission@.key()),
{
    match permission {
        Permission::FileSystem { path, access_level } => {
            let mut text = String::from_str("FileSystem(");
            text.append(path.as_str());
            text.append(", ");
            text.append(file_level_str(*access_level));
            text.append(")");
            text
        },
        Permission::Network { access_level, domains } => {
            let mut text = String::from_str("Network(");
            text.append(network_level_str(*access_level));
            text.append(", [");
            text.append(join_texts(domains).as_str());
            text.append("])");
            text
        },
        Permission::System { control, .. } => {
            let mut text = String::from_str("System(");
            text.append(control_str(*control));
            text.append(")");
            text
        },
        Permission::Audio { microphone_access, speaker_access } => {
            let mut text = String::from_str("Audio(microphone: ");
            text.append(flag_str(*microphone_access));
            text.append(", speaker: ");
            text.append(flag_str(*speaker_access));
            text.append(")");
            text
        },
        Permission::Video { camera_access, screen_recording_access } => {
            let mut text = String::from_str("Video(camera: ");
            text.append(flag_str(*camera_access));
            text.append(", screen_recording: ");
            text.append(flag_str(*screen_recording_access));
            text.append(")");
            text
        },
        Permission::Custom { id, .. } => {
            let mut text = String::from_str("Custom(");
            text.append(id.as_str());
            text.append(")");
            text
        },
    }
}

/// The line written when the plugin with the identifier `plugin` is
/// registered.
pub fn registered_message(plugin: &str) -> (line: String)
    ensures
        line@ == registered_line(plugin@),
{
    let mut line = String::from_str("plugin ");
    line.append(plugin);
    line.append(" registered");
    line
}

/// The line written when the plugin with the identifier `plugin` is
/// unregistered.
pub fn unregistered_message(plugin: &str) -> (line: String)
    ensures
        line@ == unregistered_line(plugin@),
{
    let mut line = String::from_str("plugin ");
    line.append(plugin);
    line.append(" unregistered");
    line
}

/// The line written for a check of `permission` that ended in `decision`.
pub fn check_message(plugin: &str, permission: &Permission, decision: &Decision) -> (line: String)
    ensures
        line@ == check_line(plugin@, permission@.key(), *decision),
{
    let mut line = String::from_str("plugin ");
    line.append(plugin);
    line.append(" check ");
    line.append(label(permission).as_str());
    line.append(": ");
    match decision {
        Decision::Granted => line.append("granted"),
        Decision::Denied(denial) => line.append(denial.reason().as_str()),
    }
    line
}

/// The line written when the user decides on `permission`.
pub fn decision_message(plugin: &str, permission: &Permission, granted: bool) -> (line: String)
    ensures
        line@ == decision_line(plugin@, permission@.key(), granted),
{
    let mut line = String::from_str("plugin ");
    line.append(plugin);
    if granted {
        line.append(" user granted ");
    } else {
        line.append(" user denied ");
    }
    line.append(label(permission).as_str());
    line
}

} // verus!
