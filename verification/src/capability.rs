//! The capability model: the kinds of privileged action a plugin may ask for,
//! and the grant status the engine records for each.

use vstd::prelude::*;
use crate::text::{copy_texts, same_texts};

verus! {

/// How much of a path a plugin may touch.
#[derive(Debug, Clone, Copy, PartialEq, Eq, Structural, Hash)]
pub enum FileAccessLevel {
    ReadOnly,
    ReadWrite,
    Execute,
    Full,
}

/// How far a plugin may reach over the network.
#[derive(Debug, Clone, Copy, PartialEq, Eq, Structural, Hash)]
pub enum NetworkAccessLevel {
    LocalOnly,
    SpecificDomains,
    FullInternet,
}

/// The host facilities a plugin may drive.
#[derive(Debug, Clone, Copy, PartialEq, Eq, Structural, Hash)]
pub enum SystemControl {
    ProcessManagement,
    WindowControl,
    PowerManagement,
    HardwareInfo,
    ClipboardAccess,
    NotificationSend,
}

/// What the engine has recorded for one declared capability.
#[derive(Debug, Clone, Copy, PartialEq, Eq, Structural, Hash)]
pub enum PermissionStatus {
    Granted,
    Denied,
    NotDecided,
    SystemDenied,
}

/// How strict the host is configured to be.
#[derive(Debug, Clone, Copy, PartialEq, Eq, Structural, Hash)]
pub enum SecurityLevel {
    Low,
    Medium,
    High,
    Paranoid,
}

/// Trusted: `serde_json::Value`, carried through as an opaque payload.
#[verifier::external_type_specification]
#[verifier::external_body]
pub struct ExJsonValue(serde_json::Value);

/// A capability as a plugin declares or uses it.
#[derive(Debug, Clone, PartialEq, Eq)]
#[allow(inconsistent_fields)]
pub enum Permission {
    FileSystem { path: String, access_level: FileAccessLevel },
    Network { access_level: NetworkAccessLevel, domains: Vec<String> },
    System { control: SystemControl, params: serde_json::Value },
    Audio { microphone_access: bool, speaker_access: bool },
    Video { camera_access: bool, screen_recording_access: bool },
    Custom { id: String, params: serde_json::Value },
}

/// The mathematical value of a `Permission`.
#[allow(inconsistent_fields)]
pub enum Capability {
    FileSystem { path: Seq<char>, access_level: FileAccessLevel },
    Network { access_level: NetworkAccessLevel, domains: Seq<Seq<char>> },
    System { control: SystemControl, params: serde_json::Value },
    Audio { microphone_access: bool, speaker_access: bool },
    Video { camera_access: bool, screen_recording_access: bool },
    Custom { id: Seq<char>, params: serde_json::Value },
}

/// What identifies a capability inside a policy: its kind and its primary
/// fields. The opaque parameters of `System` and `Custom` take no part.
#[allow(inconsistent_fields)]
pub enum CapabilityKey {
    FileSystem { path: Seq<char>, access_level: FileAccessLevel },
    Network { access_level: NetworkAccessLevel, domains: Seq<Seq<char>> },
    System { control: SystemControl },
    Audio { microphone_access: bool, speaker_access: bool },
    Video { camera_access: bool, screen_recording_access: bool },
    Custom { id: Seq<char> },
}

impl Capability {
    /// The identity under which a policy files this capability.
    pub open spec fn key(self) -> CapabilityKey {
        match self {
            Capability::FileSystem { path, access_level } => CapabilityKey::FileSystem {
                path,
                access_level,
            },
            Capability::Network { access_level, domains } => CapabilityKey::Network {
                access_level,
                domains,
            },
            Capability::System { control, params } => CapabilityKey::System { control },
            Capability::Audio { microphone_access, speaker_access } => CapabilityKey::Audio {
                microphone_access,
                speaker_access,
            },
            Capability::Video { camera_access, screen_recording_access } => CapabilityKey::Video {
                camera_access,
                screen_recording_access,
            },
            Capability::Custom { id, params } => CapabilityKey::Custom { id },
        }
    }
}

impl View for Permission {
    type V = Capability;

    open spec fn view(&self) -> Capability {
        match *self {
            Permission::FileSystem { path, access_level } => Capability::FileSystem {
                path: path@,
                access_level,
            },
            Permission::Network { access_level, domains } => Capability::Network {
                access_level,
                domains: domains.deep_view(),
            },
            Permission::System { control, params } => Capability::System { control, params },
            Permission::Audio { microphone_access, speaker_access } => Capability::Audio {
                microphone_access,
                speaker_access,
            },
            Permission::Video { camera_access, screen_recording_access } => Capability::Video {
                camera_access,
                screen_recording_access,
            },
            Permission::Custom { id, params } => Capability::Custom { id: id@, params },
        }
    }
}

/// Trusted: `Clone::clone` of `serde_json::Value`, which builds a value equal
/// to the one it was given.
pub assume_specification[ <serde_json::Value as Clone>::clone ](
    params: &serde_json::Value,
) -> (copy: serde_json::Value)
    ensures
        copy == *params,
;

impl Permission {
    /// Whether `self` and `other` are the same capability for a policy: the
    /// same kind with the same primary fields.
    pub fn same_capability(&self, other: &Permission) -> (same: bool)
        ensures
            same == (self@.key() == other@.key()),
    {
        match (self, other) {
            (
                Permission::FileSystem { path, access_level },
                Permission::FileSystem { path: other_path, access_level: other_level },
            ) => *path == *other_path && *access_level == *other_level,
            (
                Permission::Network { access_level, domains },
                Permission::Network { access_level: other_level, domains: other_domains },
            ) => *access_level == *other_level && same_texts(domains, other_domains),
            (
                Permission::System { control, .. },
                Permission::System { control: other_control, .. },
            ) => *control == *other_control,
            (
                Permission::Audio { microphone_access, speaker_access },
                Permission::Audio { microphone_access: other_microphone, speaker_access: other_speaker },
            ) => *microphone_access == *other_microphone && *speaker_access == *other_speaker,
            (
                Permission::Video { camera_access, screen_recording_access },
                Permission::Video { camera_access: other_camera, screen_recording_access: other_screen },
            ) => *camera_access == *other_camera && *screen_recording_access == *other_screen,
            (Permission::Custom { id, .. }, Permission::Custom { id: other_id, .. }) => *id
                == *other_id,
            _ => false,
        }
    }

    /// A copy with the same value, parameters included.
    pub fn duplicate(&self) -> (copy: Permission)
        ensures
            copy@ == self@,
    {
        match self {
            Permission::FileSystem { path, access_level } => Permission::FileSystem {
                path: path.clone(),
                access_level: *access_level,
            },
            Permission::Network { access_level, domains } => Permission::Network {
                access_level: *access_level,
                domains: copy_texts(domains),
            },
            Permission::System { control, params } => Permission::System {
                control: *control,
                params: params.clone(),
            },
            Permission::Audio { microphone_access, speaker_access } => Permission::Audio {
                microphone_access: *microphone_access,
                speaker_access: *speaker_access,
            },
            Permission::Video { camera_access, screen_recording_access } => Permission::Video {
                camera_access: *camera_access,
                screen_recording_access: *screen_recording_access,
            },
            Permission::Custom { id, params } => Permission::Custom {
                id: id.clone(),
                params: params.clone(),
            },
        }
    }
}

} // verus!
