//! What a check is asked with and what it answers: the live context of one
//! call, the reasons for which a use is denied, and the verdict.

use vstd::prelude::*;
use vstd::string::StringExecFns;
use crate::capability::{Capability, SystemControl};

verus! {

/// Live conditions at the time of one check. Never stored.
#[derive(Debug, Clone, Copy, PartialEq, Eq, Structural)]
pub struct CheckContext {
    pub is_screen_locked: bool,
    pub battery_level: Option<u8>,
    pub network_available: bool,
}

impl Default for CheckContext {
    /// An unlocked screen, a full battery and a reachable network.
    fn default() -> (context: CheckContext)
        ensures
            context == (CheckContext {
                is_screen_locked: false,
                battery_level: Some(100u8),
                network_available: true,
            }),
    {
        CheckContext { is_screen_locked: false, battery_level: Some(100), network_available: true }
    }
}

/// The three layers of a check, in the order in which they are asked.
#[derive(Debug, Clone, Copy, PartialEq, Eq, Structural)]
pub enum Layer {
    Policy,
    System,
    Context,
}

/// Why a use of a capability is denied.
#[derive(Debug, Clone, Copy, PartialEq, Eq, Structural)]
pub enum Denial {
    PluginNotFound,
    Policy,
    System,
    FileMissing,
    NetworkUnavailable,
    BatteryLow,
    ScreenLocked,
}

/// The battery level below which power management is refused.
pub const LOW_BATTERY: u8 = 10;

impl Denial {
    /// The layer that raised this denial.
    pub open spec fn layer(self) -> Layer {
        match self {
            Denial::PluginNotFound | Denial::Policy => Layer::Policy,
            Denial::System => Layer::System,
            _ => Layer::Context,
        }
    }

    /// The reason as the caller reads it.
    pub open spec fn reason_text(self) -> Seq<char> {
        match self {
            Denial::PluginNotFound => "plugin not found"@,
            Denial::Policy => "denied by policy"@,
            Denial::System => "denied by system"@,
            Denial::FileMissing => "file does not exist"@,
            Denial::NetworkUnavailable => "network unavailable"@,
            Denial::BatteryLow => "battery too low"@,
            Denial::ScreenLocked => "Cannot access clipboard when screen is locked"@,
        }
    }

    /// The reason as the caller reads it.
    pub fn reason(&self) -> (text: String)
        ensures
            text@ == self.reason_text(),
    {
        match self {
            Denial::PluginNotFound => String::from_str("plugin not found"),
            Denial::Policy => String::from_str("denied by policy"),
            Denial::System => String::from_str("denied by system"),
            Denial::FileMissing => String::from_str("file does not exist"),
            Denial::NetworkUnavailable => String::from_str("network unavailable"),
            Denial::BatteryLow => String::from_str("battery too low"),
            Denial::ScreenLocked => String::from_str(
                "Cannot access clipboard when screen is locked",
            ),
        }
    }
}

/// The outcome of the decision procedure, before it is put into words.
#[derive(Debug, Clone, Copy, PartialEq, Eq, Structural)]
pub enum Decision {
    Granted,
    Denied(Denial),
}

/// The verdict of one check as the caller gets it.
#[derive(Debug, Clone, PartialEq, Eq)]
pub enum CheckResult {
    Granted,
    Denied(String),
}

/// The mathematical value of a `CheckResult`.
pub enum Verdict {
    Granted,
    Denied(Seq<char>),
}

impl View for CheckResult {
    type V = Verdict;

    open spec fn view(&self) -> Verdict {
        match *self {
            CheckResult::Granted => Verdict::Granted,
            CheckResult::Denied(reason) => Verdict::Denied(reason@),
        }
    }
}

impl Decision {
    /// The verdict that reports this decision.
    pub open spec fn verdict(self) -> Verdict {
        match self {
            Decision::Granted => Verdict::Granted,
            Decision::Denied(denial) => Verdict::Denied(denial.reason_text()),
        }
    }

    /// The verdict that reports this decision.
    pub fn to_result(&self) -> (result: CheckResult)
        ensures
            result@ == self.verdict(),
    {
        match self {
            Decision::Granted => CheckResult::Granted,
            Decision::Denied(denial) => CheckResult::Denied(denial.reason()),
        }
    }
}

impl CheckResult {
    /// Whether the use was granted.
    pub fn is_granted(&self) -> (granted: bool)
        ensures
            granted == (self@ == Verdict::Granted),
    {
        match self {
            CheckResult::Granted => true,
            CheckResult::Denied(_) => false,
        }
    }
}

/// The context layer: what the live conditions forbid, if anything.
/// `path_exists` is the outcome of probing the path of a file capability.
pub open spec fn context_denial(
    capability: Capability,
    context: CheckContext,
    path_exists: bool,
) -> Option<Denial> {
    match capability {
        Capability::FileSystem { .. } => if path_exists {
            None
        } else {
            Some(Denial::FileMissing)
        },
        Capability::Network { .. } => if context.network_available {
            None
        } else {
            Some(Denial::NetworkUnavailable)
        },
        Capability::System { control, .. } => if control == SystemControl::PowerManagement {
            match context.battery_level {
                Some(level) => if level < LOW_BATTERY {
                    Some(Denial::BatteryLow)
                } else {
                    None
                },
                None => None,
            }
        } else if control == SystemControl::ClipboardAccess && context.is_screen_locked {
            Some(Denial::ScreenLocked)
        } else {
            None
        },
        _ => None,
    }
}

} // verus!
