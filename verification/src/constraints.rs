//! Process-wide constraints: the deny lists and the configured security
//! level that every decision consults, whatever the plugin.

use std::collections::HashMap;
use vstd::prelude::*;
use crate::capability::{
    Capability, NetworkAccessLevel, Permission, PermissionStatus, SecurityLevel, SystemControl,
};
use crate::text::{any_occurs_in, contains_any};

verus! {

/// The mathematical value of the constraints.
pub struct ConstraintsModel {
    pub denied_paths: Seq<Seq<char>>,
    pub denied_domains: Seq<Seq<char>>,
    pub available_devices: Map<String, bool>,
    pub security_level: SecurityLevel,
}

/// A capability that needs a human decision before it is granted: a path
/// under a denied location, unrestricted network access, power management.
pub open spec fn is_dangerous(capability: Capability, constraints: ConstraintsModel) -> bool {
    match capability {
        Capability::FileSystem { path, .. } => any_occurs_in(constraints.denied_paths, path),
        Capability::Network { access_level, .. } => access_level
            == NetworkAccessLevel::FullInternet,
        Capability::System { control, .. } => control == SystemControl::PowerManagement,
        _ => false,
    }
}

/// The status a capability gets when its plugin is registered.
pub open spec fn initial_status(
    capability: Capability,
    constraints: ConstraintsModel,
) -> PermissionStatus {
    if is_dangerous(capability, constraints) {
        PermissionStatus::NotDecided
    } else {
        PermissionStatus::Granted
    }
}

/// No domain of `domains` contains a denied domain.
pub open spec fn domains_clear(domains: Seq<Seq<char>>, denied: Seq<Seq<char>>) -> bool {
    forall|k: int| 0 <= k < domains.len() ==> !any_occurs_in(denied, #[trigger] domains[k])
}

/// The global gate: a path must contain no denied path, and every requested
/// domain no denied domain. Other kinds are not constrained here.
pub open spec fn passes(capability: Capability, constraints: ConstraintsModel) -> bool {
    match capability {
        Capability::FileSystem { path, .. } => !any_occurs_in(constraints.denied_paths, path),
        Capability::Network { domains, .. } => domains_clear(domains, constraints.denied_domains),
        _ => true,
    }
}

/// Whether no domain of `domains` contains a text of `denied`.
pub fn domains_pass(domains: &Vec<String>, denied: &Vec<String>) -> (ok: bool)
    ensures
        ok == domains_clear(domains.deep_view(), denied.deep_view()),
{
    let mut k: usize = 0;
    while k < domains.len()
        invariant
            k <= domains.len(),
            forall|j: int|
                0 <= j < k ==> !any_occurs_in(
                    denied.deep_view(),
                    #[trigger] domains.deep_view()[j],
                ),
        decreases domains.len() - k,
    {
        assert(domains.deep_view()[k as int] == domains@[k as int]@);
        if contains_any(domains[k].as_str(), denied) {
            return false;
        }
        k += 1;
    }
    true
}

/// The process-wide constraints of one host.
pub struct SystemConstraints {
    denied_paths: Vec<String>,
    denied_domains: Vec<String>,
    available_devices: HashMap<String, bool>,
    security_level: SecurityLevel,
}

impl View for SystemConstraints {
    type V = ConstraintsModel;

    closed spec fn view(&self) -> ConstraintsModel {
        ConstraintsModel {
            denied_paths: self.denied_paths.deep_view(),
            denied_domains: self.denied_domains.deep_view(),
            available_devices: self.available_devices@,
            security_level: self.security_level,
        }
    }
}

impl SystemConstraints {
    /// Constraints with empty deny lists, no known device and the given level.
    pub fn new(security_level: SecurityLevel) -> (constraints: SystemConstraints)
        ensures
            constraints@ == (ConstraintsModel {
                denied_paths: Seq::empty(),
                denied_domains: Seq::empty(),
                available_devices: Map::empty(),
                security_level,
            }),
    {
        let constraints = SystemConstraints {
            denied_paths: Vec::new(),
            denied_domains: Vec::new(),
            available_devices: HashMap::new(),
            security_level,
        };
        assert(constraints.denied_paths.deep_view() =~= Seq::empty());
        assert(constraints.denied_domains.deep_view() =~= Seq::empty());
        constraints
    }

    /// Adds a text that no granted path may contain.
    pub fn add_denied_path(&mut self, path: String)
        ensures
            final(self)@ == (ConstraintsModel {
                denied_paths: old(self)@.denied_paths.push(path@),
                ..old(self)@
            }),
    {
        self.denied_paths.push(path);
        assert(self.denied_paths.deep_view() =~= old(self).denied_paths.deep_view().push(path@));
    }

    /// Adds a text that no requested domain may contain.
    pub fn add_denied_domain(&mut self, domain: String)
        ensures
            final(self)@ == (ConstraintsModel {
                denied_domains: old(self)@.denied_domains.push(domain@),
                ..old(self)@
            }),
    {
        self.denied_domains.push(domain);
        assert(self.denied_domains.deep_view() =~= old(self).denied_domains.deep_view().push(
            domain@,
        ));
    }

    /// The configured security level.
    pub fn security_level(&self) -> (level: SecurityLevel)
        ensures
            level == self@.security_level,
    {
        self.security_level
    }

    /// Whether `permission` needs a human decision before it is granted.
    pub fn is_dangerous(&self, permission: &Permission) -> (dangerous: bool)
        ensures
            dangerous == is_dangerous(permission@, self@),
    {
        match permission {
            Permission::FileSystem { path, .. } => contains_any(path.as_str(), &self.denied_paths),
            Permission::Network { access_level, .. } => *access_level
                == NetworkAccessLevel::FullInternet,
            Permission::System { control, .. } => *control == SystemControl::PowerManagement,
            _ => false,
        }
    }

    /// Whether `permission` gets through the global gate.
    pub fn passes(&self, permission: &Permission) -> (ok: bool)
        ensures
            ok == passes(permission@, self@),
    {
        match permission {
            Permission::FileSystem { path, .. } => !contains_any(path.as_str(), &self.denied_paths),
            Permission::Network { domains, .. } => domains_pass(domains, &self.denied_domains),
            _ => true,
        }
    }
}

} // verus!
