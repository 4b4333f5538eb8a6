//! The permission checker: it owns every policy and the constraints, and
//! decides each use of a capability in three layers: the plugin's policy,
//! the global constraints, the live context.

use vstd::prelude::*;
use vstd::string::StringExecFns;
use crate::audit::{
    check_line, check_message, decision_line, decision_message, registered_line,
    registered_message, unregistered_line, unregistered_message,
};
use crate::capability::{
    Capability, CapabilityKey, Permission, PermissionStatus, SecurityLevel, SystemControl,
};
use crate::constraints::{initial_status, is_dangerous, passes, ConstraintsModel, SystemConstraints};
use crate::decision::{context_denial, CheckContext, CheckResult, Decision, Denial, LOW_BATTERY};
use crate::logger::Logger;
use crate::plugin_id::PluginId;
use crate::policy::{
    distinct_keys, pending_from, status_of, with_status, PluginPolicy, PolicyModel,
};

verus! {

/// Some policy belongs to `plugin_id`.
pub open spec fn has_plugin(policies: Seq<PolicyModel>, plugin_id: PluginId) -> bool {
    exists|i: int| 0 <= i < policies.len() && (#[trigger] policies[i]).plugin_id == plugin_id
}

/// The place of the policy of `plugin_id`, where there is one.
pub open spec fn plugin_position(policies: Seq<PolicyModel>, plugin_id: PluginId) -> int {
    choose|i: int| 0 <= i < policies.len() && (#[trigger] policies[i]).plugin_id == plugin_id
}

/// No two policies belong to the same plugin.
pub open spec fn distinct_plugins(policies: Seq<PolicyModel>) -> bool {
    forall|i: int, j: int|
        0 <= i < j < policies.len() ==> (#[trigger] policies[i]).plugin_id != (
        #[trigger] policies[j]).plugin_id
}

/// The policies after `policy` was stored: it takes the place of an earlier
/// policy of the same plugin, or goes to the end.
pub open spec fn with_policy(policies: Seq<PolicyModel>, policy: PolicyModel) -> Seq<PolicyModel> {
    if has_plugin(policies, policy.plugin_id) {
        policies.update(plugin_position(policies, policy.plugin_id), policy)
    } else {
        policies.push(policy)
    }
}

/// The policies without that of `plugin_id`.
pub open spec fn without_plugin(policies: Seq<PolicyModel>, plugin_id: PluginId) -> Seq<
    PolicyModel,
> {
    if has_plugin(policies, plugin_id) {
        policies.remove(plugin_position(policies, plugin_id))
    } else {
        policies
    }
}

/// The entries of a fresh policy for the declared capabilities: each is
/// classified and recorded in turn, so a capability declared twice keeps
/// its first place.
pub open spec fn registered_entries(
    declared: Seq<Capability>,
    constraints: ConstraintsModel,
) -> Seq<(Capability, PermissionStatus)>
    decreases declared.len(),
{
    if declared.len() == 0 {
        Seq::empty()
    } else {
        with_status(
            registered_entries(declared.drop_last(), constraints),
            declared.last(),
            initial_status(declared.last(), constraints),
        )
    }
}

/// All requests that wait for a decision: those of each plugin in turn.
pub open spec fn pending(policies: Seq<PolicyModel>) -> Seq<(PluginId, Capability)>
    decreases policies.len(),
{
    if policies.len() == 0 {
        Seq::empty()
    } else {
        pending(policies.drop_last()) + pending_from(
            policies.last().plugin_id,
            policies.last().entries,
        )
    }
}

/// The context as a value.
pub open spec fn live(context: Option<&CheckContext>) -> Option<CheckContext> {
    match context {
        Some(c) => Some(*c),
        None => None,
    }
}

/// The mathematical value of a checker: its policies in the order of
/// registration, its constraints and its audit log.
pub struct CheckerModel {
    pub policies: Seq<PolicyModel>,
    pub constraints: ConstraintsModel,
    pub log: Seq<Seq<char>>,
}

impl CheckerModel {
    /// One policy for each plugin, one entry for each key.
    pub open spec fn well_formed(self) -> bool {
        &&& distinct_plugins(self.policies)
        &&& forall|i: int|
            0 <= i < self.policies.len() ==> distinct_keys((#[trigger] self.policies[i]).entries)
    }

    /// The status recorded for `plugin_id` under `key`; `None` where the
    /// plugin is not registered or did not declare the capability.
    pub open spec fn status(self, plugin_id: PluginId, key: CapabilityKey) -> Option<
        PermissionStatus,
    > {
        if has_plugin(self.policies, plugin_id) {
            status_of(self.policies[plugin_position(self.policies, plugin_id)].entries, key)
        } else {
            None
        }
    }

    /// The decision procedure. The layers are asked in a fixed order and the
    /// first that objects gives the reason.
    pub open spec fn decide(
        self,
        plugin_id: PluginId,
        capability: Capability,
        context: Option<CheckContext>,
        path_exists: bool,
    ) -> Decision {
        if !has_plugin(self.policies, plugin_id) {
            Decision::Denied(Denial::PluginNotFound)
        } else if self.status(plugin_id, capability.key()) != Some(PermissionStatus::Granted) {
            Decision::Denied(Denial::Policy)
        } else if !passes(capability, self.constraints) {
            Decision::Denied(Denial::System)
        } else {
            match context {
                Some(ctx) => match context_denial(capability, ctx, path_exists) {
                    Some(denial) => Decision::Denied(denial),
                    None => Decision::Granted,
                },
                None => Decision::Granted,
            }
        }
    }

    /// Whether the outcome of a check can depend on probing the path: only
    /// where a file capability has come through policy and constraints and a
    /// context was supplied.
    pub open spec fn probe_matters(
        self,
        plugin_id: PluginId,
        capability: Capability,
        context: Option<CheckContext>,
    ) -> bool {
        &&& capability is FileSystem
        &&& context is Some
        &&& self.status(plugin_id, capability.key()) == Some(PermissionStatus::Granted)
        &&& passes(capability, self.constraints)
    }

    /// The checker after a line was written to the log.
    pub open spec fn logged(self, line: Seq<char>) -> CheckerModel {
        CheckerModel { log: self.log.push(line), ..self }
    }

    /// The checker after `plugin_id` was registered with `declared`.
    pub open spec fn registered(self, plugin_id: PluginId, declared: Seq<Capability>) -> CheckerModel {
        CheckerModel {
            policies: with_policy(
                self.policies,
                PolicyModel { plugin_id, entries: registered_entries(declared, self.constraints) },
            ),
            ..self
        }.logged(registered_line(plugin_id.text()))
    }

    /// The checker after `plugin_id` was unregistered.
    pub open spec fn unregistered(self, plugin_id: PluginId) -> CheckerModel {
        if has_plugin(self.policies, plugin_id) {
            CheckerModel { policies: without_plugin(self.policies, plugin_id), ..self }.logged(
                unregistered_line(plugin_id.text()),
            )
        } else {
            self
        }
    }

    /// The checker after the user decided on a capability that `plugin_id`
    /// declared.
    pub open spec fn decided(
        self,
        plugin_id: PluginId,
        capability: Capability,
        granted: bool,
    ) -> CheckerModel {
        let at = plugin_position(self.policies, plugin_id);
        let status = if granted {
            PermissionStatus::Granted
        } else {
            PermissionStatus::Denied
        };
        CheckerModel {
            policies: self.policies.update(
                at,
                PolicyModel {
                    plugin_id,
                    entries: with_status(self.policies[at].entries, capability, status),
                },
            ),
            ..self
        }.logged(decision_line(plugin_id.text(), capability.key(), granted))
    }
}

/// With distinct plugins, a policy found for a plugin is the policy of it.
pub proof fn lemma_plugin_position(policies: Seq<PolicyModel>, plugin_id: PluginId, i: int)
    requires
        distinct_plugins(policies),
        0 <= i < policies.len(),
        policies[i].plugin_id == plugin_id,
    ensures
        has_plugin(policies, plugin_id),
        plugin_position(policies, plugin_id) == i,
{
    let j = plugin_position(policies, plugin_id);
    assert(0 <= j < policies.len() && policies[j].plugin_id == plugin_id);
    if i < j {
        assert(policies[i].plugin_id != policies[j].plugin_id);
    } else if j < i {
        assert(policies[j].plugin_id != policies[i].plugin_id);
    }
}

/// The policy engine of one host.
pub struct PermissionChecker {
    plugin_policies: Vec<PluginPolicy>,
    system_constraints: SystemConstraints,
    logger: Logger,
}

impl View for PermissionChecker {
    type V = CheckerModel;

    closed spec fn view(&self) -> CheckerModel {
        CheckerModel {
            policies: self.plugin_policies@.map_values(|p: PluginPolicy| p@),
            constraints: self.system_constraints@,
            log: self.logger@,
        }
    }
}

impl PermissionChecker {
    /// Every checker keeps one policy for each plugin.
    #[verifier::type_invariant]
    pub open spec fn well_formed(&self) -> bool {
        self@.well_formed()
    }

    /// A checker without plugins, with empty deny lists and an empty log.
    pub fn new(security_level: SecurityLevel) -> (checker: PermissionChecker)
        ensures
            checker@ == (CheckerModel {
                policies: Seq::empty(),
                constraints: ConstraintsModel {
                    denied_paths: Seq::empty(),
                    denied_domains: Seq::empty(),
                    available_devices: Map::empty(),
                    security_level,
                },
                log: Seq::empty(),
            }),
    {
        let checker = PermissionChecker {
            plugin_policies: Vec::new(),
            system_constraints: SystemConstraints::new(security_level),
            logger: Logger::new(),
        };
        assert(checker@.policies =~= Seq::empty());
        checker
    }

    /// The constraints that every decision consults.
    pub fn constraints(&self) -> (constraints: &SystemConstraints)
        ensures
            constraints@ == self@.constraints,
    {
        &self.system_constraints
    }

    /// The audit log.
    pub fn logger(&self) -> (logger: &Logger)
        ensures
            logger@ == self@.log,
    {
        &self.logger
    }

    /// Adds a text that no granted path may contain. Later checks see it;
    /// statuses already recorded stay as they are.
    pub fn add_denied_path(&mut self, path: String)
        ensures
            final(self)@ == (CheckerModel {
                constraints: ConstraintsModel {
                    denied_paths: old(self)@.constraints.denied_paths.push(path@),
                    ..old(self)@.constraints
                },
                ..old(self)@
            }),
    {
        proof {
            use_type_invariant(&*self);
        }
        let mut constraints = SystemConstraints::new(self.system_constraints.security_level());
        std::mem::swap(&mut constraints, &mut self.system_constraints);
        constraints.add_denied_path(path);
        self.system_constraints = constraints;
    }

    /// Adds a text that no requested domain may contain.
    pub fn add_denied_domain(&mut self, domain: String)
        ensures
            final(self)@ == (CheckerModel {
                constraints: ConstraintsModel {
                    denied_domains: old(self)@.constraints.denied_domains.push(domain@),
                    ..old(self)@.constraints
                },
                ..old(self)@
            }),
    {
        proof {
            use_type_invariant(&*self);
        }
        let mut constraints = SystemConstraints::new(self.system_constraints.security_level());
        std::mem::swap(&mut constraints, &mut self.system_constraints);
        constraints.add_denied_domain(domain);
        self.system_constraints = constraints;
    }

    /// Writes one line to the audit log.
    fn record(&mut self, line: String)
        ensures
            final(self)@ == old(self)@.logged(line@),
    {
        proof {
            use_type_invariant(&*self);
        }
        let mut logger = Logger::new();
        std::mem::swap(&mut logger, &mut self.logger);
        logger.log(line.as_str());
        self.logger = logger;
    }

    /// The place of the policy of `plugin_id`, if it is registered.
    fn find_policy(&self, plugin_id: &PluginId) -> (found: Option<usize>)
        ensures
            match found {
                Some(i) => i < self@.policies.len() && has_plugin(self@.policies, *plugin_id)
                    && plugin_position(self@.policies, *plugin_id) == i,
                None => !has_plugin(self@.policies, *plugin_id),
            },
    {
        proof {
            use_type_invariant(self);
        }
        let mut i: usize = 0;
        while i < self.plugin_policies.len()
            invariant
                i <= self.plugin_policies.len(),
                self.plugin_policies.len() == self@.policies.len(),
                distinct_plugins(self@.policies),
                forall|j: int| 0 <= j < i ==> (#[trigger] self@.policies[j]).plugin_id != *plugin_id,
            decreases self.plugin_policies.len() - i,
        {
            assert(self@.policies[i as int] == self.plugin_policies@[i as int]@);
            if self.plugin_policies[i].plugin_id() == *plugin_id {
                proof {
                    lemma_plugin_position(self@.policies, *plugin_id, i as int);
                }
                return Some(i);
            }
            i += 1;
        }
        None
    }

    /// Whether `plugin_id` is registered.
    pub fn is_registered(&self, plugin_id: &PluginId) -> (registered: bool)
        ensures
            registered == has_plugin(self@.policies, *plugin_id),
    {
        self.find_policy(plugin_id).is_some()
    }

    /// The status recorded for `permission`; `None` where the plugin is not
    /// registered or did not declare it.
    pub fn status(&self, plugin_id: &PluginId, permission: &Permission) -> (status: Option<
        PermissionStatus,
    >)
        ensures
            status == self@.status(*plugin_id, permission@.key()),
    {
        match self.find_policy(plugin_id) {
            Some(i) => {
                assert(self@.policies[i as int] == self.plugin_policies@[i as int]@);
                self.plugin_policies[i].get_status(permission)
            },
            None => None,
        }
    }

    /// Whether `permission` needs a human decision before it is granted.
    pub fn is_dangerous_permission(&self, permission: &Permission) -> (dangerous: bool)
        ensures
            dangerous == is_dangerous(permission@, self@.constraints),
    {
        self.system_constraints.is_dangerous(permission)
    }

    /// Whether `permission` gets through the global gate.
    pub fn passes_system_constraints(&self, permission: &Permission) -> (ok: bool)
        ensures
            ok == passes(permission@, self@.constraints),
    {
        self.system_constraints.passes(permission)
    }

    /// The context layer: `Err` with the reason where the live conditions
    /// forbid the use. `path_exists` tells whether the path of a file
    /// capability was found when it was probed.
    pub fn check_context(
        &self,
        permission: &Permission,
        context: &CheckContext,
        path_exists: bool,
    ) -> (result: Result<(), Denial>)
        ensures
            result == match context_denial(permission@, *context, path_exists) {
                Some(denial) => Err::<(), Denial>(denial),
                None => Ok(()),
            },
    {
        match permission {
            Permission::FileSystem { .. } => {
                if !path_exists {
                    return Err(Denial::FileMissing);
                }
                Ok(())
            },
            Permission::Network { .. } => {
                if !context.network_available {
                    return Err(Denial::NetworkUnavailable);
                }
                Ok(())
            },
            Permission::System { control, .. } => {
                match control {
                    SystemControl::PowerManagement => {
                        if let Some(battery) = context.battery_level {
                            if battery < LOW_BATTERY {
                                return Err(Denial::BatteryLow);
                            }
                        }
                        Ok(())
                    },
                    SystemControl::ClipboardAccess => {
                        if context.is_screen_locked {
                            return Err(Denial::ScreenLocked);
                        }
                        Ok(())
                    },
                    _ => Ok(()),
                }
            },
            _ => Ok(()),
        }
    }

    /// The decision for one use of a capability, without writing to the log.
    pub fn decide(
        &self,
        plugin_id: &PluginId,
        permission: &Permission,
        context: Option<&CheckContext>,
        path_exists: bool,
    ) -> (decision: Decision)
        ensures
            decision == self@.decide(*plugin_id, permission@, live(context), path_exists),
    {
        let at = match self.find_policy(plugin_id) {
            Some(i) => i,
            None => {
                return Decision::Denied(Denial::PluginNotFound);
            },
        };
        assert(self@.policies[at as int] == self.plugin_policies@[at as int]@);
        if !self.plugin_policies[at].allowed(permission) {
            return Decision::Denied(Denial::Policy);
        }
        if !self.passes_system_constraints(permission) {
            return Decision::Denied(Denial::System);
        }
        if let Some(ctx) = context {
            match self.check_context(permission, ctx, path_exists) {
                Ok(_) => (),
                Err(denial) => {
                    return Decision::Denied(denial);
                },
            }
        }
        Decision::Granted
    }

    /// Whether the outcome of a check can depend on probing the path of
    /// `permission`. Where it cannot, the caller need not touch the disk.
    pub fn needs_path_probe(
        &self,
        plugin_id: &PluginId,
        permission: &Permission,
        context: Option<&CheckContext>,
    ) -> (needed: bool)
        ensures
            needed == self@.probe_matters(*plugin_id, permission@, live(context)),
    {
        match permission {
            Permission::FileSystem { .. } => {
                context.is_some() && self.status(plugin_id, permission) == Some(
                    PermissionStatus::Granted,
                ) && self.passes_system_constraints(permission)
            },
            _ => false,
        }
    }

    /// Decides one use of a capability and writes the outcome to the log.
    pub fn check(
        &mut self,
        plugin_id: &PluginId,
        permission: &Permission,
        context: Option<&CheckContext>,
        path_exists: bool,
    ) -> (result: CheckResult)
        ensures
            result@ == old(self)@.decide(
                *plugin_id,
                permission@,
                live(context),
                path_exists,
            ).verdict(),
            final(self)@ == old(self)@.logged(
                check_line(
                    plugin_id.text(),
                    permission@.key(),
                    old(self)@.decide(*plugin_id, permission@, live(context), path_exists),
                ),
            ),
    {
        let decision = self.decide(plugin_id, permission, context, path_exists);
        self.record(check_message(plugin_id.to_text().as_str(), permission, &decision));
        decision.to_result()
    }

    /// The seam for interactive prompting. The engine shows no prompt: the
    /// answer is always `NotDecided`, and the decision arrives later through
    /// `update_user_decision`.
    pub fn request_user_approval(&self, plugin_id: &PluginId, permission: &Permission) -> (status:
        PermissionStatus)
        ensures
            status == PermissionStatus::NotDecided,
    {
        PermissionStatus::NotDecided
    }
}

/// The declared capabilities as values.
pub open spec fn declared(permissions: Seq<Permission>) -> Seq<Capability> {
    permissions.map_values(|p: Permission| p@)
}

/// The requests as values.
pub open spec fn requests(pairs: Seq<(PluginId, Permission)>) -> Seq<(PluginId, Capability)> {
    pairs.map_values(|r: (PluginId, Permission)| (r.0, r.1@))
}

impl PermissionChecker {
    /// The fresh policy of `plugin_id` for what it declared.
    fn build_policy(&self, plugin_id: PluginId, permissions: Vec<Permission>) -> (policy:
        PluginPolicy)
        ensures
            policy@ == (PolicyModel {
                plugin_id,
                entries: registered_entries(declared(permissions@), self@.constraints),
            }),
    {
        let ghost all = declared(permissions@);
        let mut policy = PluginPolicy::new(plugin_id);
        assert(all.take(0) =~= Seq::empty());
        for permission in iter: permissions
            invariant
                all == declared(iter.seq()),
                policy@.plugin_id == plugin_id,
                policy@.entries == registered_entries(
                    all.take(iter.index() as int),
                    self@.constraints,
                ),
        {
            proof {
                let k = iter.index() as int;
                assert(all.take(k + 1).drop_last() =~= all.take(k));
                assert(all.take(k + 1).last() == permission@);
            }
            let status = if self.is_dangerous_permission(&permission) {
                PermissionStatus::NotDecided
            } else {
                PermissionStatus::Granted
            };
            policy.update_status(permission, status);
        }
        assert(all.take(all.len() as int) =~= all);
        policy
    }

    /// Registers `plugin_id` with the capabilities it declared. Each gets its
    /// initial status; a policy that the plugin had before is replaced as a
    /// whole. Registration never fails.
    pub fn register_plugin(&mut self, plugin_id: PluginId, permissions: Vec<Permission>) -> (result:
        Result<(), String>)
        ensures
            result is Ok,
            final(self)@ == old(self)@.registered(plugin_id, declared(permissions@)),
    {
        proof {
            use_type_invariant(&*self);
        }
        let policy = self.build_policy(plugin_id, permissions);
        let found = self.find_policy(&plugin_id);
        proof {
            use_type_invariant(&policy);
        }
        let ghost before = self@.policies;
        let ghost stored = policy@;
        let mut policies: Vec<PluginPolicy> = Vec::new();
        std::mem::swap(&mut policies, &mut self.plugin_policies);
        match found {
            Some(i) => {
                policies.set(i, policy);
            },
            None => {
                policies.push(policy);
            },
        }
        proof {
            let after = policies@.map_values(|p: PluginPolicy| p@);
            assert(after =~= with_policy(before, stored));
            assert forall|i: int, j: int| 0 <= i < j < after.len() implies (#[trigger] after[i]).plugin_id
                != (#[trigger] after[j]).plugin_id by {
                if found is Some {
                    let at = plugin_position(before, plugin_id);
                    if i != at && j != at {
                        assert(before[i].plugin_id != before[j].plugin_id);
                    } else if i == at {
                        assert(before[at].plugin_id != before[j].plugin_id);
                    } else {
                        assert(before[i].plugin_id != before[at].plugin_id);
                    }
                } else {
                    if j < before.len() {
                        assert(before[i].plugin_id != before[j].plugin_id);
                    } else {
                        assert(before[i].plugin_id != plugin_id);
                    }
                }
            }
            assert forall|i: int| 0 <= i < after.len() implies distinct_keys(
                (#[trigger] after[i]).entries,
            ) by {
                if i < before.len() && after[i] != stored {
                    assert(after[i] == before[i]);
                }
            }
        }
        self.plugin_policies = policies;
        self.record(registered_message(plugin_id.to_text().as_str()));
        Ok(())
    }

    /// Removes the policy of `plugin_id`. Returns whether there was one.
    pub fn unregister_plugin(&mut self, plugin_id: &PluginId) -> (removed: bool)
        ensures
            removed == has_plugin(old(self)@.policies, *plugin_id),
            final(self)@ == old(self)@.unregistered(*plugin_id),
    {
        proof {
            use_type_invariant(&*self);
        }
        let ghost before = self@.policies;
        match self.find_policy(plugin_id) {
            Some(i) => {
                let mut policies: Vec<PluginPolicy> = Vec::new();
                std::mem::swap(&mut policies, &mut self.plugin_policies);
                let _ = policies.remove(i);
                proof {
                    let after = policies@.map_values(|p: PluginPolicy| p@);
                    assert(after =~= without_plugin(before, *plugin_id));
                    assert forall|a: int, b: int| 0 <= a < b < after.len() implies (
                    #[trigger] after[a]).plugin_id != (#[trigger] after[b]).plugin_id by {
                        let a0 = if a < i { a } else { a + 1 };
                        let b0 = if b < i { b } else { b + 1 };
                        assert(after[a] == before[a0] && after[b] == before[b0]);
                        assert(before[a0].plugin_id != before[b0].plugin_id);
                    }
                    assert forall|a: int| 0 <= a < after.len() implies distinct_keys(
                        (#[trigger] after[a]).entries,
                    ) by {
                        let a0 = if a < i { a } else { a + 1 };
                        assert(after[a] == before[a0]);
                    }
                }
                self.plugin_policies = policies;
                self.record(unregistered_message(plugin_id.to_text().as_str()));
                true
            },
            None => false,
        }
    }

    /// Records the user's decision on a capability that the plugin declared.
    /// Fails, and changes nothing, where the plugin is not registered or did
    /// not declare the capability.
    pub fn update_user_decision(
        &mut self,
        plugin_id: &PluginId,
        permission: &Permission,
        decision: bool,
    ) -> (result: Result<(), String>)
        ensures
            match result {
                Ok(_) => {
                    &&& old(self)@.status(*plugin_id, permission@.key()) is Some
                    &&& final(self)@ == old(self)@.decided(*plugin_id, permission@, decision)
                },
                Err(message) => {
                    &&& old(self)@.status(*plugin_id, permission@.key()) is None
                    &&& final(self)@ == old(self)@
                    &&& message@ == (if has_plugin(old(self)@.policies, *plugin_id) {
                        "capability not declared"@
                    } else {
                        "plugin not found"@
                    })
                },
            },
    {
        proof {
            use_type_invariant(&*self);
        }
        let ghost before = self@.policies;
        let at = match self.find_policy(plugin_id) {
            Some(i) => i,
            None => {
                return Err(String::from_str("plugin not found"));
            },
        };
        assert(before[at as int] == self.plugin_policies@[at as int]@);
        if self.plugin_policies[at].get_status(permission).is_none() {
            return Err(String::from_str("capability not declared"));
        }
        let status = if decision {
            PermissionStatus::Granted
        } else {
            PermissionStatus::Denied
        };
        let mut policies: Vec<PluginPolicy> = Vec::new();
        std::mem::swap(&mut policies, &mut self.plugin_policies);
        policies[at].update_status(permission.duplicate(), status);
        let updated = &policies[at];
        proof {
            let after = policies@.map_values(|p: PluginPolicy| p@);
            use_type_invariant(updated);
            assert(after =~= old(self)@.decided(*plugin_id, permission@, decision).policies);
            assert forall|i: int, j: int| 0 <= i < j < after.len() implies (#[trigger] after[i]).plugin_id
                != (#[trigger] after[j]).plugin_id by {
                assert(after[i].plugin_id == before[i].plugin_id);
                assert(after[j].plugin_id == before[j].plugin_id);
                assert(before[i].plugin_id != before[j].plugin_id);
            }
            assert forall|i: int| 0 <= i < after.len() implies distinct_keys(
                (#[trigger] after[i]).entries,
            ) by {
                if i != at {
                    assert(after[i] == before[i]);
                }
            }
        }
        self.plugin_policies = policies;
        self.record(decision_message(plugin_id.to_text().as_str(), permission, decision));
        Ok(())
    }

    /// The requests that wait for a decision: every entry with status
    /// `NotDecided`, plugin by plugin in the order of registration, and for
    /// each plugin in the order of declaration.
    pub fn get_pending_requests(&self) -> (waiting: Vec<(PluginId, Permission)>)
        ensures
            requests(waiting@) == pending(self@.policies),
    {
        let mut waiting: Vec<(PluginId, Permission)> = Vec::new();
        let mut i: usize = 0;
        assert(self@.policies.take(0) =~= Seq::empty());
        while i < self.plugin_policies.len()
            invariant
                i <= self.plugin_policies.len(),
                self.plugin_policies.len() == self@.policies.len(),
                requests(waiting@) =~= pending(self@.policies.take(i as int)),
            decreases self.plugin_policies.len() - i,
        {
            let mut more = self.plugin_policies[i].pending_requests();
            proof {
                let all = self@.policies;
                assert(all.take(i as int + 1).drop_last() =~= all.take(i as int));
                assert(all.take(i as int + 1).last() == self.plugin_policies@[i as int]@);
                assert(requests(waiting@ + more@) =~= requests(waiting@) + requests(more@));
            }
            waiting.append(&mut more);
            i += 1;
        }
        assert(self@.policies.take(i as int) =~= self@.policies);
        waiting
    }
}

} // verus!
