//! What holds of the engine as a whole, proved over the mathematical values
//! that the contracts of the other modules speak of.

use vstd::prelude::*;
use crate::audit::check_line;
use crate::capability::{Capability, CapabilityKey, PermissionStatus};
use crate::checker::{
    distinct_plugins, has_plugin, lemma_plugin_position, pending, plugin_position,
    registered_entries, with_policy, CheckerModel,
};
use crate::constraints::{initial_status, is_dangerous, passes, ConstraintsModel};
use crate::decision::{context_denial, CheckContext, Decision, Denial, Layer};
use crate::plugin_id::PluginId;
use crate::policy::{
    distinct_keys, entry_position, has_entry, lemma_entry_position, lemma_with_status,
    pending_from, with_status, PolicyModel,
};

verus! {

/// Whether a capability is dangerous depends on its key alone.
pub proof fn danger_goes_by_key(a: Capability, b: Capability, constraints: ConstraintsModel)
    requires
        a.key() == b.key(),
    ensures
        is_dangerous(a, constraints) == is_dangerous(b, constraints),
        initial_status(a, constraints) == initial_status(b, constraints),
        passes(a, constraints) == passes(b, constraints),
{
}

/// The entries of a fresh policy: one for each declared key and no other,
/// each with the initial status of its capability.
pub proof fn registered_entries_classified(declared: Seq<Capability>, constraints: ConstraintsModel)
    ensures
        distinct_keys(registered_entries(declared, constraints)),
        forall|i: int|
            0 <= i < registered_entries(declared, constraints).len() ==> (
            #[trigger] registered_entries(declared, constraints)[i]).1 == initial_status(
                registered_entries(declared, constraints)[i].0,
                constraints,
            ),
        forall|key: CapabilityKey| #[trigger]
            has_entry(registered_entries(declared, constraints), key) <==> exists|k: int|
                0 <= k < declared.len() && (#[trigger] declared[k]).key() == key,
    decreases declared.len(),
{
    let entries = registered_entries(declared, constraints);
    if declared.len() > 0 {
        let earlier = declared.drop_last();
        let before = registered_entries(earlier, constraints);
        let last = declared.last();
        let status = initial_status(last, constraints);
        registered_entries_classified(earlier, constraints);
        lemma_with_status(before, last, status);
        assert forall|i: int| 0 <= i < entries.len() implies (#[trigger] entries[i]).1
            == initial_status(entries[i].0, constraints) by {
            if has_entry(before, last.key()) {
                let at = entry_position(before, last.key());
                if i == at {
                    danger_goes_by_key(before[at].0, last, constraints);
                } else {
                    assert(entries[i] == before[i]);
                }
            } else {
                if i < before.len() {
                    assert(entries[i] == before[i]);
                }
            }
        }
        assert forall|key: CapabilityKey| #[trigger]
            has_entry(entries, key) <==> exists|k: int|
                0 <= k < declared.len() && (#[trigger] declared[k]).key() == key by {
            if has_entry(entries, key) {
                if key == last.key() {
                    assert(declared[declared.len() - 1].key() == key);
                } else {
                    assert(has_entry(before, key));
                    let k = choose|k: int|
                        0 <= k < earlier.len() && (#[trigger] earlier[k]).key() == key;
                    assert(declared[k].key() == key);
                }
            }
            if exists|k: int| 0 <= k < declared.len() && (#[trigger] declared[k]).key() == key {
                let k = choose|k: int|
                    0 <= k < declared.len() && (#[trigger] declared[k]).key() == key;
                if k < earlier.len() {
                    assert(earlier[k].key() == key);
                    assert(has_entry(before, key));
                }
            }
        }
    } else {
        assert forall|key: CapabilityKey| !has_entry(entries, key) by {}
    }
}

/// Storing a policy keeps one policy for each plugin, makes the stored
/// policy that of its plugin, and leaves every other plugin's policy alone.
pub proof fn stored_policy_found(policies: Seq<PolicyModel>, policy: PolicyModel)
    requires
        distinct_plugins(policies),
    ensures
        distinct_plugins(with_policy(policies, policy)),
        has_plugin(with_policy(policies, policy), policy.plugin_id),
        with_policy(policies, policy)[plugin_position(
            with_policy(policies, policy),
            policy.plugin_id,
        )] == policy,
        forall|other: PluginId|
            other != policy.plugin_id ==> (#[trigger] has_plugin(
                with_policy(policies, policy),
                other,
            ) == has_plugin(policies, other)),
        forall|other: PluginId|
            other != policy.plugin_id && has_plugin(policies, other) ==> with_policy(
                policies,
                policy,
            )[#[trigger] plugin_position(with_policy(policies, policy), other)]
                == policies[plugin_position(policies, other)],
{
    let after = with_policy(policies, policy);
    let id = policy.plugin_id;
    if has_plugin(policies, id) {
        let at = plugin_position(policies, id);
        assert(after[at] == policy);
        assert forall|i: int, j: int| 0 <= i < j < after.len() implies (#[trigger] after[i]).plugin_id
            != (#[trigger] after[j]).plugin_id by {
            assert(after[i].plugin_id == policies[i].plugin_id);
            assert(after[j].plugin_id == policies[j].plugin_id);
            assert(policies[i].plugin_id != policies[j].plugin_id);
        }
        lemma_plugin_position(after, id, at);
        assert forall|other: PluginId| other != id implies (#[trigger] has_plugin(after, other)
            == has_plugin(policies, other)) by {
            if has_plugin(after, other) {
                let i = plugin_position(after, other);
                assert(policies[i].plugin_id == other);
            }
            if has_plugin(policies, other) {
                let i = plugin_position(policies, other);
                assert(after[i].plugin_id == other);
            }
        }
        assert forall|other: PluginId| other != id && has_plugin(policies, other) implies after[
        #[trigger] plugin_position(after, other)] == policies[plugin_position(policies, other)] by {
            let i = plugin_position(policies, other);
            assert(after[i] == policies[i]);
            lemma_plugin_position(after, other, i);
        }
    } else {
        let n = policies.len() as int;
        assert(after[n] == policy);
        assert forall|i: int, j: int| 0 <= i < j < after.len() implies (#[trigger] after[i]).plugin_id
            != (#[trigger] after[j]).plugin_id by {
            if j < n {
                assert(policies[i].plugin_id != policies[j].plugin_id);
            } else {
                assert(policies[i].plugin_id != id);
            }
        }
        lemma_plugin_position(after, id, n);
        assert forall|other: PluginId| other != id implies (#[trigger] has_plugin(after, other)
            == has_plugin(policies, other)) by {
            if has_plugin(after, other) {
                let i = plugin_position(after, other);
                assert(i < n);
                assert(policies[i].plugin_id == other);
            }
            if has_plugin(policies, other) {
                let i = plugin_position(policies, other);
                assert(after[i].plugin_id == other);
            }
        }
        assert forall|other: PluginId| other != id && has_plugin(policies, other) implies after[
        #[trigger] plugin_position(after, other)] == policies[plugin_position(policies, other)] by {
            let i = plugin_position(policies, other);
            assert(after[i] == policies[i]);
            lemma_plugin_position(after, other, i);
        }
    }
}

/// Registration classifies: once a plugin is registered, each capability it
/// declared has status `NotDecided` if it is dangerous and `Granted` if it
/// is not, and a capability it did not declare has no status.
pub proof fn registration_classifies(
    checker: CheckerModel,
    plugin_id: PluginId,
    declared: Seq<Capability>,
    capability: Capability,
)
    requires
        checker.well_formed(),
    ensures
        checker.registered(plugin_id, declared).well_formed(),
        has_plugin(checker.registered(plugin_id, declared).policies, plugin_id),
        (exists|k: int| 0 <= k < declared.len() && (#[trigger] declared[k]).key() == capability.key())
            ==> checker.registered(plugin_id, declared).status(plugin_id, capability.key())
            == Some(
            if is_dangerous(capability, checker.constraints) {
                PermissionStatus::NotDecided
            } else {
                PermissionStatus::Granted
            },
        ),
        !(exists|k: int| 0 <= k < declared.len() && (#[trigger] declared[k]).key() == capability.key())
            ==> checker.registered(plugin_id, declared).status(plugin_id, capability.key())
            is None,
{
    let entries = registered_entries(declared, checker.constraints);
    let policy = PolicyModel { plugin_id, entries };
    let after = checker.registered(plugin_id, declared);
    registered_entries_classified(declared, checker.constraints);
    stored_policy_found(checker.policies, policy);
    assert(after.policies == with_policy(checker.policies, policy));
    assert forall|i: int| 0 <= i < after.policies.len() implies distinct_keys(
        (#[trigger] after.policies[i]).entries,
    ) by {
        if after.policies[i] != policy {
            assert(i < checker.policies.len());
            assert(after.policies[i] == checker.policies[i]);
        }
    }
    if has_entry(entries, capability.key()) {
        let at = entry_position(entries, capability.key());
        danger_goes_by_key(entries[at].0, capability, checker.constraints);
    }
}

/// Registration is a full reset for the plugin and touches no other: the
/// policies of the other plugins, the constraints, and so every decision
/// about another plugin stay as they were.
pub proof fn registration_spares_others(
    checker: CheckerModel,
    plugin_id: PluginId,
    declared: Seq<Capability>,
    other: PluginId,
    capability: Capability,
    context: Option<CheckContext>,
    path_exists: bool,
)
    requires
        checker.well_formed(),
        other != plugin_id,
    ensures
        checker.registered(plugin_id, declared).constraints == checker.constraints,
        checker.registered(plugin_id, declared).status(other, capability.key()) == checker.status(
            other,
            capability.key(),
        ),
        checker.registered(plugin_id, declared).decide(other, capability, context, path_exists)
            == checker.decide(other, capability, context, path_exists),
{
    let entries = registered_entries(declared, checker.constraints);
    stored_policy_found(checker.policies, PolicyModel { plugin_id, entries });
}

/// A check is repeatable: it changes nothing but the log, and no decision
/// depends on the log. Asked again with the same plugin, capability,
/// context and probe, the checker decides as before.
pub proof fn check_repeats(
    checker: CheckerModel,
    plugin_id: PluginId,
    capability: Capability,
    context: Option<CheckContext>,
    path_exists: bool,
)
    ensures
        ({
            let first = checker.decide(plugin_id, capability, context, path_exists);
            let after = checker.logged(
                check_line(plugin_id.text(), capability.key(), first),
            );
            &&& after.policies == checker.policies
            &&& after.constraints == checker.constraints
            &&& after.decide(plugin_id, capability, context, path_exists) == first
        }),
{
}

/// Two checkers with the same policies and constraints decide alike,
/// whatever their logs hold.
pub proof fn decision_ignores_log(
    a: CheckerModel,
    b: CheckerModel,
    plugin_id: PluginId,
    capability: Capability,
    context: Option<CheckContext>,
    path_exists: bool,
)
    requires
        a.policies == b.policies,
        a.constraints == b.constraints,
    ensures
        a.decide(plugin_id, capability, context, path_exists) == b.decide(
            plugin_id,
            capability,
            context,
            path_exists,
        ),
{
}

/// A user decision changes the targeted entry and nothing else: the entry
/// gets the decided status, and the status of every other capability of
/// the plugin, and of every capability of every other plugin, stays as it
/// was, as do the registered plugins and the constraints.
pub proof fn decision_touches_one_entry(
    checker: CheckerModel,
    plugin_id: PluginId,
    capability: Capability,
    granted: bool,
    other: PluginId,
    key: CapabilityKey,
)
    requires
        checker.well_formed(),
        checker.status(plugin_id, capability.key()) is Some,
    ensures
        checker.decided(plugin_id, capability, granted).well_formed(),
        checker.decided(plugin_id, capability, granted).constraints == checker.constraints,
        checker.decided(plugin_id, capability, granted).status(plugin_id, capability.key())
            == Some(
            if granted {
                PermissionStatus::Granted
            } else {
                PermissionStatus::Denied
            },
        ),
        has_plugin(checker.decided(plugin_id, capability, granted).policies, other) == has_plugin(
            checker.policies,
            other,
        ),
        (other != plugin_id || key != capability.key()) ==> checker.decided(
            plugin_id,
            capability,
            granted,
        ).status(other, key) == checker.status(other, key),
{
    let at = plugin_position(checker.policies, plugin_id);
    let status = if granted {
        PermissionStatus::Granted
    } else {
        PermissionStatus::Denied
    };
    let policy = PolicyModel {
        plugin_id,
        entries: with_status(checker.policies[at].entries, capability, status),
    };
    let after = checker.decided(plugin_id, capability, granted);
    assert(has_plugin(checker.policies, plugin_id));
    assert(after.policies == with_policy(checker.policies, policy));
    stored_policy_found(checker.policies, policy);
    lemma_with_status(checker.policies[at].entries, capability, status);
    assert forall|i: int| 0 <= i < after.policies.len() implies distinct_keys(
        (#[trigger] after.policies[i]).entries,
    ) by {
        if i != at {
            assert(after.policies[i] == checker.policies[i]);
        }
    }
}

/// A user decision keeps every entry in its place with its capability:
/// the policy of the plugin has the entries it had, and only the status of
/// the targeted one may differ.
pub proof fn decision_keeps_entries(
    checker: CheckerModel,
    plugin_id: PluginId,
    capability: Capability,
    granted: bool,
)
    requires
        checker.well_formed(),
        checker.status(plugin_id, capability.key()) is Some,
    ensures
        ({
            let at = plugin_position(checker.policies, plugin_id);
            let before = checker.policies[at].entries;
            let after = checker.decided(plugin_id, capability, granted).policies[at].entries;
            &&& checker.decided(plugin_id, capability, granted).policies.len()
                == checker.policies.len()
            &&& after.len() == before.len()
            &&& forall|i: int|
                0 <= i < before.len() ==> (#[trigger] after[i]).0 == before[i].0
            &&& forall|i: int|
                0 <= i < before.len() && before[i].0.key() != capability.key() ==> (
                #[trigger] after[i]) == before[i]
            &&& forall|j: int|
                0 <= j < checker.policies.len() && j != at ==> (#[trigger] checker.decided(
                    plugin_id,
                    capability,
                    granted,
                ).policies[j]) == checker.policies[j]
        }),
{
    let at = plugin_position(checker.policies, plugin_id);
    assert(has_plugin(checker.policies, plugin_id));
    let before = checker.policies[at].entries;
    assert(has_entry(before, capability.key()));
}

/// A capability that was not declared is denied at the policy layer,
/// whatever the constraints and the context say: with "plugin not found"
/// where the plugin is not registered, else with "denied by policy".
pub proof fn undeclared_is_denied_by_policy(
    checker: CheckerModel,
    plugin_id: PluginId,
    capability: Capability,
    context: Option<CheckContext>,
    path_exists: bool,
)
    requires
        checker.status(plugin_id, capability.key()) is None,
    ensures
        checker.decide(plugin_id, capability, context, path_exists) == Decision::Denied(
            if has_plugin(checker.policies, plugin_id) {
                Denial::Policy
            } else {
                Denial::PluginNotFound
            },
        ),
        checker.decide(plugin_id, capability, context, path_exists)->Denied_0.layer()
            == Layer::Policy,
{
}

/// The first layer that objects gives the reason. A use that the policy
/// does not allow is denied at the policy layer even where the constraints
/// or the context would object too; one that the policy allows and the
/// constraints refuse is denied at the system layer even where the context
/// would object too; the context is heard only after both.
pub proof fn first_layer_reports(
    checker: CheckerModel,
    plugin_id: PluginId,
    capability: Capability,
    context: Option<CheckContext>,
    path_exists: bool,
)
    ensures
        ({
            let decision = checker.decide(plugin_id, capability, context, path_exists);
            let allowed = checker.status(plugin_id, capability.key()) == Some(
                PermissionStatus::Granted,
            );
            &&& !allowed ==> decision is Denied && decision->Denied_0.layer() == Layer::Policy
            &&& allowed && !passes(capability, checker.constraints) ==> decision
                == Decision::Denied(Denial::System)
            &&& allowed && passes(capability, checker.constraints) ==> decision == (match context {
                Some(ctx) => match context_denial(capability, ctx, path_exists) {
                    Some(denial) => Decision::Denied(denial),
                    None => Decision::Granted,
                },
                None => Decision::Granted,
            })
            &&& decision is Denied && decision->Denied_0.layer() == Layer::Context ==> allowed
                && passes(capability, checker.constraints)
        }),
{
}

/// Where the probe does not matter, the decision is the same whether the
/// path exists or not.
pub proof fn probe_only_where_it_matters(
    checker: CheckerModel,
    plugin_id: PluginId,
    capability: Capability,
    context: Option<CheckContext>,
)
    requires
        !checker.probe_matters(plugin_id, capability, context),
    ensures
        checker.decide(plugin_id, capability, context, true) == checker.decide(
            plugin_id,
            capability,
            context,
            false,
        ),
{
}

/// The reasons tell the denials apart, and so the layers.
pub proof fn reasons_are_distinct(a: Denial, b: Denial)
    requires
        a != b,
    ensures
        a.reason_text() != b.reason_text(),
{
    reveal_strlit("plugin not found");
    reveal_strlit("denied by policy");
    reveal_strlit("denied by system");
    reveal_strlit("file does not exist");
    reveal_strlit("network unavailable");
    reveal_strlit("battery too low");
    reveal_strlit("Cannot access clipboard when screen is locked");
    let x = a.reason_text();
    let y = b.reason_text();
    if x.len() == y.len() {
        assert(x[0] != y[0] || x[10] != y[10]);
    }
}

/// The requests of one plugin that wait for a decision are exactly its
/// entries with status `NotDecided`.
pub proof fn pending_from_is_exact(
    plugin_id: PluginId,
    entries: Seq<(Capability, PermissionStatus)>,
    request: (PluginId, Capability),
)
    ensures
        pending_from(plugin_id, entries).contains(request) <==> request.0 == plugin_id
            && entries.contains((request.1, PermissionStatus::NotDecided)),
    decreases entries.len(),
{
    let found = pending_from(plugin_id, entries);
    let wanted = (request.1, PermissionStatus::NotDecided);
    if entries.len() > 0 {
        let earlier = entries.drop_last();
        let rest = pending_from(plugin_id, earlier);
        pending_from_is_exact(plugin_id, earlier, request);
        if found.contains(request) {
            let i = choose|i: int| 0 <= i < found.len() && found[i] == request;
            if i < rest.len() {
                assert(rest[i] == request);
                assert(rest.contains(request));
                let j = choose|j: int| 0 <= j < earlier.len() && earlier[j] == wanted;
                assert(entries[j] == wanted);
            } else {
                assert(entries[entries.len() - 1] == wanted);
            }
        }
        if request.0 == plugin_id && entries.contains(wanted) {
            let j = choose|j: int| 0 <= j < entries.len() && entries[j] == wanted;
            if j < earlier.len() {
                assert(earlier[j] == wanted);
                assert(earlier.contains(wanted));
                let i = choose|i: int| 0 <= i < rest.len() && rest[i] == request;
                assert(found[i] == request);
            } else {
                assert(found[found.len() - 1] == request);
            }
        }
    }
}

/// The pending requests are exactly the entries with status `NotDecided`
/// across all registered plugins.
pub proof fn pending_is_exact(policies: Seq<PolicyModel>, request: (PluginId, Capability))
    ensures
        pending(policies).contains(request) <==> exists|i: int|
            0 <= i < policies.len() && (#[trigger] policies[i]).plugin_id == request.0
                && policies[i].entries.contains((request.1, PermissionStatus::NotDecided)),
    decreases policies.len(),
{
    let found = pending(policies);
    if policies.len() > 0 {
        let earlier = policies.drop_last();
        let last = policies.last();
        let rest = pending(earlier);
        let more = pending_from(last.plugin_id, last.entries);
        pending_is_exact(earlier, request);
        pending_from_is_exact(last.plugin_id, last.entries, request);
        if found.contains(request) {
            let i = choose|i: int| 0 <= i < found.len() && found[i] == request;
            if i < rest.len() {
                assert(rest[i] == request);
                assert(rest.contains(request));
                let k = choose|k: int|
                    0 <= k < earlier.len() && (#[trigger] earlier[k]).plugin_id == request.0
                        && earlier[k].entries.contains((request.1, PermissionStatus::NotDecided));
                assert(policies[k] == earlier[k]);
            } else {
                assert(more[i - rest.len()] == request);
                assert(more.contains(request));
                assert(policies[policies.len() - 1] == last);
            }
        }
        if exists|i: int|
            0 <= i < policies.len() && (#[trigger] policies[i]).plugin_id == request.0
                && policies[i].entries.contains((request.1, PermissionStatus::NotDecided)) {
            let k = choose|k: int|
                0 <= k < policies.len() && (#[trigger] policies[k]).plugin_id == request.0
                    && policies[k].entries.contains((request.1, PermissionStatus::NotDecided));
            if k < earlier.len() {
                assert(earlier[k] == policies[k]);
                assert(rest.contains(request));
                let i = choose|i: int| 0 <= i < rest.len() && rest[i] == request;
                assert(found[i] == request);
            } else {
                assert(more.contains(request));
                let i = choose|i: int| 0 <= i < more.len() && more[i] == request;
                assert(found[rest.len() + i] == request);
            }
        }
    }
}

/// Nothing waits for a decision where no entry has status `NotDecided`.
pub proof fn nothing_pending_when_all_decided(policies: Seq<PolicyModel>)
    requires
        forall|i: int, j: int|
            0 <= i < policies.len() && 0 <= j < policies[i].entries.len() ==> (
            #[trigger] policies[i].entries[j]).1 != PermissionStatus::NotDecided,
    ensures
        pending(policies) == Seq::<(PluginId, Capability)>::empty(),
{
    let found = pending(policies);
    if found.len() > 0 {
        let request = found[0];
        assert(found.contains(request));
        pending_is_exact(policies, request);
        let i = choose|i: int|
            0 <= i < policies.len() && (#[trigger] policies[i]).plugin_id == request.0
                && policies[i].entries.contains((request.1, PermissionStatus::NotDecided));
        let entries = policies[i].entries;
        let j = choose|j: int|
            0 <= j < entries.len() && entries[j] == (request.1, PermissionStatus::NotDecided);
        assert(policies[i].entries[j].1 == PermissionStatus::NotDecided);
    }
    assert(found =~= Seq::empty());
}

/// No request of one plugin is listed twice.
pub proof fn pending_from_lists_once(
    plugin_id: PluginId,
    entries: Seq<(Capability, PermissionStatus)>,
)
    requires
        distinct_keys(entries),
    ensures
        pending_from(plugin_id, entries).no_duplicates(),
    decreases entries.len(),
{
    if entries.len() > 0 {
        let earlier = entries.drop_last();
        let last = entries.last();
        let rest = pending_from(plugin_id, earlier);
        assert forall|i: int, j: int| 0 <= i < j < earlier.len() implies (#[trigger] earlier[i]).0.key()
            != (#[trigger] earlier[j]).0.key() by {
            assert(entries[i].0.key() != entries[j].0.key());
        }
        pending_from_lists_once(plugin_id, earlier);
        if last.1 == PermissionStatus::NotDecided {
            let request = (plugin_id, last.0);
            pending_from_is_exact(plugin_id, earlier, request);
            if rest.contains(request) {
                let j = choose|j: int| 0 <= j < earlier.len() && earlier[j] == last;
                assert(entries[j].0.key() != entries[entries.len() - 1].0.key());
            }
            assert forall|i: int, j: int|
                0 <= i < rest.len() + 1 && 0 <= j < rest.len() + 1 && i != j implies rest.push(
                request,
            )[i] != rest.push(request)[j] by {
                if i < rest.len() && j < rest.len() {
                    assert(rest[i] != rest[j]);
                } else if i < rest.len() {
                    assert(rest.contains(rest[i]));
                } else {
                    assert(rest.contains(rest[j]));
                }
            }
        }
    }
}

/// No pending request is listed twice.
pub proof fn pending_lists_once(policies: Seq<PolicyModel>)
    requires
        distinct_plugins(policies),
        forall|i: int| 0 <= i < policies.len() ==> distinct_keys((#[trigger] policies[i]).entries),
    ensures
        pending(policies).no_duplicates(),
    decreases policies.len(),
{
    if policies.len() > 0 {
        let earlier = policies.drop_last();
        let last = policies.last();
        let rest = pending(earlier);
        let more = pending_from(last.plugin_id, last.entries);
        assert forall|i: int, j: int| 0 <= i < j < earlier.len() implies (#[trigger] earlier[i]).plugin_id
            != (#[trigger] earlier[j]).plugin_id by {
            assert(policies[i].plugin_id != policies[j].plugin_id);
        }
        assert forall|i: int| 0 <= i < earlier.len() implies distinct_keys(
            (#[trigger] earlier[i]).entries,
        ) by {
            assert(earlier[i] == policies[i]);
        }
        pending_lists_once(earlier);
        assert(distinct_keys(policies[policies.len() - 1].entries));
        pending_from_lists_once(last.plugin_id, last.entries);
        assert forall|i: int, j: int| 0 <= i < rest.len() && 0 <= j < more.len() implies rest[i]
            != more[j] by {
            if rest[i] == more[j] {
                let request = rest[i];
                assert(rest.contains(request));
                assert(more.contains(request));
                pending_is_exact(earlier, request);
                pending_from_is_exact(last.plugin_id, last.entries, request);
                let k = choose|k: int|
                    0 <= k < earlier.len() && (#[trigger] earlier[k]).plugin_id == request.0
                        && earlier[k].entries.contains((request.1, PermissionStatus::NotDecided));
                assert(policies[k].plugin_id != policies[policies.len() - 1].plugin_id);
            }
        }
        vstd::seq_lib::lemma_no_dup_in_concat(rest, more);
    }
}

/// In terms of status: a capability of a registered plugin waits for a
/// decision exactly when its recorded status is `NotDecided`; and nothing
/// waits where no status is `NotDecided`.
pub proof fn pending_by_status(checker: CheckerModel, plugin_id: PluginId, key: CapabilityKey)
    requires
        checker.well_formed(),
    ensures
        checker.status(plugin_id, key) == Some(PermissionStatus::NotDecided) <==> exists|
            capability: Capability,
        |
            capability.key() == key && #[trigger] pending(checker.policies).contains(
                (plugin_id, capability),
            ),
{
    let policies = checker.policies;
    if checker.status(plugin_id, key) == Some(PermissionStatus::NotDecided) {
        let at = plugin_position(policies, plugin_id);
        let entries = policies[at].entries;
        let e = entry_position(entries, key);
        let capability = entries[e].0;
        assert(entries[e] == (capability, PermissionStatus::NotDecided));
        assert(entries.contains((capability, PermissionStatus::NotDecided)));
        pending_is_exact(policies, (plugin_id, capability));
        assert(pending(policies).contains((plugin_id, capability)));
    }
    if exists|capability: Capability|
        capability.key() == key && #[trigger] pending(policies).contains((plugin_id, capability)) {
        let capability = choose|capability: Capability|
            capability.key() == key && #[trigger] pending(policies).contains(
                (plugin_id, capability),
            );
        pending_is_exact(policies, (plugin_id, capability));
        let i = choose|i: int|
            0 <= i < policies.len() && (#[trigger] policies[i]).plugin_id == plugin_id
                && policies[i].entries.contains((capability, PermissionStatus::NotDecided));
        lemma_plugin_position(policies, plugin_id, i);
        let entries = policies[i].entries;
        let j = choose|j: int|
            0 <= j < entries.len() && entries[j] == (capability, PermissionStatus::NotDecided);
        lemma_entry_position(entries, key, j);
    }
}

/// Once a plugin is unregistered, every check for it is denied with
/// "plugin not found", and the other plugins keep their policies.
pub proof fn unregistered_is_unknown(
    checker: CheckerModel,
    plugin_id: PluginId,
    other: PluginId,
    capability: Capability,
    context: Option<CheckContext>,
    path_exists: bool,
)
    requires
        checker.well_formed(),
    ensures
        checker.unregistered(plugin_id).well_formed(),
        checker.unregistered(plugin_id).decide(plugin_id, capability, context, path_exists)
            == Decision::Denied(Denial::PluginNotFound),
        other != plugin_id ==> checker.unregistered(plugin_id).decide(
            other,
            capability,
            context,
            path_exists,
        ) == checker.decide(other, capability, context, path_exists),
{
    let before = checker.policies;
    let after = checker.unregistered(plugin_id).policies;
    if has_plugin(before, plugin_id) {
        let at = plugin_position(before, plugin_id);
        assert(after == before.remove(at));
        assert forall|i: int| 0 <= i < after.len() implies #[trigger] after[i] == before[if i
            < at {
            i
        } else {
            i + 1
        }] by {}
        assert forall|i: int, j: int| 0 <= i < j < after.len() implies (#[trigger] after[i]).plugin_id
            != (#[trigger] after[j]).plugin_id by {
            let i0 = if i < at { i } else { i + 1 };
            let j0 = if j < at { j } else { j + 1 };
            assert(before[i0].plugin_id != before[j0].plugin_id);
        }
        assert forall|i: int| 0 <= i < after.len() implies distinct_keys(
            (#[trigger] after[i]).entries,
        ) by {
            let i0 = if i < at { i } else { i + 1 };
            assert(after[i] == before[i0]);
        }
        if has_plugin(after, plugin_id) {
            let i = plugin_position(after, plugin_id);
            let i0 = if i < at { i } else { i + 1 };
            assert(after[i] == before[i0]);
            if i0 < at {
                assert(before[i0].plugin_id != before[at].plugin_id);
            } else {
                assert(before[at].plugin_id != before[i0].plugin_id);
            }
        }
        if other != plugin_id {
            if has_plugin(before, other) {
                let k = plugin_position(before, other);
                let k1 = if k < at { k } else { k - 1 };
                assert(after[k1] == before[k]);
                lemma_plugin_position(after, other, k1);
            }
            if has_plugin(after, other) {
                let k = plugin_position(after, other);
                let k0 = if k < at { k } else { k + 1 };
                assert(after[k] == before[k0]);
                lemma_plugin_position(before, other, k0);
            }
        }
    }
}

/// A file capability is dangerous exactly when the global gate refuses it:
/// both ask whether the path holds a denied text. So a grant by the user
/// lets a dangerous path through the policy layer only; as long as the deny
/// list stands, the system layer still refuses it.
pub proof fn dangerous_path_meets_the_gate(
    checker: CheckerModel,
    plugin_id: PluginId,
    capability: Capability,
    context: Option<CheckContext>,
    path_exists: bool,
)
    requires
        capability is FileSystem,
    ensures
        is_dangerous(capability, checker.constraints) == !passes(capability, checker.constraints),
        is_dangerous(capability, checker.constraints) && checker.status(
            plugin_id,
            capability.key(),
        ) == Some(PermissionStatus::Granted) ==> checker.decide(
            plugin_id,
            capability,
            context,
            path_exists,
        ) == Decision::Denied(Denial::System),
{
}

/// Some entry of some policy has the reserved status `SystemDenied`.
pub open spec fn holds_reserved_status(policies: Seq<PolicyModel>) -> bool {
    exists|i: int, j: int|
        0 <= i < policies.len() && 0 <= j < policies[i].entries.len() && (
        #[trigger] policies[i].entries[j]).1 == PermissionStatus::SystemDenied
}

/// The engine never assigns the reserved status: where no entry has it,
/// none has it after a registration, a user decision or an unregistration.
pub proof fn reserved_status_is_never_assigned(
    checker: CheckerModel,
    plugin_id: PluginId,
    declared: Seq<Capability>,
    capability: Capability,
    granted: bool,
)
    requires
        checker.well_formed(),
        !holds_reserved_status(checker.policies),
    ensures
        !holds_reserved_status(checker.registered(plugin_id, declared).policies),
        !holds_reserved_status(checker.unregistered(plugin_id).policies),
        checker.status(plugin_id, capability.key()) is Some ==> !holds_reserved_status(
            checker.decided(plugin_id, capability, granted).policies,
        ),
{
    let before = checker.policies;
    assert forall|i: int, j: int|
        0 <= i < before.len() && 0 <= j < before[i].entries.len() implies (
    #[trigger] before[i].entries[j]).1 != PermissionStatus::SystemDenied by {}
    {
        let entries = registered_entries(declared, checker.constraints);
        let after = checker.registered(plugin_id, declared).policies;
        registered_entries_classified(declared, checker.constraints);
        if holds_reserved_status(after) {
            let (i, j) = choose|i: int, j: int|
                0 <= i < after.len() && 0 <= j < after[i].entries.len() && (
                #[trigger] after[i].entries[j]).1 == PermissionStatus::SystemDenied;
            if after[i].entries == entries {
                assert(entries[j].1 == initial_status(entries[j].0, checker.constraints));
            } else {
                assert(after[i] == before[i]);
                assert(before[i].entries[j].1 != PermissionStatus::SystemDenied);
            }
        }
    }
    {
        let after = checker.unregistered(plugin_id).policies;
        if holds_reserved_status(after) {
            let (i, j) = choose|i: int, j: int|
                0 <= i < after.len() && 0 <= j < after[i].entries.len() && (
                #[trigger] after[i].entries[j]).1 == PermissionStatus::SystemDenied;
            let at = plugin_position(before, plugin_id);
            let i0 = if i < at { i } else { i + 1 };
            assert(after[i] == before[i0]);
            assert(before[i0].entries[j].1 != PermissionStatus::SystemDenied);
        }
    }
    if checker.status(plugin_id, capability.key()) is Some {
        let after = checker.decided(plugin_id, capability, granted).policies;
        let at = plugin_position(before, plugin_id);
        assert(has_plugin(before, plugin_id));
        if holds_reserved_status(after) {
            let (i, j) = choose|i: int, j: int|
                0 <= i < after.len() && 0 <= j < after[i].entries.len() && (
                #[trigger] after[i].entries[j]).1 == PermissionStatus::SystemDenied;
            if i == at {
                let e = entry_position(before[at].entries, capability.key());
                assert(has_entry(before[at].entries, capability.key()));
                if j != e {
                    assert(after[at].entries[j] == before[at].entries[j]);
                    assert(before[at].entries[j].1 != PermissionStatus::SystemDenied);
                }
            } else {
                assert(after[i] == before[i]);
                assert(before[i].entries[j].1 != PermissionStatus::SystemDenied);
            }
        }
    }
}

} // verus!
