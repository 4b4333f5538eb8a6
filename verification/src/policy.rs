//! The policy of one plugin: the grant status of each capability it declared.

use vstd::prelude::*;
use crate::capability::{Capability, CapabilityKey, Permission, PermissionStatus};
use crate::plugin_id::PluginId;

verus! {

/// The mathematical value of a policy: the plugin it belongs to and its
/// entries, in the order in which the capabilities were first declared.
pub struct PolicyModel {
    pub plugin_id: PluginId,
    pub entries: Seq<(Capability, PermissionStatus)>,
}

/// Some entry is filed under `key`.
pub open spec fn has_entry(entries: Seq<(Capability, PermissionStatus)>, key: CapabilityKey) -> bool {
    exists|i: int| 0 <= i < entries.len() && (#[trigger] entries[i]).0.key() == key
}

/// The place of an entry filed under `key`, where there is one.
pub open spec fn entry_position(
    entries: Seq<(Capability, PermissionStatus)>,
    key: CapabilityKey,
) -> int {
    choose|i: int| 0 <= i < entries.len() && (#[trigger] entries[i]).0.key() == key
}

/// The status recorded under `key`, or `None` where nothing was declared.
pub open spec fn status_of(
    entries: Seq<(Capability, PermissionStatus)>,
    key: CapabilityKey,
) -> Option<PermissionStatus> {
    if has_entry(entries, key) {
        Some(entries[entry_position(entries, key)].1)
    } else {
        None
    }
}

/// No two entries are filed under the same key.
pub open spec fn distinct_keys(entries: Seq<(Capability, PermissionStatus)>) -> bool {
    forall|i: int, j: int|
        0 <= i < j < entries.len() ==> (#[trigger] entries[i]).0.key() != (
        #[trigger] entries[j]).0.key()
}

/// The entries after `status` was recorded for `capability`: the entry under
/// its key keeps its place and its capability and gets the status; where
/// there is none, a new entry is added at the end.
pub open spec fn with_status(
    entries: Seq<(Capability, PermissionStatus)>,
    capability: Capability,
    status: PermissionStatus,
) -> Seq<(Capability, PermissionStatus)> {
    if has_entry(entries, capability.key()) {
        let i = entry_position(entries, capability.key());
        entries.update(i, (entries[i].0, status))
    } else {
        entries.push((capability, status))
    }
}

/// The requests of plugin `plugin_id` that still wait for a decision: its
/// entries with status `NotDecided`, in order.
pub open spec fn pending_from(
    plugin_id: PluginId,
    entries: Seq<(Capability, PermissionStatus)>,
) -> Seq<(PluginId, Capability)>
    decreases entries.len(),
{
    if entries.len() == 0 {
        Seq::empty()
    } else {
        let rest = pending_from(plugin_id, entries.drop_last());
        if entries.last().1 == PermissionStatus::NotDecided {
            rest.push((plugin_id, entries.last().0))
        } else {
            rest
        }
    }
}

/// With distinct keys, an entry found under a key is the entry under it.
pub proof fn lemma_entry_position(
    entries: Seq<(Capability, PermissionStatus)>,
    key: CapabilityKey,
    i: int,
)
    requires
        distinct_keys(entries),
        0 <= i < entries.len(),
        entries[i].0.key() == key,
    ensures
        has_entry(entries, key),
        entry_position(entries, key) == i,
        status_of(entries, key) == Some(entries[i].1),
{
    let j = entry_position(entries, key);
    assert(0 <= j < entries.len() && entries[j].0.key() == key);
    if i < j {
        assert(entries[i].0.key() != entries[j].0.key());
    } else if j < i {
        assert(entries[j].0.key() != entries[i].0.key());
    }
}

/// Recording a status keeps the keys distinct, sets the status under the
/// capability's key, and leaves the status under every other key as it was.
pub proof fn lemma_with_status(
    entries: Seq<(Capability, PermissionStatus)>,
    capability: Capability,
    status: PermissionStatus,
)
    requires
        distinct_keys(entries),
    ensures
        distinct_keys(with_status(entries, capability, status)),
        status_of(with_status(entries, capability, status), capability.key()) == Some(status),
        forall|key: CapabilityKey|
            key != capability.key() ==> #[trigger] status_of(
                with_status(entries, capability, status),
                key,
            ) == status_of(entries, key),
        forall|key: CapabilityKey|
            #[trigger] has_entry(with_status(entries, capability, status), key) <==> (key
                == capability.key() || has_entry(entries, key)),
{
    let after = with_status(entries, capability, status);
    if has_entry(entries, capability.key()) {
        let p = entry_position(entries, capability.key());
        assert(after.len() == entries.len());
        assert forall|i: int| 0 <= i < after.len() implies (#[trigger] after[i]).0.key()
            == entries[i].0.key() by {}
        assert forall|i: int, j: int| 0 <= i < j < after.len() implies (#[trigger] after[i]).0.key()
            != (#[trigger] after[j]).0.key() by {
            assert(entries[i].0.key() != entries[j].0.key());
        }
        lemma_entry_position(after, capability.key(), p);
        assert forall|key: CapabilityKey| #[trigger]
            has_entry(after, key) <==> (key == capability.key() || has_entry(entries, key)) by {
            if has_entry(after, key) {
                let i = entry_position(after, key);
                assert(entries[i].0.key() == key);
            }
            if has_entry(entries, key) {
                let i = entry_position(entries, key);
                assert(after[i].0.key() == key);
            }
        }
        assert forall|key: CapabilityKey| key != capability.key() implies #[trigger] status_of(
            after,
            key,
        ) == status_of(entries, key) by {
            if has_entry(entries, key) {
                let i = entry_position(entries, key);
                assert(after[i].0.key() == key);
                assert(i != p);
                lemma_entry_position(after, key, i);
            }
        }
    } else {
        let n = entries.len() as int;
        assert(after.len() == n + 1);
        assert(after[n].0.key() == capability.key());
        assert forall|i: int| 0 <= i < n implies #[trigger] after[i] == entries[i] by {}
        assert forall|i: int, j: int| 0 <= i < j < after.len() implies (#[trigger] after[i]).0.key()
            != (#[trigger] after[j]).0.key() by {
            if j < n {
                assert(entries[i].0.key() != entries[j].0.key());
            } else {
                assert(entries[i].0.key() != capability.key());
            }
        }
        lemma_entry_position(after, capability.key(), n);
        assert forall|key: CapabilityKey| #[trigger]
            has_entry(after, key) <==> (key == capability.key() || has_entry(entries, key)) by {
            if has_entry(after, key) {
                let i = entry_position(after, key);
                if i < n {
                    assert(entries[i].0.key() == key);
                }
            }
            if has_entry(entries, key) {
                let i = entry_position(entries, key);
                assert(after[i].0.key() == key);
            }
        }
        assert forall|key: CapabilityKey| key != capability.key() implies #[trigger] status_of(
            after,
            key,
        ) == status_of(entries, key) by {
            if has_entry(entries, key) {
                let i = entry_position(entries, key);
                assert(after[i].0.key() == key);
                lemma_entry_position(after, key, i);
            }
        }
    }
}

/// The policy of one plugin.
pub struct PluginPolicy {
    plugin_id: PluginId,
    entries: Vec<(Permission, PermissionStatus)>,
}

impl View for PluginPolicy {
    type V = PolicyModel;

    closed spec fn view(&self) -> PolicyModel {
        PolicyModel {
            plugin_id: self.plugin_id,
            entries: self.entries@.map_values(|e: (Permission, PermissionStatus)| (e.0@, e.1)),
        }
    }
}

impl PluginPolicy {
    /// Every policy files at most one entry under a key.
    #[verifier::type_invariant]
    pub open spec fn well_formed(&self) -> bool {
        distinct_keys(self@.entries)
    }

    /// The empty policy of `plugin_id`.
    pub fn new(plugin_id: PluginId) -> (policy: PluginPolicy)
        ensures
            policy@ == (PolicyModel { plugin_id, entries: Seq::empty() }),
    {
        let policy = PluginPolicy { plugin_id, entries: Vec::new() };
        assert(policy@.entries =~= Seq::empty());
        policy
    }

    /// The plugin this policy belongs to.
    pub fn plugin_id(&self) -> (id: PluginId)
        ensures
            id == self@.plugin_id,
    {
        self.plugin_id
    }

    /// The place of the entry for `permission`, if it was declared.
    fn find(&self, permission: &Permission) -> (found: Option<usize>)
        ensures
            match found {
                Some(i) => i < self@.entries.len() && has_entry(self@.entries, permission@.key())
                    && entry_position(self@.entries, permission@.key()) == i,
                None => !has_entry(self@.entries, permission@.key()),
            },
    {
        proof {
            use_type_invariant(self);
        }
        let mut i: usize = 0;
        while i < self.entries.len()
            invariant
                i <= self.entries.len(),
                self.entries.len() == self@.entries.len(),
                distinct_keys(self@.entries),
                forall|j: int| 0 <= j < i ==> (#[trigger] self@.entries[j]).0.key() != permission@.key(),
            decreases self.entries.len() - i,
        {
            assert(self@.entries[i as int].0 == self.entries@[i as int].0@);
            if self.entries[i].0.same_capability(permission) {
                proof {
                    lemma_entry_position(self@.entries, permission@.key(), i as int);
                }
                return Some(i);
            }
            i += 1;
        }
        None
    }

    /// True exactly when `permission` was declared and its status is
    /// `Granted`; anything else fails closed.
    pub fn allowed(&self, permission: &Permission) -> (ok: bool)
        ensures
            ok == (status_of(self@.entries, permission@.key()) == Some(PermissionStatus::Granted)),
    {
        match self.find(permission) {
            Some(i) => self.entries[i].1 == PermissionStatus::Granted,
            None => false,
        }
    }

    /// The status recorded for `permission`, or `None` where it was not
    /// declared.
    pub fn get_status(&self, permission: &Permission) -> (status: Option<PermissionStatus>)
        ensures
            status == status_of(self@.entries, permission@.key()),
    {
        match self.find(permission) {
            Some(i) => Some(self.entries[i].1),
            None => None,
        }
    }

    /// Records `status` for `permission`, adding an entry where there was none.
    pub fn update_status(&mut self, permission: Permission, status: PermissionStatus)
        ensures
            final(self)@.plugin_id == old(self)@.plugin_id,
            final(self)@.entries == with_status(old(self)@.entries, permission@, status),
    {
        proof {
            use_type_invariant(&*self);
            lemma_with_status(self@.entries, permission@, status);
        }
        let found = self.find(&permission);
        let mut entries: Vec<(Permission, PermissionStatus)> = Vec::new();
        std::mem::swap(&mut entries, &mut self.entries);
        match found {
            Some(i) => {
                entries[i].1 = status;
            },
            None => {
                entries.push((permission, status));
            },
        }
        assert(entries@.map_values(|e: (Permission, PermissionStatus)| (e.0@, e.1))
            =~= with_status(old(self)@.entries, permission@, status));
        self.entries = entries;
    }

    /// The requests of this plugin that still wait for a decision.
    pub fn pending_requests(&self) -> (requests: Vec<(PluginId, Permission)>)
        ensures
            requests@.map_values(|r: (PluginId, Permission)| (r.0, r.1@)) == pending_from(
                self@.plugin_id,
                self@.entries,
            ),
    {
        let mut requests: Vec<(PluginId, Permission)> = Vec::new();
        let mut i: usize = 0;
        assert(self@.entries.take(0) =~= Seq::empty());
        while i < self.entries.len()
            invariant
                i <= self.entries.len(),
                self.entries.len() == self@.entries.len(),
                requests@.map_values(|r: (PluginId, Permission)| (r.0, r.1@)) =~= pending_from(
                    self@.plugin_id,
                    self@.entries.take(i as int),
                ),
            decreases self.entries.len() - i,
        {
            proof {
                let all = self@.entries;
                assert(all.take(i as int + 1).drop_last() =~= all.take(i as int));
                assert(all.take(i as int + 1).last() == all[i as int]);
                assert(all[i as int] == (self.entries@[i as int].0@, self.entries@[i as int].1));
            }
            if self.entries[i].1 == PermissionStatus::NotDecided {
                requests.push((self.plugin_id, self.entries[i].0.duplicate()));
            }
            i += 1;
        }
        assert(self@.entries.take(i as int) =~= self@.entries);
        requests
    }

    /// The number of entries.
    pub fn len(&self) -> (n: usize)
        ensures
            n == self@.entries.len(),
    {
        self.entries.len()
    }

    /// All entries with their status, in the order of first declaration.
    pub fn permission_iter(&self) -> (pairs: Vec<(Permission, PermissionStatus)>)
        ensures
            pairs@.map_values(|e: (Permission, PermissionStatus)| (e.0@, e.1)) == self@.entries,
    {
        let mut pairs: Vec<(Permission, PermissionStatus)> = Vec::new();
        let mut i: usize = 0;
        while i < self.entries.len()
            invariant
                i <= self.entries.len(),
                pairs.len() == i,
                forall|j: int|
                    0 <= j < i ==> (#[trigger] pairs@[j]).0@ == self.entries@[j].0@ && pairs@[j].1
                        == self.entries@[j].1,
            decreases self.entries.len() - i,
        {
            pairs.push((self.entries[i].0.duplicate(), self.entries[i].1));
            i += 1;
        }
        assert(pairs@.map_values(|e: (Permission, PermissionStatus)| (e.0@, e.1))
            =~= self@.entries);
        pairs
    }
}

} // verus!
