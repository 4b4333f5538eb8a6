//! The plugin manager: the permission checker of the host together with
//! the manifests of the plugins it knows.

use vstd::prelude::*;
use vstd::string::StringExecFns;
use crate::capability::SecurityLevel;
use crate::checker::{CheckerModel, PermissionChecker};
use crate::constraints::ConstraintsModel;
use crate::manifest::{ManifestModel, PluginManifest};
use crate::plugin_id::{PluginId, FORM_MASK, RANDOM_FORM};

verus! {

/// Some manifest belongs to `id`.
pub open spec fn knows(manifests: Seq<ManifestModel>, id: PluginId) -> bool {
    exists|i: int| 0 <= i < manifests.len() && (#[trigger] manifests[i]).id == id
}

/// The place of the manifest of `id`, where there is one.
pub open spec fn known_at(manifests: Seq<ManifestModel>, id: PluginId) -> int {
    choose|i: int| 0 <= i < manifests.len() && (#[trigger] manifests[i]).id == id
}

/// No two manifests belong to the same plugin.
pub open spec fn distinct_manifests(manifests: Seq<ManifestModel>) -> bool {
    forall|i: int, j: int|
        0 <= i < j < manifests.len() ==> (#[trigger] manifests[i]).id != (#[trigger] manifests[j]).id
}

/// The manifests after `manifest` was stored: it takes the place of an
/// earlier manifest of the same plugin, or goes to the end.
pub open spec fn with_manifest(manifests: Seq<ManifestModel>, manifest: ManifestModel) -> Seq<
    ManifestModel,
> {
    if knows(manifests, manifest.id) {
        manifests.update(known_at(manifests, manifest.id), manifest)
    } else {
        manifests.push(manifest)
    }
}

/// The names of the plugins, in the order of their manifests.
pub open spec fn names(manifests: Seq<ManifestModel>) -> Seq<Seq<char>> {
    manifests.map_values(|m: ManifestModel| m.name)
}

/// The mathematical value of a manager.
pub struct ManagerModel {
    pub checker: CheckerModel,
    pub manifests: Seq<ManifestModel>,
}

/// The plugin manager of one host.
pub struct PluginManager {
    permission_checker: PermissionChecker,
    manifest: Vec<PluginManifest>,
}

impl View for PluginManager {
    type V = ManagerModel;

    closed spec fn view(&self) -> ManagerModel {
        ManagerModel {
            checker: self.permission_checker@,
            manifests: self.manifest@.map_values(|m: PluginManifest| m@),
        }
    }
}

impl PluginManager {
    /// A manager keeps one manifest for each plugin.
    #[verifier::type_invariant]
    pub open spec fn well_formed(&self) -> bool {
        distinct_manifests(self@.manifests)
    }

    /// A manager that knows no plugin, with a checker at level `Medium`.
    pub fn new() -> (manager: PluginManager)
        ensures
            manager@ == (ManagerModel {
                checker: CheckerModel {
                    policies: Seq::empty(),
                    constraints: ConstraintsModel {
                        denied_paths: Seq::empty(),
                        denied_domains: Seq::empty(),
                        available_devices: Map::empty(),
                        security_level: SecurityLevel::Medium,
                    },
                    log: Seq::empty(),
                },
                manifests: Seq::empty(),
            }),
    {
        let manager = PluginManager {
            permission_checker: PermissionChecker::new(SecurityLevel::Medium),
            manifest: Vec::new(),
        };
        assert(manager@.manifests =~= Seq::empty());
        manager
    }

    /// The place of the manifest of `id`, if the manager knows the plugin.
    fn find(&self, id: &PluginId) -> (found: Option<usize>)
        ensures
            match found {
                Some(i) => i < self@.manifests.len() && knows(self@.manifests, *id) && known_at(
                    self@.manifests,
                    *id,
                ) == i,
                None => !knows(self@.manifests, *id),
            },
    {
        proof {
            use_type_invariant(self);
        }
        let mut i: usize = 0;
        while i < self.manifest.len()
            invariant
                i <= self.manifest.len(),
                self.manifest.len() == self@.manifests.len(),
                distinct_manifests(self@.manifests),
                forall|j: int| 0 <= j < i ==> (#[trigger] self@.manifests[j]).id != *id,
            decreases self.manifest.len() - i,
        {
            assert(self@.manifests[i as int] == self.manifest@[i as int]@);
            if *self.manifest[i].id() == *id {
                proof {
                    let at = known_at(self@.manifests, *id);
                    if at < i {
                        assert(self@.manifests[at].id != self@.manifests[i as int].id);
                    } else if i < at {
                        assert(self@.manifests[i as int].id != self@.manifests[at].id);
                    }
                }
                return Some(i);
            }
            i += 1;
        }
        None
    }

    /// Stores `manifest`, in place of an earlier one of the same plugin.
    pub fn add_manifest(&mut self, manifest: PluginManifest)
        ensures
            final(self)@ == (ManagerModel {
                manifests: with_manifest(old(self)@.manifests, manifest@),
                ..old(self)@
            }),
    {
        proof {
            use_type_invariant(&*self);
        }
        let ghost before = self@.manifests;
        let ghost stored = manifest@;
        let found = self.find(manifest.id());
        let mut manifests: Vec<PluginManifest> = Vec::new();
        std::mem::swap(&mut manifests, &mut self.manifest);
        match found {
            Some(i) => {
                manifests.set(i, manifest);
            },
            None => {
                manifests.push(manifest);
            },
        }
        proof {
            let after = manifests@.map_values(|m: PluginManifest| m@);
            assert(after =~= with_manifest(before, stored));
            assert forall|i: int, j: int| 0 <= i < j < after.len() implies (#[trigger] after[i]).id != (
            #[trigger] after[j]).id by {
                if found is Some {
                    assert(after[i].id == before[i].id && after[j].id == before[j].id);
                    assert(before[i].id != before[j].id);
                } else {
                    if j < before.len() {
                        assert(before[i].id != before[j].id);
                    } else {
                        assert(before[i].id != stored.id);
                    }
                }
            }
        }
        self.manifest = manifests;
    }

    /// Makes a manifest for a new plugin called `name`, with a fresh random
    /// identifier, and stores it. Returns the identifier.
    pub fn add_plugin(&mut self, name: String) -> (id: PluginId)
        ensures
            id.value & FORM_MASK == RANDOM_FORM,
            final(self)@ == (ManagerModel {
                manifests: with_manifest(
                    old(self)@.manifests,
                    ManifestModel {
                        id,
                        name: name@,
                        version: "1.0.0"@,
                        author: Seq::empty(),
                        description: Seq::empty(),
                        entry_point: Seq::empty(),
                        api_version: "1.0"@,
                        permissions: Seq::empty(),
                    },
                ),
                ..old(self)@
            }),
    {
        let manifest = PluginManifest::new(name);
        let id = *manifest.id();
        self.add_manifest(manifest);
        id
    }

    /// The names of the plugins the manager knows, in the order in which
    /// they were first added.
    pub fn list_plugins(&self) -> (listed: Vec<String>)
        ensures
            listed.deep_view() == names(self@.manifests),
    {
        let mut listed: Vec<String> = Vec::new();
        let mut i: usize = 0;
        while i < self.manifest.len()
            invariant
                i <= self.manifest.len(),
                listed.len() == i,
                forall|j: int| 0 <= j < i ==> (#[trigger] listed@[j])@ == self.manifest@[j]@.name,
            decreases self.manifest.len() - i,
        {
            listed.push(String::from_str(self.manifest[i].name()));
            i += 1;
        }
        assert(listed.deep_view() =~= names(self@.manifests));
        listed
    }

    /// The permission checker.
    pub fn permission_checker(&self) -> (checker: &PermissionChecker)
        ensures
            checker@ == self@.checker,
    {
        &self.permission_checker
    }
}

} // verus!
