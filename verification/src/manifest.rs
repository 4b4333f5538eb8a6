//! The manifest of a plugin: who it is and what it asks for.

use vstd::prelude::*;
use vstd::string::StringExecFns;
use crate::capability::{Capability, CapabilityKey, Permission};
use crate::plugin_id::{PluginId, FORM_MASK, RANDOM_FORM};
use crate::text::{contains_digit, decimal, decimal_text, has_decimal_digit, trim, trimmed};

verus! {

/// The mathematical value of a manifest.
pub struct ManifestModel {
    pub id: PluginId,
    pub name: Seq<char>,
    pub version: Seq<char>,
    pub author: Seq<char>,
    pub description: Seq<char>,
    pub entry_point: Seq<char>,
    pub api_version: Seq<char>,
    pub permissions: Seq<Capability>,
}

/// Some declared capability has this key.
pub open spec fn declares(permissions: Seq<Capability>, key: CapabilityKey) -> bool {
    exists|i: int| 0 <= i < permissions.len() && (#[trigger] permissions[i]).key() == key
}

/// The place of the declared capability with this key, where there is one.
pub open spec fn declared_at(permissions: Seq<Capability>, key: CapabilityKey) -> int {
    choose|i: int| 0 <= i < permissions.len() && (#[trigger] permissions[i]).key() == key
}

/// No capability is declared twice.
pub open spec fn declared_once(permissions: Seq<Capability>) -> bool {
    forall|i: int, j: int|
        0 <= i < j < permissions.len() ==> (#[trigger] permissions[i]).key() != (
        #[trigger] permissions[j]).key()
}

/// What is wrong with a manifest, if anything. `name`, `version` and
/// `api_version` are the trimmed fields, `raw_version` the version as given.
pub open spec fn validation(
    name: Seq<char>,
    version: Seq<char>,
    api_version: Seq<char>,
    raw_version: Seq<char>,
) -> Option<Seq<char>> {
    if name.len() == 0 {
        Some("Plugin name cannot be empty"@)
    } else if version.len() == 0 {
        Some("Plugin version cannot be empty"@)
    } else if api_version.len() == 0 {
        Some("API version cannot be empty"@)
    } else if !has_decimal_digit(raw_version) {
        Some("Version must contain at least one number"@)
    } else {
        None
    }
}

/// The summary of a manifest in four lines. `id` is the identifier as text.
pub open spec fn info_text(
    name: Seq<char>,
    version: Seq<char>,
    id: Seq<char>,
    author: Seq<char>,
    description: Seq<char>,
    permissions: nat,
) -> Seq<char> {
    name + " v"@ + version + " (ID: "@ + id + ")\nAuthor: "@ + author + "\nDescription: "@
        + description + "\nPermissions: "@ + decimal_text(permissions)
}

/// The summary of a manifest in four lines: name and version with the
/// identifier, the author, the description, the number of declared
/// capabilities.
pub fn summary(
    name: &str,
    version: &str,
    id: &str,
    author: &str,
    description: &str,
    permissions: usize,
) -> (text: String)
    ensures
        text@ == info_text(name@, version@, id@, author@, description@, permissions as nat),
{
    let mut text = String::from_str(name);
    text.append(" v");
    text.append(version);
    text.append(" (ID: ");
    text.append(id);
    text.append(")\nAuthor: ");
    text.append(author);
    text.append("\nDescription: ");
    text.append(description);
    text.append("\nPermissions: ");
    text.append(decimal(permissions).as_str());
    text
}

/// The verdict on the trimmed fields of a manifest: `Err` with what is
/// wrong, `Ok` where nothing is.
pub fn validate_fields(name: &str, version: &str, api_version: &str, raw_version: &str) -> (result:
    Result<(), String>)
    ensures
        match validation(name@, version@, api_version@, raw_version@) {
            Some(message) => result is Err && result->Err_0@ == message,
            None => result is Ok,
        },
{
    if name.is_empty() {
        return Err(String::from_str("Plugin name cannot be empty"));
    }
    if version.is_empty() {
        return Err(String::from_str("Plugin version cannot be empty"));
    }
    if api_version.is_empty() {
        return Err(String::from_str("API version cannot be empty"));
    }
    if !contains_digit(raw_version) {
        return Err(String::from_str("Version must contain at least one number"));
    }
    Ok(())
}

/// The manifest of a plugin.
pub struct PluginManifest {
    id: PluginId,
    name: String,
    version: String,
    author: String,
    description: String,
    entry_point: String,
    api_version: String,
    permissions: Vec<Permission>,
}

impl View for PluginManifest {
    type V = ManifestModel;

    closed spec fn view(&self) -> ManifestModel {
        ManifestModel {
            id: self.id,
            name: self.name@,
            version: self.version@,
            author: self.author@,
            description: self.description@,
            entry_point: self.entry_point@,
            api_version: self.api_version@,
            permissions: self.permissions@.map_values(|p: Permission| p@),
        }
    }
}

impl PluginManifest {
    /// A manifest declares no capability twice.
    #[verifier::type_invariant]
    pub open spec fn well_formed(&self) -> bool {
        declared_once(self@.permissions)
    }

    /// The manifest of a new plugin with the given identifier: version
    /// "1.0.0", API version "1.0", everything else empty.
    pub fn with_id(id: PluginId, name: String) -> (manifest: PluginManifest)
        ensures
            manifest@ == (ManifestModel {
                id,
                name: name@,
                version: "1.0.0"@,
                author: Seq::empty(),
                description: Seq::empty(),
                entry_point: Seq::empty(),
                api_version: "1.0"@,
                permissions: Seq::empty(),
            }),
    {
        let manifest = PluginManifest {
            id,
            name,
            version: String::from_str("1.0.0"),
            author: String::new(),
            description: String::new(),
            permissions: Vec::new(),
            api_version: String::from_str("1.0"),
            entry_point: String::new(),
        };
        assert(manifest@.permissions =~= Seq::empty());
        manifest
    }

    /// The manifest of a new plugin with a fresh random identifier.
    pub fn new(name: String) -> (manifest: PluginManifest)
        ensures
            manifest@.id.value & FORM_MASK == RANDOM_FORM,
            manifest@ == (ManifestModel {
                id: manifest@.id,
                name: name@,
                version: "1.0.0"@,
                author: Seq::empty(),
                description: Seq::empty(),
                entry_point: Seq::empty(),
                api_version: "1.0"@,
                permissions: Seq::empty(),
            }),
    {
        PluginManifest::with_id(PluginId::generate(), name)
    }

    pub fn set_author(&mut self, author: String)
        ensures
            final(self)@ == (ManifestModel { author: author@, ..old(self)@ }),
    {
        proof {
            use_type_invariant(&*self);
        }
        self.author = author
    }

    pub fn set_description(&mut self, description: String)
        ensures
            final(self)@ == (ManifestModel { description: description@, ..old(self)@ }),
    {
        proof {
            use_type_invariant(&*self);
        }
        self.description = description
    }

    /// Sets the entry point to `path`, provided the file was found there.
    /// `exists` is what probing the path gave.
    pub fn set_entry_point(&mut self, path: String, exists: bool) -> (result: Result<(), String>)
        ensures
            exists ==> result is Ok && final(self)@ == (ManifestModel {
                entry_point: path@,
                ..old(self)@
            }),
            !exists ==> result is Err && result->Err_0@ == "Entry point file does not exist"@
                && final(self)@ == old(self)@,
    {
        proof {
            use_type_invariant(&*self);
        }
        if exists {
            self.entry_point = path;
            Ok(())
        } else {
            Err(String::from_str("Entry point file does not exist"))
        }
    }

    pub fn set_api_version(&mut self, api_version: String)
        ensures
            final(self)@ == (ManifestModel { api_version: api_version@, ..old(self)@ }),
    {
        proof {
            use_type_invariant(&*self);
        }
        self.api_version = api_version
    }

    pub fn id(&self) -> (id: &PluginId)
        ensures
            *id == self@.id,
    {
        &self.id
    }

    pub fn name(&self) -> (name: &str)
        ensures
            name@ == self@.name,
    {
        self.name.as_str()
    }

    pub fn version(&self) -> (version: &str)
        ensures
            version@ == self@.version,
    {
        self.version.as_str()
    }

    pub fn author(&self) -> (author: &str)
        ensures
            author@ == self@.author,
    {
        self.author.as_str()
    }

    pub fn description(&self) -> (description: &str)
        ensures
            description@ == self@.description,
    {
        self.description.as_str()
    }

    pub fn entry_point(&self) -> (path: &String)
        ensures
            path@ == self@.entry_point,
    {
        &self.entry_point
    }

    pub fn api_version(&self) -> (api_version: &str)
        ensures
            api_version@ == self@.api_version,
    {
        self.api_version.as_str()
    }

    /// The declared capabilities, in the order in which they were added.
    pub fn permissions(&self) -> (permissions: &[Permission])
        ensures
            permissions@.map_values(|p: Permission| p@) == self@.permissions,
    {
        self.permissions.as_slice()
    }

    /// The place of the declared capability that `permission` names.
    fn find(&self, permission: &Permission) -> (found: Option<usize>)
        ensures
            match found {
                Some(i) => i < self@.permissions.len() && declares(
                    self@.permissions,
                    permission@.key(),
                ) && declared_at(self@.permissions, permission@.key()) == i,
                None => !declares(self@.permissions, permission@.key()),
            },
    {
        proof {
            use_type_invariant(self);
        }
        let mut i: usize = 0;
        while i < self.permissions.len()
            invariant
                i <= self.permissions.len(),
                self.permissions.len() == self@.permissions.len(),
                declared_once(self@.permissions),
                forall|j: int|
                    0 <= j < i ==> (#[trigger] self@.permissions[j]).key() != permission@.key(),
            decreases self.permissions.len() - i,
        {
            assert(self@.permissions[i as int] == self.permissions@[i as int]@);
            if self.permissions[i].same_capability(permission) {
                proof {
                    let at = declared_at(self@.permissions, permission@.key());
                    if at < i {
                        assert(self@.permissions[at].key() != self@.permissions[i as int].key());
                    } else if i < at {
                        assert(self@.permissions[i as int].key() != self@.permissions[at].key());
                    }
                }
                return Some(i);
            }
            i += 1;
        }
        None
    }

    /// Declares `permission`, unless the manifest declares that capability
    /// already.
    pub fn add_permission(&mut self, permission: Permission) -> (result: Result<(), String>)
        ensures
            !declares(old(self)@.permissions, permission@.key()) ==> result is Ok && final(self)@
                == (ManifestModel {
                permissions: old(self)@.permissions.push(permission@),
                ..old(self)@
            }),
            declares(old(self)@.permissions, permission@.key()) ==> result is Err
                && result->Err_0@ == "Permission already exists"@ && final(self)@ == old(self)@,
    {
        proof {
            use_type_invariant(&*self);
        }
        if self.find(&permission).is_none() {
            let ghost before = self@.permissions;
            let mut permissions: Vec<Permission> = Vec::new();
            std::mem::swap(&mut permissions, &mut self.permissions);
            permissions.push(permission);
            proof {
                let after = permissions@.map_values(|p: Permission| p@);
                assert(after =~= before.push(permission@));
                assert forall|i: int, j: int| 0 <= i < j < after.len() implies (
                #[trigger] after[i]).key() != (#[trigger] after[j]).key() by {
                    if j < before.len() {
                        assert(before[i].key() != before[j].key());
                    } else {
                        assert(before[i].key() != permission@.key());
                    }
                }
            }
            self.permissions = permissions;
            Ok(())
        } else {
            Err(String::from_str("Permission already exists"))
        }
    }

    /// Whether the manifest declares the capability that `permission` names.
    pub fn has_permission(&self, permission: &Permission) -> (declared: bool)
        ensures
            declared == declares(self@.permissions, permission@.key()),
    {
        self.find(permission).is_some()
    }

    /// Withdraws the capability that `permission` names. Returns whether the
    /// manifest declared it.
    pub fn remove_permission(&mut self, permission: &Permission) -> (removed: bool)
        ensures
            removed == declares(old(self)@.permissions, permission@.key()),
            removed ==> final(self)@ == (ManifestModel {
                permissions: old(self)@.permissions.remove(
                    declared_at(old(self)@.permissions, permission@.key()),
                ),
                ..old(self)@
            }),
            !removed ==> final(self)@ == old(self)@,
    {
        proof {
            use_type_invariant(&*self);
        }
        if let Some(pos) = self.find(permission) {
            let ghost before = self@.permissions;
            let mut permissions: Vec<Permission> = Vec::new();
            std::mem::swap(&mut permissions, &mut self.permissions);
            let _ = permissions.remove(pos);
            proof {
                let after = permissions@.map_values(|p: Permission| p@);
                assert(after =~= before.remove(pos as int));
                assert forall|i: int, j: int| 0 <= i < j < after.len() implies (
                #[trigger] after[i]).key() != (#[trigger] after[j]).key() by {
                    let i0 = if i < pos { i } else { i + 1 };
                    let j0 = if j < pos { j } else { j + 1 };
                    assert(after[i] == before[i0] && after[j] == before[j0]);
                    assert(before[i0].key() != before[j0].key());
                }
            }
            self.permissions = permissions;
            true
        } else {
            false
        }
    }

    /// Checks the manifest: name, version and API version must hold more
    /// than white space, and the version at least one decimal digit. The
    /// first fault found is reported.
    pub fn validate(&self) -> (result: Result<(), String>)
        ensures
            match validation(
                trimmed(self@.name),
                trimmed(self@.version),
                trimmed(self@.api_version),
                self@.version,
            ) {
                Some(message) => result is Err && result->Err_0@ == message,
                None => result is Ok,
            },
    {
        validate_fields(
            trim(self.name.as_str()),
            trim(self.version.as_str()),
            trim(self.api_version.as_str()),
            self.version.as_str(),
        )
    }

    /// The summary of this manifest, in four lines.
    pub fn display_info(&self) -> (text: String)
        ensures
            text@ == info_text(
                self@.name,
                self@.version,
                self@.id.text(),
                self@.author,
                self@.description,
                self@.permissions.len(),
            ),
    {
        summary(
            self.name.as_str(),
            self.version.as_str(),
            self.id.to_text().as_str(),
            self.author.as_str(),
            self.description.as_str(),
            self.permissions.len(),
        )
    }
}

} // verus!
