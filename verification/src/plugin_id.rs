//! Plugin identifiers: 128-bit values, written and generated as UUIDs.

use vstd::prelude::*;

verus! {

/// The identifier under which a plugin is registered.
#[derive(Debug, Clone, Copy, PartialEq, Eq, Structural, Hash)]
pub struct PluginId {
    pub value: u128,
}

/// The bits of a UUID that hold its version and its variant.
pub const FORM_MASK: u128 = 0x0000_0000_0000_f000_c000_0000_0000_0000u128;

/// Those bits in a random UUID: version 4, variant 1.
pub const RANDOM_FORM: u128 = 0x0000_0000_0000_4000_8000_0000_0000_0000u128;

/// The hyphenated lower-case text of the UUID with this 128-bit value, such
/// as `67e55044-10b1-426f-9247-bb680e5fe0c8`.
pub uninterp spec fn hyphenated_text(value: u128) -> Seq<char>;

/// Trusted: `uuid::Uuid::new_v4`, read as a 128-bit value. Of the random
/// result only the version and variant bits are fixed.
#[verifier::external_body]
fn random_uuid() -> (value: u128)
    ensures
        value & FORM_MASK == RANDOM_FORM,
{
    uuid::Uuid::new_v4().as_u128()
}

/// Trusted: the `Display` text of `uuid::Uuid`, for the UUID built by
/// `Uuid::from_u128`. The text is a function of the value alone.
#[verifier::external_body]
fn uuid_text(value: u128) -> (text: String)
    ensures
        text@ == hyphenated_text(value),
{
    uuid::Uuid::from_u128(value).to_string()
}

impl PluginId {
    /// The identifier as text: the hyphenated form of its UUID.
    pub open spec fn text(self) -> Seq<char> {
        hyphenated_text(self.value)
    }

    /// The identifier with the given value.
    pub fn from_u128(value: u128) -> (id: PluginId)
        ensures
            id.value == value,
    {
        PluginId { value }
    }

    /// The identifier's value.
    pub fn as_u128(&self) -> (value: u128)
        ensures
            value == self.value,
    {
        self.value
    }

    /// A fresh random identifier.
    pub fn generate() -> (id: PluginId)
        ensures
            id.value & FORM_MASK == RANDOM_FORM,
    {
        PluginId { value: random_uuid() }
    }

    /// The identifier as hyphenated text.
    pub fn to_text(&self) -> (text: String)
        ensures
            text@ == self.text(),
    {
        uuid_text(self.value)
    }
}

} // verus!
