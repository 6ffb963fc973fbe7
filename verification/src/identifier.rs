use vstd::prelude::*;

verus! {

/// Stable internal identifier of an index, held as the 128-bit value of a uuid.
#[derive(Clone, Copy, Debug, PartialEq, Eq, Structural, Hash)]
pub struct IndexUuid {
    pub value: u128,
}

/// Bits of a uuid that carry its version and its variant.
pub const VERSION_VARIANT_MASK: u128 = 0x0000_0000_0000_F000_C000_0000_0000_0000;

/// Version 4 (random) in the version bits, RFC variant in the variant bits.
pub const RANDOM_VERSION_VARIANT: u128 = 0x0000_0000_0000_4000_8000_0000_0000_0000;

/// Whether `value` is laid out as a random (version 4) uuid of the RFC variant.
pub open spec fn is_random_uuid(value: u128) -> bool {
    value & VERSION_VARIANT_MASK == RANDOM_VERSION_VARIANT
}

impl IndexUuid {
    /// The identifier whose 128-bit value is `value`.
    pub fn from_u128(value: u128) -> (id: IndexUuid)
        ensures
            id.value == value,
    {
        IndexUuid { value }
    }

    /// The 128-bit value of this identifier.
    pub fn as_u128(&self) -> (value: u128)
        ensures
            value == self.value,
    {
        self.value
    }

    /// Whether this identifier has the layout of a random (version 4) uuid.
    pub fn is_random(&self) -> (random: bool)
        ensures
            random == is_random_uuid(self.value),
    {
        self.value & VERSION_VARIANT_MASK == RANDOM_VERSION_VARIANT
    }
}

/// Draws a new identifier from `uuid::Uuid::new_v4` and keeps its 128-bit
/// value (`Uuid::as_u128`).
///
/// Trusted: the value comes from the operating system's random source, so
/// nothing is claimed about it beyond the version and variant bits that
/// `new_v4` sets on every uuid it returns. In particular it is not claimed to
/// differ from any identifier drawn before.
#[verifier::external_body]
pub(crate) fn random_uuid() -> (id: IndexUuid)
    ensures
        is_random_uuid(id.value),
{
    IndexUuid { value: uuid::Uuid::new_v4().as_u128() }
}

} // verus!
