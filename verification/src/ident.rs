//! Identifiers for credentials.

use vstd::prelude::*;

verus! {

/// Bits of a UUID that hold its version and its variant.
pub const VERSION_AND_VARIANT_MASK: u128 = 0x0000_0000_0000_F000_C000_0000_0000_0000;

/// What those bits hold in a random (version 4) UUID of the RFC variant.
pub const RANDOM_RFC_BITS: u128 = 0x0000_0000_0000_4000_8000_0000_0000_0000;

/// The identifier has the shape of a random UUID.
pub open spec fn is_random_uuid(id: u128) -> bool {
    id & VERSION_AND_VARIANT_MASK == RANDOM_RFC_BITS
}

/// A fresh identifier: the 128-bit value of `uuid::Uuid::new_v4()`, read
/// with `Uuid::as_u128`.
///
/// Trusted, not proved. The value is random, so nothing is claimed of it but
/// what `new_v4` sets in every UUID it makes: version 4 and the RFC variant.
/// Two calls are not claimed to differ. `new_v4` panics if the operating
/// system cannot supply random bytes.
#[verifier::external_body]
pub(crate) fn fresh_id() -> (id: u128)
    ensures
        is_random_uuid(id),
{
    uuid::Uuid::new_v4().as_u128()
}

} // verus!
