//! Identifiers of tasks, workflows and runs: the 128 bits of a UUID.

use vstd::prelude::*;

verus! {

/// The bits that say which version and variant a UUID has.
pub const VERSION_AND_VARIANT: u128 = 0x0000_0000_0000_f000_c000_0000_0000_0000;

/// Those bits in a random UUID: version 4, variant 1.
pub const RANDOM_UUID: u128 = 0x0000_0000_0000_4000_8000_0000_0000_0000;

/// Whether the identifier has the version and the variant of a random UUID.
pub open spec fn is_random_uuid(id: u128) -> bool {
    id & VERSION_AND_VARIANT == RANDOM_UUID
}

/// `Uuid::new_v4`, read off with `Uuid::as_u128`.
///
/// Trusted: the bits of version and variant are those that `new_v4` sets.
/// The other bits are random, and nothing is claimed of them. `uuid` stops
/// the program if the system has no random bytes to give.
#[verifier::external_body]
pub(crate) fn fresh_id() -> (id: u128)
    ensures
        is_random_uuid(id),
{
    uuid::Uuid::new_v4().as_u128()
}

} // verus!
