//! Drawing identifiers.

use vstd::prelude::*;
use crate::task::TaskId;

verus! {

/// Whether `bits` are laid out as a random UUID: version 4 in the high
/// nibble of the seventh byte, and `10` in the top bits of the ninth.
pub open spec fn is_random_uuid(bits: u128) -> bool {
    bits & 0x0000_0000_0000_f000_c000_0000_0000_0000 == 0x0000_0000_0000_4000_8000_0000_0000_0000
}

/// Calls `uuid::Uuid::new_v4` and hands out the UUID's 128 bits, as
/// `Uuid::as_u128` packs them. Trusted, not proved: whatever the random
/// source gives, version and variant are set. The other bits come from the
/// operating system: two calls may differ, and nothing is claimed of them.
/// Where the operating system gives no random bytes, `new_v4` panics.
#[verifier::external_body]
fn random_uuid() -> (bits: u128)
    ensures
        is_random_uuid(bits),
{
    uuid::Uuid::new_v4().as_u128()
}

impl TaskId {
    /// A random identifier.
    pub fn random() -> (id: TaskId)
        ensures
            is_random_uuid(id.0),
    {
        TaskId(random_uuid())
    }
}

} // verus!
