//! The identity of a property: a token that tells two properties apart even
//! where they hold the same content.

use uuid::Uuid;
use vstd::prelude::*;

verus! {

/// `uuid::Uuid`, a 128-bit identifier. It is carried through as it is: nothing
/// in this library looks inside one.
#[verifier::external_type_specification]
#[verifier::external_body]
pub struct ExUuid(uuid::Uuid);

/// Calls `Uuid::new_v4`, which draws a random identifier from the operating
/// system's generator. Nothing is claimed of the value that comes back: two
/// calls may return anything, equal or not. The call panics where the operating
/// system hands out no random bytes.
#[verifier::external_body]
pub(crate) fn fresh_identity() -> (identity: Uuid) {
    Uuid::new_v4()
}

} // verus!
