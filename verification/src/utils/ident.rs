//! Random identifiers.

use vstd::prelude::*;

verus! {

/// Draws a version-4 UUID with `uuid::Uuid::new_v4` and formats it with its
/// `Display` impl. Nothing is claimed of the text: it is random. `new_v4`
/// panics where the system gives no random bytes.
#[verifier::external_body]
pub(crate) fn random_id() -> String {
    uuid::Uuid::new_v4().to_string()
}

} // verus!
