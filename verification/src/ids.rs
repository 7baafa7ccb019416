//! Identifiers of tests, suites, fixtures and runs.

use vstd::prelude::*;

verus! {

/// `uuid::Uuid`, carried through the library as an opaque value.
#[verifier::external_type_specification]
#[verifier::external_body]
pub struct ExUuid(uuid::Uuid);

/// `Uuid::new_v4`: a random identifier. Nothing is claimed of the value,
/// which differs from call to call.
#[verifier::external_body]
pub(crate) fn new_id() -> (id: uuid::Uuid) {
    uuid::Uuid::new_v4()
}

} // verus!
