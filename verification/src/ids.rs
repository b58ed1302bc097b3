//! Fresh identifiers.

use vstd::prelude::*;

verus! {

/// The length of a fresh identifier.
pub const ID_LENGTH: usize = 36;

/// Calls `uuid::Uuid::new_v4` and writes it in hyphenated form, which has 36
/// characters. Which ones is left to chance.
#[verifier::external_body]
fn random_uuid() -> (r: String)
    ensures
        r@.len() == 36,
{
    uuid::Uuid::new_v4().to_string()
}

/// A fresh identifier.
pub fn new_id() -> (r: String)
    ensures
        r@.len() == ID_LENGTH,
{
    random_uuid()
}

// --- What the calls do ---

/// A new identifier has the length of a hyphenated UUID.
pub proof fn identifiers_have_one_length(
    r: String,
)
    requires
        call_ensures(new_id, (), r),
    ensures
        r@.len() == 36,
{
}

} // verus!
