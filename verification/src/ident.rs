//! Fresh identifiers for the records the engine creates.
use vstd::prelude::*;

verus! {

/// The length of an identifier: 32 hexadecimal digits in five groups joined
/// by four hyphens.
pub const ID_LENGTH: usize = 36;

/// Draws a random version-4 UUID with `uuid::Uuid::new_v4` and renders it
/// with its `Display` form, which is the lower-case hyphenated one and
/// always 36 characters long. Which identifier comes back is left open; the
/// call panics if the operating system cannot supply random bytes.
#[verifier::external_body]
pub(crate) fn fresh_id() -> (id: String)
    ensures
        id@.len() == ID_LENGTH,
{
    uuid::Uuid::new_v4().to_string()
}

} // verus!
