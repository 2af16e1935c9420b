//! Fresh identifiers for orders and positions.

use vstd::prelude::*;

verus! {

/// Length of an identifier in its hyphenated form.
pub const ID_LEN: usize = 36;

/// A new random identifier, from `uuid::Uuid::new_v4` rendered by its
/// `Display` impl. Trusted: the rendering is the hyphenated form, which is
/// always 36 characters long. Which identifier comes back is not stated.
#[verifier::external_body]
pub(crate) fn fresh_id() -> (id: String)
    ensures
        id@.len() == ID_LEN,
{
    uuid::Uuid::new_v4().to_string()
}

} // verus!
