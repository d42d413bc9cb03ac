//! The types of the document store that run through the crate. The crate
//! carries their values and never looks inside them.

use vstd::prelude::*;
use mongodb::bson::oid::ObjectId;

verus! {

/// The identity of a stored document.
#[verifier::external_type_specification]
#[verifier::external_body]
pub struct ExObjectId(mongodb::bson::oid::ObjectId);

/// A point in time as the store records it.
#[verifier::external_type_specification]
#[verifier::external_body]
pub struct ExDateTime(mongodb::bson::DateTime);

/// An identity that no document has yet.
///
/// Trusted: wraps `ObjectId::default`, which makes a new identity from the
/// clock, a per-process random value and a counter. Nothing is claimed of
/// it. The call panics while the system clock stands before 1970 or beyond
/// what 32 bits of seconds can count.
#[verifier::external_body]
pub(crate) fn fresh_object_id() -> ObjectId {
    ObjectId::default()
}

/// The identity held, or a fresh one where none is held.
pub fn id_or_fresh(id: Option<ObjectId>) -> (out: ObjectId)
    ensures
        id is Some ==> out == id->0,
{
    match id {
        Some(held) => held,
        None => fresh_object_id(),
    }
}

} // verus!
