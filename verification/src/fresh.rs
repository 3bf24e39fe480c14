//! Fresh runtime values: generated identifiers and the clock. Both
//! are nondeterministic, so nothing is promised about the values
//! themselves; callers state what holds of every outcome.

use vstd::prelude::*;

verus! {

/// Relies on `uuid::Uuid::new_v4` and its `Display` form: a random
/// identifier rendered as 36 hyphenated hex characters. The value is
/// random; only its length is promised.
#[verifier::external_body]
pub(crate) fn new_uuid_string() -> (r: String)
    ensures
        r@.len() == 36,
{
    uuid::Uuid::new_v4().to_string()
}

/// Relies on `uuid::Uuid::new_v4` and `Uuid::into_bytes`: a random
/// 16-byte identifier. The value is random; only the length is
/// promised.
#[verifier::external_body]
pub(crate) fn new_uuid_bytes() -> (r: Vec<u8>)
    ensures
        r@.len() == 16,
{
    uuid::Uuid::new_v4().into_bytes().to_vec()
}

/// Relies on `chrono::Utc::now` and `DateTime::timestamp_millis`:
/// the current time as milliseconds since the Unix epoch. The value
/// depends on the clock, so nothing is promised about it.
#[verifier::external_body]
pub(crate) fn now_millis() -> (r: i64) {
    chrono::Utc::now().timestamp_millis()
}

} // verus!
