//! The two calls this library makes into outside crates: a fresh run
//! identifier and the current timestamp. Nothing else about a run depends on
//! code this crate does not verify.

use vstd::prelude::*;

verus! {

/// Relies on uuid::Uuid::new_v4 and its Display impl: a version-4 UUID
/// formatted as 36 lowercase hyphenated hexadecimal characters. The value is
/// random, so nothing but the documented shape is stated.
#[verifier::external_body]
pub(crate) fn new_uuid() -> (r: Vec<char>)
    ensures
        r@.len() == 36,
{
    uuid::Uuid::new_v4().to_string().chars().collect()
}

/// Relies on chrono::Utc::now and its Display impl: the current UTC time,
/// formatted. The value depends on the clock, so nothing is stated of it.
#[verifier::external_body]
pub(crate) fn now_utc() -> (r: Vec<char>)
{
    chrono::Utc::now().to_string().chars().collect()
}

} // verus!
