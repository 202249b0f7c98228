//! Fresh identifiers and timestamps from the host: a random session
//! disambiguator, time-ordered call identifiers, and wall-clock timestamps.

use vstd::prelude::*;

verus! {

/// Relies on `rand::random::<u32>`: a fresh random draw. Nothing is promised
/// of its value; callers treat every outcome alike.
#[verifier::external_body]
pub fn random_suffix() -> u32 {
    rand::random::<u32>()
}

/// Relies on `uuid::Uuid::now_v7` and its `Display` form: the hyphenated
/// rendering is 36 characters of hexadecimal digits and hyphens, so it is
/// free of quotes and backslashes.
#[verifier::external_body]
pub fn time_ordered_id() -> (r: String)
    ensures
        r@.len() == 36,
        crate::codec::json_safe(r@),
{
    uuid::Uuid::now_v7().to_string()
}

/// Relies on `chrono::Utc::now` and `DateTime::to_rfc3339`: an RFC 3339
/// timestamp is built from digits, letters and punctuation that exclude
/// quotes and backslashes.
#[verifier::external_body]
pub fn now_timestamp() -> (r: String)
    ensures
        r@.len() > 0,
        crate::codec::json_safe(r@),
{
    chrono::Utc::now().to_rfc3339()
}

} // verus!
