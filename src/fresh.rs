//! Values that come from outside the store: fresh identifiers and the time.
use vstd::prelude::*;

verus! {

/// Relies on `uuid::Uuid::new_v4`: a random UUID, as its 128-bit value. The version
/// and variant bits are always set, so it is never the nil UUID.
#[verifier::external_body]
pub(crate) fn fresh_uuid() -> (r: u128)
    ensures
        r != 0,
{
    uuid::Uuid::new_v4().as_u128()
}

/// Relies on `time::OffsetDateTime::now_utc`: the current time, as a Unix timestamp in
/// seconds.
#[verifier::external_body]
pub(crate) fn now_unix() -> (r: i64) {
    time::OffsetDateTime::now_utc().unix_timestamp()
}

} // verus!
