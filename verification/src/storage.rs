//! The object-storage client's one decision the pipeline depends on: when
//! its short-lived credentials are due for renewal. The credential exchange
//! itself is a collaborator of the binary around the library.

use vstd::prelude::*;

verus! {

/// How long before expiry credentials count as stale, in milliseconds.
pub const EXPIRATION_BUFFER_MILLIS: i64 = 60_000;

/// Whether the storage client must renew its credentials before the next
/// request: it must when it has none yet, or when they expire within the
/// buffer.
pub fn credentials_need_renewal(expiration_millis: Option<i64>, now_millis: i64) -> (r: bool)
    ensures
        r == match expiration_millis {
            Some(expiration) => expiration - EXPIRATION_BUFFER_MILLIS < now_millis,
            None => true,
        },
{
    match expiration_millis {
        Some(expiration) => (expiration as i128) - (EXPIRATION_BUFFER_MILLIS as i128) < (now_millis as i128),
        None => true,
    }
}

} // verus!
