//! Trusted reads of the system clock. Nothing is promised of the values:
//! they depend on the time of the call.

use vstd::prelude::*;

verus! {

/// Relies on std::time::SystemTime::now; the result is converted to whole
/// seconds since the Unix epoch, zero if the clock reads earlier than the
/// epoch.
#[verifier::external_body]
pub(crate) fn epoch_now() -> u64 {
    std::time::SystemTime::now()
        .duration_since(std::time::UNIX_EPOCH)
        .unwrap_or_default()
        .as_secs()
}

/// Relies on chrono's DateTime formatting of the current local time; the
/// result is a timestamp-derived version string whose lexicographic order
/// within one era follows chronological order.
#[verifier::external_body]
pub(crate) fn version_now() -> String {
    chrono::DateTime::<chrono::Local>::from(std::time::SystemTime::now())
        .format("%Y%m%d-%H%M%S")
        .to_string()
}

} // verus!
