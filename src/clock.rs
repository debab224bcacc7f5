use vstd::prelude::*;

verus! {

/// Relies on std's `SystemTime::now` and `duration_since(UNIX_EPOCH)`: the
/// wall clock in milliseconds since the Unix epoch, or 0 when the clock reads
/// earlier than the epoch. Nothing is promised about the value.
#[verifier::external_body]
pub(crate) fn unix_millis() -> (r: u64) {
    std::time::SystemTime::now()
        .duration_since(std::time::UNIX_EPOCH)
        .map(|d| d.as_millis() as u64)
        .unwrap_or(0)
}

} // verus!
