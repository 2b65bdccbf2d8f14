//! The one reading of the wall clock that creating a save needs.

use vstd::prelude::*;

verus! {

/// Relies on chrono's `Utc::now` and `DateTime::to_rfc3339`: the current
/// UTC wall-clock time rendered as an RFC 3339 / ISO 8601 string.  The
/// value depends on the clock, so nothing is assumed of it; callers state
/// only what holds of every outcome.  `Utc::now` panics only when the
/// system clock reads before the Unix epoch.
#[verifier::external_body]
pub(crate) fn now_utc_rfc3339() -> (r: String) {
    chrono::Utc::now().to_rfc3339()
}

} // verus!
