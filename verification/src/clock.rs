//! The wall clock.

use vstd::prelude::*;

verus! {

/// The current time in UTC as RFC 3339 text: the system time, made a
/// `chrono::DateTime<Utc>` with its `From<SystemTime>` and written out with
/// `DateTime::to_rfc3339`.
///
/// Nothing is claimed of the text: it depends on the clock of the machine,
/// which may stand still or be set back between two calls. A clock that
/// stands before the year 1970 gives a time before it. The conversion has no
/// answer only for a time outside the years that `chrono` can hold, more than
/// 262,000 years from now.
#[verifier::external_body]
pub(crate) fn current_timestamp() -> (now: String) {
    chrono::DateTime::<chrono::Utc>::from(std::time::SystemTime::now()).to_rfc3339()
}

} // verus!
