//! The time of a request, by the crates `chrono` and `chrono_tz`.

use vstd::prelude::*;

verus! {

/// Calls `Utc::now` of the crate `chrono`, carries the instant over to the
/// zone `Asia::Shanghai` of the crate `chrono_tz` with `with_timezone`, and
/// reads it with `timestamp_millis`: the milliseconds since the Unix epoch.
///
/// Trusted: nothing. The outcome is what the clock of the machine says.
#[verifier::external_body]
pub(crate) fn current_timestamp_millis() -> i64 {
    chrono::Utc::now().with_timezone(&chrono_tz::Asia::Shanghai).timestamp_millis()
}

} // verus!
