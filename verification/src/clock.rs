//! The calendar date, as the one thing this library takes from the clock.

use vstd::prelude::*;

verus! {

/// Calls `chrono::Local::now` and formats the date with `%Y-%m-%d`. The
/// result depends on the clock and the time zone of the machine, so nothing
/// is claimed of it.
#[verifier::external_body]
pub(crate) fn today() -> (date: String) {
    chrono::Local::now().format("%Y-%m-%d").to_string()
}

} // verus!
