//! Hosting: who waits for a table.

use vstd::prelude::*;

verus! {

/// Puts a party on the waitlist. The list itself is kept by the host, not
/// here: the call has nothing to report.
pub fn add_to_waitlist() {
}

} // verus!
