//! The front of house of a restaurant, as seen by a guest.

use vstd::prelude::*;

pub mod hosting;

verus! {

/// A guest comes to eat and is put on the waitlist, once by the full path of
/// the hosting module and once by its path from here.
pub fn eat_at_restaurant() {
    crate::restaurant::hosting::add_to_waitlist();
    hosting::add_to_waitlist();
}

} // verus!
