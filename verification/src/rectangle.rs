//! Rectangles with sides in whole pixels.

use vstd::prelude::*;

verus! {

/// A rectangle, by the lengths of its sides.
#[derive(Debug)]
pub struct Rectangle {
    pub width: u32,
    pub height: u32,
}

/// The area of `rectangle`, for a rectangle whose area fits in a `u32`.
pub fn area(rectangle: &Rectangle) -> (pixels: u32)
    requires
        rectangle.width * rectangle.height <= u32::MAX,
    ensures
        pixels == rectangle.width * rectangle.height,
{
    rectangle.width * rectangle.height
}

} // verus!
