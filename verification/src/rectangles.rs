//! Rectangles and their areas.

use vstd::prelude::*;

verus! {

/// An axis-aligned rectangle.
#[derive(Clone, Copy, Debug, PartialEq, Eq, Structural)]
pub struct Rectangle {
    pub width: u32,
    pub height: u32,
}

impl Rectangle {
    /// A square of the given side.
    pub fn square(size: u32) -> (r: Rectangle)
        ensures
            r.width == size,
            r.height == size,
    {
        Rectangle { width: size, height: size }
    }

    /// Area of the rectangle; the caller keeps the product within u32.
    pub fn area(&self) -> (r: u32)
        requires
            self.width * self.height <= u32::MAX,
        ensures
            r == self.width * self.height,
    {
        self.width * self.height
    }

    /// Whether `other` fits strictly inside this rectangle.
    pub fn can_hold(&self, other: &Rectangle) -> (r: bool)
        ensures
            r == (self.width > other.width && self.height > other.height),
    {
        self.width > other.width && self.height > other.height
    }
}

/// Area of a rectangle given as a (width, height) pair.
pub fn area1(dimensions: (u32, u32)) -> (r: u32)
    requires
        dimensions.0 * dimensions.1 <= u32::MAX,
    ensures
        r == dimensions.0 * dimensions.1,
{
    dimensions.0 * dimensions.1
}

/// Area of a borrowed rectangle.
pub fn area(rectangle: &Rectangle) -> (r: u32)
    requires
        rectangle.width * rectangle.height <= u32::MAX,
    ensures
        r == rectangle.width * rectangle.height,
{
    rectangle.width * rectangle.height
}

} // verus!
