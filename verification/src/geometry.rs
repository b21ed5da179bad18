//! Plain pixel geometry: sizes and rectangles in physical pixels.

use vstd::prelude::*;

verus! {

/// Width and height of an area, in physical pixels.
#[derive(Clone, Copy, Debug, PartialEq, Eq, Structural)]
pub struct Size {
    pub width: u32,
    pub height: u32,
}

impl Size {
    /// A size of the given width and height.
    pub fn new(width: u32, height: u32) -> (size: Size)
        ensures
            size == (Size { width, height }),
    {
        Size { width, height }
    }
}

/// An axis-aligned rectangle in physical pixels, given by its top-left corner
/// and its extent.
#[derive(Clone, Copy, Debug, PartialEq, Eq, Structural)]
pub struct Rectangle {
    pub x: u32,
    pub y: u32,
    pub width: u32,
    pub height: u32,
}

impl Rectangle {
    /// A rectangle with the given corner and extent.
    pub fn new(x: u32, y: u32, width: u32, height: u32) -> (rectangle: Rectangle)
        ensures
            rectangle == (Rectangle { x, y, width, height }),
    {
        Rectangle { x, y, width, height }
    }
}

} // verus!
