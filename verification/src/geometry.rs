use vstd::prelude::*;

verus! {

/// A length measured in physical device pixels.
#[derive(Clone, Copy, Debug, PartialEq, Eq, Structural)]
pub struct DevicePixels(pub i32);

/// A point in a two-dimensional space, in the unit `T`.
#[derive(Clone, Copy, Debug, PartialEq, Eq, Structural)]
pub struct Point<T> {
    pub x: T,
    pub y: T,
}

/// A width and a height, in the unit `T`.
#[derive(Clone, Copy, Debug, PartialEq, Eq, Structural)]
pub struct Size<T> {
    pub width: T,
    pub height: T,
}

/// A rectangle given by its top-left corner and its size.
#[derive(Clone, Copy, Debug, PartialEq, Eq, Structural)]
pub struct Bounds<T> {
    pub origin: Point<T>,
    pub size: Size<T>,
}

/// Builds a point from its two coordinates.
pub fn point<T>(x: T, y: T) -> (p: Point<T>)
    ensures
        p == (Point { x, y }),
{
    Point { x, y }
}

/// Builds a size from its width and height.
pub fn size<T>(width: T, height: T) -> (s: Size<T>)
    ensures
        s == (Size { width, height }),
{
    Size { width, height }
}

impl<T> Bounds<T> {
    /// Builds a rectangle from its top-left corner and its size.
    pub fn new(origin: Point<T>, size: Size<T>) -> (b: Bounds<T>)
        ensures
            b == (Bounds { origin, size }),
    {
        Bounds { origin, size }
    }
}

} // verus!
