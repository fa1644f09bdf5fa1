//! Positions and extents on the screen, in pixels.

use vstd::prelude::*;

verus! {

/// A position on the screen.
#[derive(Clone, Copy, Debug, PartialEq, Eq, Structural)]
pub struct ScreenPoint {
    /// Pixels from the left.
    pub x: i32,
    /// Pixels from the top.
    pub y: i32,
}

impl ScreenPoint {
    /// The point at `x`, `y`.
    pub fn new(x: i32, y: i32) -> (point: Self)
        ensures
            point == (ScreenPoint { x, y }),
    {
        ScreenPoint { x, y }
    }
}

/// A rectangle on the screen: position and size.
#[derive(Clone, Copy, Debug, PartialEq, Eq, Structural)]
pub struct ScreenRect {
    /// Pixels from the left.
    pub x: i32,
    /// Pixels from the top.
    pub y: i32,
    /// Width in pixels.
    pub w: i32,
    /// Height in pixels.
    pub h: i32,
}

impl ScreenRect {
    /// The rectangle at `x`, `y` with size `w` by `h`.
    pub fn new(x: i32, y: i32, w: i32, h: i32) -> (rect: Self)
        ensures
            rect == (ScreenRect { x, y, w, h }),
    {
        ScreenRect { x, y, w, h }
    }
}

/// A movement on the screen. The components are wide enough for the
/// difference of any two positions.
#[derive(Clone, Copy, Debug, PartialEq, Eq, Structural)]
pub struct DeltaVector {
    /// Pixels to the right.
    pub delta_x: i64,
    /// Pixels down.
    pub delta_y: i64,
}

impl DeltaVector {
    /// The movement by `delta_x`, `delta_y`.
    pub fn new(delta_x: i64, delta_y: i64) -> (delta: Self)
        ensures
            delta == (DeltaVector { delta_x, delta_y }),
    {
        DeltaVector { delta_x, delta_y }
    }

    /// The movement that leads from `old` to `new`.
    pub fn from_points(old: &ScreenPoint, new: &ScreenPoint) -> (delta: Self)
        ensures
            delta.delta_x == new.x - old.x,
            delta.delta_y == new.y - old.y,
    {
        DeltaVector { delta_x: new.x as i64 - old.x as i64, delta_y: new.y as i64 - old.y as i64 }
    }
}

} // verus!
